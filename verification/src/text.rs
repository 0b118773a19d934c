//! Text utilities shared by the parser, the executor and the protocol
//! types: character-level access to strings, splitting on a separator
//! character, and case folding.

use vstd::prelude::*;
use vstd::string::StrSliceExecFns;

verus! {

/// The lowercase form of a character sequence, as Unicode case folding
/// produces it. What it is on given characters takes pages to state; the
/// library only relies on it being a function of the characters alone.
pub uninterp spec fn lower_of(s: Seq<char>) -> Seq<char>;

/// Relies on str::to_lowercase: the lowercase form of the string,
/// a function of its characters alone.
#[verifier::external_body]
pub fn lowercase(s: &str) -> (r: String)
    ensures
        r@ == lower_of(s@),
{
    s.to_lowercase()
}

/// Relies on String's FromIterator over characters (collect): the string of
/// exactly the given characters, in order.
#[verifier::external_body]
pub fn chars_to_string(v: &Vec<char>) -> (r: String)
    ensures
        r@ == v@,
{
    v.iter().collect()
}

/// The characters of `s`, one vector element per character.
pub fn str_chars(s: &str) -> (r: Vec<char>)
    ensures
        r@ == s@,
{
    let n = s.unicode_len();
    let mut r: Vec<char> = Vec::new();
    let mut i: usize = 0;
    while i < n
        invariant
            0 <= i <= n,
            n == s@.len(),
            r@ =~= s@.take(i as int),
        decreases n - i,
    {
        r.push(s.get_char(i));
        i = i + 1;
    }
    assert(s@.take(i as int) =~= s@);
    r
}

/// Character-sequence equality.
pub fn chars_eq(a: &[char], b: &[char]) -> (r: bool)
    ensures
        r == (a@ == b@),
{
    if a.len() != b.len() {
        return false;
    }
    let mut i: usize = 0;
    while i < a.len()
        invariant
            0 <= i <= a@.len(),
            a@.len() == b@.len(),
            forall|j: int| 0 <= j < i ==> a@[j] == b@[j],
        decreases a@.len() - i,
    {
        if a[i] != b[i] {
            return false;
        }
        i = i + 1;
    }
    proof {
        assert(a@ =~= b@);
    }
    true
}

/// `s` split at every occurrence of `sep`: the pieces between separators,
/// in order, including empty pieces. There is always at least one piece;
/// splitting the empty sequence gives one empty piece.
pub open spec fn split_char(s: Seq<char>, sep: char) -> Seq<Seq<char>>
    decreases s.len(),
{
    if s.len() == 0 {
        seq![Seq::<char>::empty()]
    } else if s[0] == sep {
        seq![Seq::<char>::empty()] + split_char(s.skip(1), sep)
    } else {
        let rest = split_char(s.skip(1), sep);
        seq![seq![s[0]] + rest[0]] + rest.skip(1)
    }
}

pub proof fn lemma_split_char_nonempty(s: Seq<char>, sep: char)
    ensures
        split_char(s, sep).len() >= 1,
    decreases s.len(),
{
    if s.len() > 0 {
        lemma_split_char_nonempty(s.skip(1), sep);
    }
}

/// The exec counterpart of [`split_char`].
pub fn split_chars(s: &[char], sep: char) -> (r: Vec<Vec<char>>)
    ensures
        r.deep_view() == split_char(s@, sep),
{
    let ghost whole = s@;
    let mut done: Vec<Vec<char>> = Vec::new();
    let mut cur: Vec<char> = Vec::new();
    let mut i: usize = 0;
    proof {
        lemma_split_char_nonempty(whole, sep);
        assert(whole.skip(0) =~= whole);
        assert(done.deep_view() =~~= Seq::<Seq<char>>::empty());
    }
    while i < s.len()
        invariant
            0 <= i <= whole.len(),
            whole == s@,
            split_char(whole, sep) =~~= done.deep_view() + seq![
                cur@ + split_char(whole.skip(i as int), sep)[0],
            ] + split_char(whole.skip(i as int), sep).skip(1),
        decreases whole.len() - i,
    {
        let ghost before = split_char(whole.skip(i as int), sep);
        let ghost after = split_char(whole.skip(i as int + 1), sep);
        let ghost done0 = done.deep_view();
        let ghost cur0 = cur@;
        proof {
            assert(whole.skip(i as int).len() > 0);
            assert(whole.skip(i as int)[0] == whole[i as int]);
            assert(whole.skip(i as int).skip(1) =~= whole.skip(i as int + 1));
            lemma_split_char_nonempty(whole.skip(i as int + 1), sep);
        }
        if s[i] == sep {
            proof {
                assert(before == seq![Seq::<char>::empty()] + after);
            }
            done.push(cur);
            cur = Vec::new();
            proof {
                assert(done.deep_view() =~~= done0 + seq![cur0]);
                assert(cur0 + before[0] =~= cur0);
                assert(split_char(whole, sep) =~~= done.deep_view() + seq![
                    cur@ + after[0],
                ] + after.skip(1));
            }
        } else {
            proof {
                assert(before == seq![seq![whole[i as int]] + after[0]] + after.skip(1));
            }
            let c = s[i];
            cur.push(c);
            proof {
                assert(before[0] == seq![whole[i as int]] + after[0]);
                assert(before.skip(1) =~~= after.skip(1));
                assert(cur@ =~= cur0 + seq![whole[i as int]]);
                assert(cur0 + before[0] =~= cur@ + after[0]);
                assert(split_char(whole, sep) =~~= done.deep_view() + seq![
                    cur@ + after[0],
                ] + after.skip(1));
            }
        }
        i = i + 1;
    }
    let ghost done0 = done.deep_view();
    let ghost cur0 = cur@;
    proof {
        assert(whole.skip(i as int) =~= Seq::<char>::empty());
    }
    done.push(cur);
    proof {
        let tail = split_char(Seq::<char>::empty(), sep);
        assert(tail == seq![Seq::<char>::empty()]);
        assert(cur0 + tail[0] =~= cur0);
        assert(tail.skip(1) =~~= Seq::<Seq<char>>::empty());
        assert(done.deep_view() =~~= done0 + seq![cur0]);
        assert(done.deep_view() =~~= split_char(whole, sep));
    }
    done
}


/// Whether a request path belongs to the JSON API: it starts with "/api".
/// API responses are never browser-cached and carry no static timestamp.
pub open spec fn spec_is_api_path(p: Seq<char>) -> bool {
    p.len() >= 4 && p.subrange(0, 4) == "/api"@
}

/// The exec counterpart of [`spec_is_api_path`].
pub fn is_api_path(path: &str) -> (r: bool)
    ensures
        r == spec_is_api_path(path@),
{
    proof {
        reveal_strlit("/api");
    }
    let n = path.unicode_len();
    if n < 4 {
        return false;
    }
    let head = vec!['/', 'a', 'p', 'i'];
    let mut prefix: Vec<char> = Vec::new();
    let mut i: usize = 0;
    while i < 4
        invariant
            0 <= i <= 4,
            path@.len() >= 4,
            prefix@ =~= path@.subrange(0, i as int),
        decreases 4 - i,
    {
        prefix.push(path.get_char(i));
        i = i + 1;
    }
    proof {
        assert(head@ =~= "/api"@);
    }
    chars_eq(prefix.as_slice(), head.as_slice())
}

} // verus!
