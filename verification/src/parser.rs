//! The quickbuy query parser: turns the compact text command
//! `username` or `username item[:qty] item[:qty] ...` into a structured
//! purchase intent.

use vstd::prelude::*;

use crate::digits::{all_digits, dec_value};
use crate::text::{chars_to_string, split_char, split_chars, str_chars};

verus! {

/// A parsed quickbuy command: either a lone username, or a username plus a
/// list of products to buy.
#[derive(Debug, Clone)]
pub enum QuickBuyType {
    Username { username: String },
    MultiBuy { username: String, products: Vec<MultiBuyProduct> },
}

/// One requested product: a reference (numeric id or alias text) and a
/// positive quantity.
#[derive(Debug, Clone)]
pub struct MultiBuyProduct {
    pub product_name: String,
    pub amount: u32,
}

/// How a single product token failed to parse.
#[derive(Debug, Clone, Copy, PartialEq, Eq, Structural)]
pub enum MultiBuyParseError {
    /// More than one ':' in the token.
    Syntax,
    /// The name part before the ':' is empty.
    EmptyProduct,
    /// The amount part is not a positive integer.
    InvalidAmount,
}

/// How a whole quickbuy query failed to parse.
#[derive(Debug, Clone, Copy, PartialEq, Eq, Structural)]
pub enum QuickBuyParseError {
    /// The query holds no tokens at all.
    EmptyQuery,
    /// Some product token is malformed.
    MultiBuy(MultiBuyParseError),
}

/// The whitespace characters that separate quickbuy tokens.
pub open spec fn is_space(c: char) -> bool {
    c == ' ' || c == '\t' || c == '\n' || c == '\r'
}

/// `s` split at every whitespace character, empty pieces included.
pub open spec fn space_split(s: Seq<char>) -> Seq<Seq<char>>
    decreases s.len(),
{
    if s.len() == 0 {
        seq![Seq::<char>::empty()]
    } else if is_space(s[0]) {
        seq![Seq::<char>::empty()] + space_split(s.skip(1))
    } else {
        let rest = space_split(s.skip(1));
        seq![seq![s[0]] + rest[0]] + rest.skip(1)
    }
}

/// The non-empty pieces of `ts`, in order.
pub open spec fn keep_nonempty(ts: Seq<Seq<char>>) -> Seq<Seq<char>>
    decreases ts.len(),
{
    if ts.len() == 0 {
        Seq::empty()
    } else if ts[0].len() > 0 {
        seq![ts[0]] + keep_nonempty(ts.skip(1))
    } else {
        keep_nonempty(ts.skip(1))
    }
}

/// The tokens of a quickbuy query: the maximal runs of non-whitespace
/// characters, in order. Surrounding whitespace contributes no tokens.
pub open spec fn tokens(s: Seq<char>) -> Seq<Seq<char>> {
    keep_nonempty(space_split(s))
}

/// The quantity denoted by the text after a ':': an optional leading '+',
/// then decimal digits denoting a value between 1 and `u32::MAX`.
pub open spec fn amount_value(s: Seq<char>) -> Option<u32> {
    let d = if s.len() > 0 && s[0] == '+' {
        s.skip(1)
    } else {
        s
    };
    if d.len() > 0 && all_digits(d) && 1 <= dec_value(d) <= u32::MAX {
        Some(dec_value(d) as u32)
    } else {
        None
    }
}

/// What a single product token parses to: a (reference text, quantity) pair,
/// or the first error found. A token without ':' is a reference with
/// quantity 1; one ':' separates the reference from the quantity; more than
/// one ':' is a syntax error; an empty reference is rejected before the
/// quantity is looked at.
pub open spec fn product_token_result(t: Seq<char>) -> Result<(Seq<char>, u32), MultiBuyParseError> {
    let parts = split_char(t, ':');
    if parts.len() == 1 {
        if t.len() == 0 {
            Err(MultiBuyParseError::EmptyProduct)
        } else {
            Ok((t, 1u32))
        }
    } else if parts.len() == 2 {
        if parts[0].len() == 0 {
            Err(MultiBuyParseError::EmptyProduct)
        } else {
            match amount_value(parts[1]) {
                Some(a) => Ok((parts[0], a)),
                None => Err(MultiBuyParseError::InvalidAmount),
            }
        }
    } else {
        Err(MultiBuyParseError::Syntax)
    }
}

/// The product tokens parsed left to right; the first error aborts the
/// whole list.
pub open spec fn products_result(toks: Seq<Seq<char>>) -> Result<
    Seq<(Seq<char>, u32)>,
    MultiBuyParseError,
>
    decreases toks.len(),
{
    if toks.len() == 0 {
        Ok(Seq::empty())
    } else {
        match product_token_result(toks[0]) {
            Err(e) => Err(e),
            Ok(p) => match products_result(toks.skip(1)) {
                Err(e) => Err(e),
                Ok(rest) => Ok(seq![p] + rest),
            },
        }
    }
}

/// If every token before position `i` parses and token `i` fails with `e`,
/// the whole list fails with `e`.
proof fn lemma_products_result_err(toks: Seq<Seq<char>>, i: int)
    requires
        0 <= i < toks.len(),
        forall|k: int| 0 <= k < i ==> (#[trigger] product_token_result(toks[k])) is Ok,
        product_token_result(toks[i]) is Err,
    ensures
        products_result(toks) == Err::<Seq<(Seq<char>, u32)>, MultiBuyParseError>(
            product_token_result(toks[i]).get_Err_0(),
        ),
    decreases toks.len(),
{
    if i == 0 {
    } else {
        assert(forall|k: int|
            0 <= k < i - 1 ==> #[trigger] toks.skip(1)[k] == toks[k + 1]);
        lemma_products_result_err(toks.skip(1), i - 1);
    }
}

/// If every token parses, the whole list parses to the tokenwise results.
proof fn lemma_products_result_ok(toks: Seq<Seq<char>>)
    requires
        forall|k: int| 0 <= k < toks.len() ==> (#[trigger] product_token_result(toks[k])) is Ok,
    ensures
        products_result(toks) == Ok::<Seq<(Seq<char>, u32)>, MultiBuyParseError>(
            Seq::new(toks.len(), |k: int| product_token_result(toks[k]).get_Ok_0()),
        ),
    decreases toks.len(),
{
    if toks.len() == 0 {
        assert(Seq::new(0nat, |k: int| product_token_result(toks[k]).get_Ok_0())
            =~= Seq::<(Seq<char>, u32)>::empty());
    } else {
        assert(forall|k: int|
            0 <= k < toks.len() - 1 ==> #[trigger] toks.skip(1)[k] == toks[k + 1]);
        lemma_products_result_ok(toks.skip(1));
        assert(seq![product_token_result(toks[0]).get_Ok_0()] + Seq::new(
            toks.skip(1).len(),
            |k: int| product_token_result(toks.skip(1)[k]).get_Ok_0(),
        ) =~= Seq::new(toks.len(), |k: int| product_token_result(toks[k]).get_Ok_0()));
    }
}

/// Whether the parsed product list `ps` matches the spec-level results `rs`.
pub open spec fn products_match(ps: Seq<MultiBuyProduct>, rs: Seq<(Seq<char>, u32)>) -> bool {
    &&& ps.len() == rs.len()
    &&& forall|i: int|
        0 <= i < ps.len() ==> (#[trigger] ps[i]).product_name@ == rs[i].0 && ps[i].amount == rs[i].1
}

/// The exec counterpart of [`keep_nonempty`], dropping the empty pieces.
fn drop_empty(ts: Vec<Vec<char>>) -> (r: Vec<Vec<char>>)
    ensures
        r.deep_view() == keep_nonempty(ts.deep_view()),
{
    let ghost whole = ts.deep_view();
    let mut out: Vec<Vec<char>> = Vec::new();
    let mut i: usize = 0;
    proof {
        assert(whole.skip(0) =~~= whole);
        assert(out.deep_view() =~~= Seq::<Seq<char>>::empty());
    }
    let n = ts.len();
    while i < n
        invariant
            0 <= i <= n,
            n == ts.len(),
            whole == ts.deep_view(),
            keep_nonempty(whole) =~~= out.deep_view() + keep_nonempty(whole.skip(i as int)),
        decreases n - i,
    {
        let ghost out0 = out.deep_view();
        proof {
            assert(whole.skip(i as int).len() > 0);
            assert(whole.skip(i as int)[0] == whole[i as int]);
            assert(whole.skip(i as int).skip(1) =~~= whole.skip(i as int + 1));
            assert(whole[i as int] == ts[i as int]@);
        }
        if ts[i].len() > 0 {
            let piece = ts[i].clone();
            proof {
                assert(piece@ == whole[i as int]);
            }
            out.push(piece);
            proof {
                assert(out.deep_view() =~~= out0 + seq![whole[i as int]]);
                assert(keep_nonempty(whole) =~~= out.deep_view() + keep_nonempty(
                    whole.skip(i as int + 1),
                ));
            }
        } else {
            proof {
                assert(keep_nonempty(whole) =~~= out.deep_view() + keep_nonempty(
                    whole.skip(i as int + 1),
                ));
            }
        }
        i = i + 1;
    }
    proof {
        assert(whole.skip(i as int) =~~= Seq::<Seq<char>>::empty());
        assert(keep_nonempty(Seq::<Seq<char>>::empty()) =~~= Seq::<Seq<char>>::empty());
        assert(out.deep_view() =~~= keep_nonempty(whole));
    }
    out
}

/// The exec counterpart of [`space_split`]: like
/// [`split_chars`](crate::text::split_chars), but splitting at every
/// whitespace character.
fn space_split_chars(s: &[char]) -> (r: Vec<Vec<char>>)
    ensures
        r.deep_view() == space_split(s@),
{
    let ghost whole = s@;
    let mut done: Vec<Vec<char>> = Vec::new();
    let mut cur: Vec<char> = Vec::new();
    let mut i: usize = 0;
    proof {
        lemma_space_split_nonempty(whole);
        assert(whole.skip(0) =~= whole);
        assert(done.deep_view() =~~= Seq::<Seq<char>>::empty());
    }
    while i < s.len()
        invariant
            0 <= i <= whole.len(),
            whole == s@,
            space_split(whole) =~~= done.deep_view() + seq![
                cur@ + space_split(whole.skip(i as int))[0],
            ] + space_split(whole.skip(i as int)).skip(1),
        decreases whole.len() - i,
    {
        let ghost before = space_split(whole.skip(i as int));
        let ghost after = space_split(whole.skip(i as int + 1));
        let ghost done0 = done.deep_view();
        let ghost cur0 = cur@;
        proof {
            assert(whole.skip(i as int).len() > 0);
            assert(whole.skip(i as int)[0] == whole[i as int]);
            assert(whole.skip(i as int).skip(1) =~= whole.skip(i as int + 1));
            lemma_space_split_nonempty(whole.skip(i as int + 1));
        }
        let c = s[i];
        if c == ' ' || c == '\t' || c == '\n' || c == '\r' {
            proof {
                assert(before == seq![Seq::<char>::empty()] + after);
            }
            done.push(cur);
            cur = Vec::new();
            proof {
                assert(done.deep_view() =~~= done0 + seq![cur0]);
                assert(cur0 + before[0] =~= cur0);
                assert(space_split(whole) =~~= done.deep_view() + seq![
                    cur@ + after[0],
                ] + after.skip(1));
            }
        } else {
            proof {
                assert(before == seq![seq![whole[i as int]] + after[0]] + after.skip(1));
            }
            cur.push(c);
            proof {
                assert(before[0] == seq![whole[i as int]] + after[0]);
                assert(before.skip(1) =~~= after.skip(1));
                assert(cur@ =~= cur0 + seq![whole[i as int]]);
                assert(cur0 + before[0] =~= cur@ + after[0]);
                assert(space_split(whole) =~~= done.deep_view() + seq![
                    cur@ + after[0],
                ] + after.skip(1));
            }
        }
        i = i + 1;
    }
    let ghost done0 = done.deep_view();
    let ghost cur0 = cur@;
    proof {
        assert(whole.skip(i as int) =~= Seq::<char>::empty());
    }
    done.push(cur);
    proof {
        let tail = space_split(Seq::<char>::empty());
        assert(tail == seq![Seq::<char>::empty()]);
        assert(cur0 + tail[0] =~= cur0);
        assert(tail.skip(1) =~~= Seq::<Seq<char>>::empty());
        assert(done.deep_view() =~~= done0 + seq![cur0]);
        assert(done.deep_view() =~~= space_split(whole));
    }
    done
}

proof fn lemma_space_split_nonempty(s: Seq<char>)
    ensures
        space_split(s).len() >= 1,
    decreases s.len(),
{
    if s.len() > 0 {
        lemma_space_split_nonempty(s.skip(1));
    }
}

/// Parses one product token, matching [`product_token_result`].
fn parse_multi_buy_product(t: &Vec<char>) -> (r: Result<MultiBuyProduct, MultiBuyParseError>)
    ensures
        match product_token_result(t@) {
            Ok(p) => r matches Ok(mp) && mp.product_name@ == p.0 && mp.amount == p.1,
            Err(e) => r == Err::<MultiBuyProduct, MultiBuyParseError>(e),
        },
{
    let parts = split_chars(t.as_slice(), ':');
    proof {
        assert(parts.deep_view().len() == parts@.len());
    }
    if parts.len() == 1 {
        proof {
            assert(parts.deep_view()[0] == parts@[0]@);
        }
        if t.len() == 0 {
            Err(MultiBuyParseError::EmptyProduct)
        } else {
            Ok(MultiBuyProduct { product_name: chars_to_string(t), amount: 1 })
        }
    } else if parts.len() == 2 {
        proof {
            assert(parts.deep_view()[0] == parts@[0]@);
            assert(parts.deep_view()[1] == parts@[1]@);
        }
        if parts[0].len() == 0 {
            Err(MultiBuyParseError::EmptyProduct)
        } else {
            let amount_part = &parts[1];
            let has_sign = amount_part.len() > 0 && amount_part[0] == '+';
            let start: usize = if has_sign {
                1
            } else {
                0
            };
            let mut ds: Vec<char> = Vec::new();
            let mut j: usize = start;
            while j < amount_part.len()
                invariant
                    start <= j <= amount_part@.len(),
                    ds@ =~= amount_part@.subrange(start as int, j as int),
                decreases amount_part@.len() - j,
            {
                let c = amount_part[j];
                ds.push(c);
                j = j + 1;
            }
            proof {
                if has_sign {
                    assert(ds@ =~= amount_part@.skip(1));
                } else {
                    assert(ds@ =~= amount_part@);
                }
            }
            match crate::digits::parse_dec_bounded(ds.as_slice(), 0xffff_ffffu64) {
                Some(v) => {
                    if v == 0 {
                        Err(MultiBuyParseError::InvalidAmount)
                    } else {
                        proof {
                            crate::digits::lemma_dec_value_nonneg(ds@);
                            assert(v == dec_value(ds@));
                            assert(0 < dec_value(ds@) <= u32::MAX);
                        }
                        Ok(MultiBuyProduct {
                            product_name: chars_to_string(&parts[0]),
                            amount: v as u32,
                        })
                    }
                }
                None => Err(MultiBuyParseError::InvalidAmount),
            }
        }
    } else {
        Err(MultiBuyParseError::Syntax)
    }
}

/// Parses a quickbuy query. The query's tokens are its maximal whitespace-
/// separated words: no tokens fail as an empty query; a single token is a
/// bare username; two or more tokens are a username followed by product
/// tokens, of which the first malformed one aborts the parse.
pub fn parse_quickbuy_query(quickbuy_query: &str) -> (r: Result<QuickBuyType, QuickBuyParseError>)
    ensures
        (r == Err::<QuickBuyType, QuickBuyParseError>(QuickBuyParseError::EmptyQuery)) <==> tokens(
            quickbuy_query@,
        ).len() == 0,
        tokens(quickbuy_query@).len() == 1 ==> (r matches Ok(QuickBuyType::Username { username })
            && username@ == tokens(quickbuy_query@)[0]),
        tokens(quickbuy_query@).len() >= 2 ==> (match products_result(
            tokens(quickbuy_query@).skip(1),
        ) {
            Ok(ps) => r matches Ok(QuickBuyType::MultiBuy { username, products })
                && username@ == tokens(quickbuy_query@)[0] && products_match(products@, ps),
            Err(e) => r == Err::<QuickBuyType, QuickBuyParseError>(QuickBuyParseError::MultiBuy(e)),
        }),
{
    let cs = str_chars(quickbuy_query);
    let pieces = space_split_chars(cs.as_slice());
    let toks = drop_empty(pieces);
    let ghost tks = tokens(quickbuy_query@);
    proof {
        assert(toks.deep_view() == tks);
        assert(toks.deep_view().len() == toks@.len());
        assert(tks.len() == toks@.len());
    }
    if toks.len() == 0 {
        Err(QuickBuyParseError::EmptyQuery)
    } else if toks.len() == 1 {
        proof {
            assert(toks.deep_view()[0] == toks@[0]@);
        }
        Ok(QuickBuyType::Username { username: chars_to_string(&toks[0]) })
    } else {
        proof {
            assert(forall|k: int| 0 <= k < toks@.len() ==> toks.deep_view()[k] == (#[trigger] toks@[k])@);
        }
        let mut products: Vec<MultiBuyProduct> = Vec::new();
        let mut i: usize = 1;
        let n = toks.len();
        while i < n
            invariant
                1 <= i <= n,
                n == toks@.len(),
                toks.deep_view() == tks,
                tks == tokens(quickbuy_query@),
                tks.len() == n,
                n >= 2,
                forall|k: int| 0 <= k < toks@.len() ==> toks.deep_view()[k] == (#[trigger] toks@[k])@,
                products@.len() == i - 1,
                forall|k: int|
                    1 <= k < i ==> (#[trigger] product_token_result(tks[k])) is Ok,
                forall|k: int|
                    1 <= k < i ==> (#[trigger] products@[k - 1]).product_name@
                        == product_token_result(tks[k]).get_Ok_0().0 && products@[k - 1].amount
                        == product_token_result(tks[k]).get_Ok_0().1,
            decreases n - i,
        {
            proof {
                assert(toks.deep_view()[i as int] == toks@[i as int]@);
                assert(toks@[i as int]@ == tks[i as int]);
            }
            match parse_multi_buy_product(&toks[i]) {
                Ok(p) => {
                    proof {
                        assert(product_token_result(tks[i as int]) is Ok);
                        assert(p.product_name@ == product_token_result(tks[i as int]).get_Ok_0().0);
                        assert(p.amount == product_token_result(tks[i as int]).get_Ok_0().1);
                    }
                    products.push(p);
                }
                Err(e) => {
                    proof {
                        assert(product_token_result(tks[i as int]) == Err::<
                            (Seq<char>, u32),
                            MultiBuyParseError,
                        >(e));
                        let rest = tks.skip(1);
                        assert(forall|k: int|
                            0 <= k < rest.len() ==> #[trigger] rest[k] == tks[k + 1]);
                        assert(rest[i as int - 1] == tks[i as int]);
                        assert(forall|k: int|
                            0 <= k < i - 1 ==> (#[trigger] product_token_result(rest[k])) is Ok);
                        lemma_products_result_err(rest, i as int - 1);
                    }
                    return Err(QuickBuyParseError::MultiBuy(e));
                }
            }
            i = i + 1;
        }
        proof {
            let rest = tks.skip(1);
            assert(forall|k: int| 0 <= k < rest.len() ==> #[trigger] rest[k] == tks[k + 1]);
            lemma_products_result_ok(rest);
            let ps = products_result(rest).get_Ok_0();
            assert(products_match(products@, ps)) by {
                assert(forall|k: int|
                    0 <= k < ps.len() ==> #[trigger] ps[k] == product_token_result(
                        tks[k + 1],
                    ).get_Ok_0());
            }
        }
        proof {
            assert(toks.deep_view()[0] == toks@[0]@);
        }
        Ok(QuickBuyType::MultiBuy {
            username: chars_to_string(&toks[0]),
            products,
        })
    }
}

} // verus!

