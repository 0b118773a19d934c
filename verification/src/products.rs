//! The active-products listing: the response shape and the conversion from
//! a store row (with its space-joined alias list) to a response entry.

use vstd::prelude::*;

use crate::product::ProductId;
use crate::result_json::HttpStatusCode;
use crate::streg_cents::{streg_cents_text, StregCents};
use crate::text::{chars_to_string, split_char, split_chars, str_chars};

verus! {

/// The currently purchasable products.
#[derive(Debug, Clone)]
pub struct ActiveProductsResponse {
    pub products: Vec<ActiveProduct>,
}

/// One purchasable product: id, name, rendered price, and its aliases.
#[derive(Debug, Clone)]
pub struct ActiveProduct {
    pub id: ProductId,
    pub name: String,
    pub price: String,
    pub aliases: Vec<String>,
}

/// A storage failure, the only way the listing endpoints fail.
#[derive(Debug, Clone)]
pub struct DatabaseError(pub String);

impl HttpStatusCode for DatabaseError {
    open spec fn spec_status_code(&self) -> u16 {
        500
    }

    fn status_code(&self) -> (c: u16)
        ensures
            c == self.spec_status_code(),
    {
        500
    }
}

/// Builds a listing entry from a product row: the price is rendered in the
/// canonical two-decimal form, and the aggregated alias text — aliases
/// joined by single spaces, a character no alias may hold — is split back
/// into the alias list; a row without aliases gets an empty list.
pub fn active_product_from_row(
    id: ProductId,
    name: String,
    price: StregCents,
    aliases: Option<String>,
) -> (r: ActiveProduct)
    ensures
        r.id == id,
        r.name == name,
        r.price@ == streg_cents_text(price.0 as int),
        match aliases {
            None => r.aliases@.len() == 0,
            Some(a) => {
                let parts = split_char(a@, ' ');
                &&& r.aliases@.len() == parts.len()
                &&& forall|i: int| 0 <= i < parts.len() ==> (#[trigger] r.aliases@[i])@ == parts[i]
            },
        },
{
    let rendered = price.to_string();
    let alias_list: Vec<String> = match aliases {
        None => Vec::new(),
        Some(a) => {
            let cs = str_chars(a.as_str());
            let pieces = split_chars(cs.as_slice(), ' ');
            let ghost parts = split_char(a@, ' ');
            let mut out: Vec<String> = Vec::new();
            let n = pieces.len();
            proof {
                assert(pieces.deep_view().len() == pieces@.len());
            }
            let mut i: usize = 0;
            while i < n
                invariant
                    0 <= i <= n,
                    n == pieces@.len(),
                    pieces.deep_view() == parts,
                    parts.len() == n,
                    out@.len() == i,
                    forall|k: int| 0 <= k < i ==> (#[trigger] out@[k])@ == parts[k],
                decreases n - i,
            {
                proof {
                    assert(pieces.deep_view()[i as int] == pieces@[i as int]@);
                }
                out.push(chars_to_string(&pieces[i]));
                i = i + 1;
            }
            out
        }
    };
    ActiveProduct { id, name, price: rendered, aliases: alias_list }
}

} // verus!
