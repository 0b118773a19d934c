//! Product identifiers and the product record exposed to page rendering.

use vstd::prelude::*;

use crate::streg_cents::StregCents;

verus! {

/// A product's numeric id, unique in the products table.
#[derive(Debug, Clone, Copy, PartialEq, Eq, Hash, Structural)]
pub struct ProductId(pub i32);

/// A product as pages render it: id, display name and unit price.
#[derive(Debug, Clone)]
pub struct Product {
    pub id: ProductId,
    pub name: String,
    pub price: StregCents,
}

} // verus!
