//! The quickbuy request and response shapes, and the combined error of the
//! parser and the executor.

use vstd::prelude::*;

use crate::executor::MultiBuyExecutorError;
use crate::parser::QuickBuyParseError;
use crate::product::ProductId;
use crate::result_json::HttpStatusCode;
use crate::streg_cents::StregCents;

verus! {

/// The body of a quickbuy request: the raw command text.
#[derive(Debug, Clone)]
pub struct BuyRequest {
    pub quickbuy: String,
}

/// The successful outcome of a quickbuy: either the bare username was
/// checked, or a purchase went through.
#[derive(Debug, Clone)]
pub enum BuyResponse {
    Username { username: String },
    MultiBuy {
        username: String,
        bought_products: Vec<BoughtProduct>,
        product_price_sum: StregCents,
        new_user_balance: StregCents,
    },
}

/// One line of a purchase result: a product and how many units of it were
/// bought.
#[derive(Debug, Clone, Copy, PartialEq, Eq, Structural)]
pub struct BoughtProduct {
    pub product_id: ProductId,
    pub amount: i64,
}

/// A quickbuy failure: the parser's or the executor's.
#[derive(Debug, Clone)]
pub enum BuyError {
    Parser(QuickBuyParseError),
    Executor(MultiBuyExecutorError),
}

impl HttpStatusCode for BuyError {
    /// Parse failures and business failures are the client's (400);
    /// storage failures are the server's (500).
    open spec fn spec_status_code(&self) -> u16 {
        match self {
            BuyError::Parser(_) => 400,
            BuyError::Executor(e) => match e {
                MultiBuyExecutorError::DbError(_) => 500,
                _ => 400,
            },
        }
    }

    fn status_code(&self) -> (c: u16)
        ensures
            c == self.spec_status_code(),
    {
        match self {
            BuyError::Parser(_) => 400,
            BuyError::Executor(e) => match e {
                MultiBuyExecutorError::DbError(_) => 500,
                _ => 400,
            },
        }
    }
}

} // verus!
