//! A balance-based point-of-sale library: users pre-deposit money and buy
//! products by spending from a balance derived from an append-only ledger of
//! deposits and sales.
//!
//! The core pieces are a fixed-point money type ([`streg_cents`]), a parser
//! for the compact "quickbuy" text command ([`parser`]), a transactional
//! multi-item purchase executor over a ledger snapshot ([`executor`]), and a
//! least-recently-used cache of HTTP responses that shields the executor from
//! duplicate invocation when a client retries a request ([`idempotency`]).

pub mod buy_request;
pub mod digits;
pub mod executor;
pub mod idempotency;
pub mod news;
pub mod parser;
pub mod product;
pub mod products;
pub mod result_json;
pub mod rooms;
pub mod streg_cents;
pub mod text;
pub mod user;
pub mod users;
