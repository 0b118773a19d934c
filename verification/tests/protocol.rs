use stregsystemet::buy_request::{BoughtProduct, BuyError, BuyRequest, BuyResponse};
use stregsystemet::executor::MultiBuyExecutorError;
use stregsystemet::news::ActiveNewsError;
use stregsystemet::parser::QuickBuyParseError;
use stregsystemet::product::ProductId;
use stregsystemet::products::{active_product_from_row, DatabaseError};
use stregsystemet::result_json::{HttpStatusCode, ResultJson};
use stregsystemet::rooms::RoomInfoError;
use stregsystemet::streg_cents::StregCents;
use stregsystemet::text::is_api_path;
use stregsystemet::users::UserInfoError;

#[test]
fn active_product_row_renders_price_and_splits_aliases() {
    let p = active_product_from_row(
        ProductId(7),
        "Beer".to_string(),
        StregCents(650),
        Some("beer ale".to_string()),
    );
    assert_eq!(p.id, ProductId(7));
    assert_eq!(p.name, "Beer");
    assert_eq!(p.price, "6.50");
    assert_eq!(p.aliases, vec!["beer".to_string(), "ale".to_string()]);
}

#[test]
fn active_product_row_without_aliases() {
    let p = active_product_from_row(ProductId(1), "Coffee".to_string(), StregCents(200), None);
    assert_eq!(p.price, "2.00");
    assert!(p.aliases.is_empty());
}

#[test]
fn buy_error_status_codes() {
    let parser_error = BuyError::Parser(QuickBuyParseError::EmptyQuery);
    assert_eq!(parser_error.status_code(), 400);

    let business = BuyError::Executor(MultiBuyExecutorError::InvalidUsername("x".to_string()));
    assert_eq!(business.status_code(), 400);

    let funds = BuyError::Executor(MultiBuyExecutorError::InsufficientFunds {
        username: "x".to_string(),
        product_price_sum: StregCents(100),
    });
    assert_eq!(funds.status_code(), 400);

    let overflow = BuyError::Executor(MultiBuyExecutorError::StregCentsOverflow);
    assert_eq!(overflow.status_code(), 400);

    let fatal = BuyError::Executor(MultiBuyExecutorError::DbError("down".to_string()));
    assert_eq!(fatal.status_code(), 500);
}

#[test]
fn listing_error_status_codes() {
    assert_eq!(DatabaseError("down".to_string()).status_code(), 500);
    assert_eq!(ActiveNewsError::DbError("down".to_string()).status_code(), 500);
    assert_eq!(RoomInfoError::DbError("down".to_string()).status_code(), 500);
    assert_eq!(RoomInfoError::InvalidRoom(3).status_code(), 400);
    assert_eq!(UserInfoError::DbError("down".to_string()).status_code(), 500);
    assert_eq!(UserInfoError::InvalidUsername("x".to_string()).status_code(), 400);
}

#[test]
fn result_json_wraps_either_side() {
    let ok: ResultJson<BuyResponse, BuyError> =
        ResultJson::new(Ok(BuyResponse::Username { username: "alice".to_string() }));
    assert!(ok.0.is_ok());

    let err: ResultJson<BuyResponse, BuyError> =
        ResultJson::new(Err(BuyError::Parser(QuickBuyParseError::EmptyQuery)));
    assert!(err.0.is_err());
}

#[test]
fn buy_shapes_hold_their_fields() {
    let request = BuyRequest { quickbuy: "alice coffee:2".to_string() };
    assert_eq!(request.quickbuy, "alice coffee:2");

    let bought = BoughtProduct { product_id: ProductId(2), amount: 2 };
    let response = BuyResponse::MultiBuy {
        username: "alice".to_string(),
        bought_products: vec![bought],
        product_price_sum: StregCents(400),
        new_user_balance: StregCents(600),
    };
    match response {
        BuyResponse::MultiBuy { bought_products, product_price_sum, new_user_balance, .. } => {
            assert_eq!(bought_products[0], BoughtProduct { product_id: ProductId(2), amount: 2 });
            assert_eq!(product_price_sum, StregCents(400));
            assert_eq!(new_user_balance, StregCents(600));
        }
        _ => unreachable!(),
    }
}

#[test]
fn api_paths_are_recognized() {
    assert!(is_api_path("/api/purchase/quickbuy"));
    assert!(is_api_path("/api"));
    assert!(!is_api_path("/menu/"));
    assert!(!is_api_path("/"));
    assert!(!is_api_path("api"));
}
