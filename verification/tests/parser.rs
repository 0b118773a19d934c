use stregsystemet::parser::{
    parse_quickbuy_query, MultiBuyParseError, QuickBuyParseError, QuickBuyType,
};

#[test]
fn empty_query() {
    parse_and_expect_empty_query("");
}

#[test]
fn whitespace_query() {
    parse_and_expect_empty_query(" ");
}

#[test]
fn only_whitespace_runs_query() {
    parse_and_expect_empty_query("   ");
}

#[test]
fn username_query() {
    let expected_username: String = "test_user".into();
    let result = parse_quickbuy_query(&expected_username).unwrap();

    assert!(
        matches!(result, QuickBuyType::Username { username } if username == expected_username)
    );
}

#[test]
fn multibuy_query() {
    let result = parse_quickbuy_query("test_user kaffe øl:2 21:3").unwrap();

    match result {
        QuickBuyType::MultiBuy { username, products } => {
            assert_eq!(username, "test_user");

            let kaffe_product = &products[0];
            let oel_product = &products[1];
            let id_product = &products[2];

            assert_eq!(kaffe_product.product_name, "kaffe");
            assert_eq!(kaffe_product.amount, 1u32);

            assert_eq!(oel_product.product_name, "øl");
            assert_eq!(oel_product.amount, 2u32);

            assert_eq!(id_product.product_name, "21");
            assert_eq!(id_product.amount, 3u32);
        }
        _ => unreachable!(),
    }
}

#[test]
fn empty_product_multibuy_query() {
    let error = parse_quickbuy_query("test_user :2").unwrap_err();

    assert!(matches!(
        error,
        QuickBuyParseError::MultiBuy(MultiBuyParseError::EmptyProduct)
    ))
}

#[test]
fn missing_amount_multibuy_query() {
    parse_and_expect_invalid_amount_multibuy_query("test_user p:");
}

#[test]
fn zero_amount_multibuy_query() {
    parse_and_expect_invalid_amount_multibuy_query("test_user p:0");
}

#[test]
fn negative_amount_multibuy_query() {
    parse_and_expect_invalid_amount_multibuy_query("test_user p:-1");
}

#[test]
fn invalid_amount_multibuy_query() {
    parse_and_expect_invalid_amount_multibuy_query("test_user p:x");
}

#[test]
fn overflowing_amount_multibuy_query() {
    parse_and_expect_invalid_amount_multibuy_query("test_user p:4294967296");
}

#[test]
fn syntax_error_multibuy_query() {
    let error = parse_quickbuy_query("test_user p:1:2").unwrap_err();

    assert!(matches!(
        error,
        QuickBuyParseError::MultiBuy(MultiBuyParseError::Syntax)
    ))
}

#[test]
fn first_error_wins() {
    let error = parse_quickbuy_query("test_user :2 p:x").unwrap_err();

    assert!(matches!(
        error,
        QuickBuyParseError::MultiBuy(MultiBuyParseError::EmptyProduct)
    ))
}

#[test]
fn plus_amount_multibuy_query() {
    let result = parse_quickbuy_query("test_user p:+2").unwrap();

    match result {
        QuickBuyType::MultiBuy { products, .. } => {
            assert_eq!(products[0].amount, 2u32);
        }
        _ => unreachable!(),
    }
}

fn parse_and_expect_empty_query(query: &str) {
    let result = parse_quickbuy_query(query);
    assert!(result.is_err());
    let error = result.unwrap_err();

    assert!(matches!(error, QuickBuyParseError::EmptyQuery));
}

fn parse_and_expect_invalid_amount_multibuy_query(query: &str) {
    let error = parse_quickbuy_query(query).unwrap_err();

    assert!(matches!(
        error,
        QuickBuyParseError::MultiBuy(MultiBuyParseError::InvalidAmount)
    ))
}
