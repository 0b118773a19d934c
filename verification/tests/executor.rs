use stregsystemet::executor::{
    execute_multi_buy_query, username_exists, AliasRecord, DepositRecord, MultiBuyExecutorError,
    ProductRecord, Store, UserRecord,
};
use stregsystemet::parser::MultiBuyProduct;
use stregsystemet::product::ProductId;
use stregsystemet::streg_cents::StregCents;
use stregsystemet::user::UserId;

fn fixture_store() -> Store {
    Store {
        users: vec![UserRecord { id: UserId(1), username: "test_user".to_string() }],
        products: vec![
            // Purchasable: active, never deactivated.
            ProductRecord {
                id: ProductId(1),
                price: StregCents(200),
                active: true,
                deactivate_after: None,
            },
            // Inactive.
            ProductRecord {
                id: ProductId(2),
                price: StregCents(100),
                active: false,
                deactivate_after: None,
            },
            // Deactivated by a timestamp in the past.
            ProductRecord {
                id: ProductId(3),
                price: StregCents(100),
                active: true,
                deactivate_after: Some(500),
            },
            // Far too expensive for the fixture deposit.
            ProductRecord {
                id: ProductId(4),
                price: StregCents(100_000),
                active: true,
                deactivate_after: None,
            },
            // Priced so that any large quantity overflows.
            ProductRecord {
                id: ProductId(5),
                price: StregCents(i64::MAX / 2),
                active: true,
                deactivate_after: None,
            },
        ],
        aliases: vec![
            AliasRecord { alias_name: "enabled".to_string(), product_id: ProductId(1) },
            AliasRecord { alias_name: "inactive".to_string(), product_id: ProductId(2) },
            AliasRecord {
                alias_name: "inactive_timestamp".to_string(),
                product_id: ProductId(3),
            },
            AliasRecord { alias_name: "expensive".to_string(), product_id: ProductId(4) },
            AliasRecord { alias_name: "overflow".to_string(), product_id: ProductId(5) },
        ],
        deposits: vec![DepositRecord { user_id: UserId(1), amount: StregCents(1000) }],
        sales: vec![],
        now: 1000,
    }
}

fn one(name: &str) -> MultiBuyProduct {
    MultiBuyProduct { product_name: name.to_string(), amount: 1 }
}

#[test]
fn multi_buy_buy_product_by_id() {
    let mut store = fixture_store();
    let product = one("1");

    execute_multi_buy_query("test_user", &[product], &mut store).unwrap();
}

#[test]
fn multi_buy_buy_product_by_alias() {
    let mut store = fixture_store();
    let product = one("enabled");

    execute_multi_buy_query("test_user", &[product], &mut store).unwrap();
}

#[test]
fn multi_buy_buy_product_by_alias_case_insensitive() {
    let mut store = fixture_store();
    let product = one("eNaBlEd");

    execute_multi_buy_query("test_user", &[product], &mut store).unwrap();
}

#[test]
fn multi_buy_case_insensitive_username() {
    let mut store = fixture_store();
    let product = one("enabled");

    execute_multi_buy_query("TeSt_UsEr", &[product], &mut store).unwrap();
}

#[test]
fn multi_buy_invalid_username() {
    let mut store = Store {
        users: vec![],
        products: vec![],
        aliases: vec![],
        deposits: vec![],
        sales: vec![],
        now: 0,
    };
    let result = execute_multi_buy_query("i_do_not_exist", &[], &mut store);

    assert!(
        matches!(result, Err(MultiBuyExecutorError::InvalidUsername(username)) if username == "i_do_not_exist")
    );
}

#[test]
fn multi_buy_invalid_product_unknown() {
    let mut store = fixture_store();
    let product = one("1337");
    let result = execute_multi_buy_query("test_user", &[product], &mut store);

    assert!(
        matches!(result, Err(MultiBuyExecutorError::InvalidProduct(product_name)) if product_name == "1337")
    );
}

#[test]
fn multi_buy_invalid_product_inactive() {
    let mut store = fixture_store();
    let product = one("inactive");
    let result = execute_multi_buy_query("test_user", &[product], &mut store);

    assert!(
        matches!(result, Err(MultiBuyExecutorError::InvalidProduct(product_name)) if product_name == "inactive")
    );
}

#[test]
fn multi_buy_invalid_product_deactivated_by_timestamp() {
    let mut store = fixture_store();
    let product = one("inactive_timestamp");
    let result = execute_multi_buy_query("test_user", &[product], &mut store);

    assert!(
        matches!(result, Err(MultiBuyExecutorError::InvalidProduct(product_name)) if product_name == "inactive_timestamp")
    );
}

#[test]
fn multi_buy_insufficient_funds_no_money() {
    let mut store = fixture_store();
    store.deposits.clear();
    let product = one("enabled");
    let result = execute_multi_buy_query("test_user", &[product], &mut store);

    assert!(matches!(
        result,
        Err(MultiBuyExecutorError::InsufficientFunds { .. })
    ));
    assert_eq!(store.sales.len(), 0);
}

#[test]
fn multi_buy_insufficient_funds_too_expensive() {
    let mut store = fixture_store();
    let product = one("expensive");
    let result = execute_multi_buy_query("test_user", &[product], &mut store);

    assert!(matches!(
        result,
        Err(MultiBuyExecutorError::InsufficientFunds { .. })
    ));
    assert_eq!(store.sales.len(), 0);
}

#[test]
fn multi_buy_streg_cents_overflow() {
    let mut store = fixture_store();
    let product = MultiBuyProduct { product_name: "overflow".to_string(), amount: u32::MAX };
    let result = execute_multi_buy_query("test_user", &[product], &mut store);

    assert!(matches!(
        result,
        Err(MultiBuyExecutorError::StregCentsOverflow)
    ));
    assert_eq!(store.sales.len(), 0);
}

#[test]
fn multi_buy_charges_and_writes_one_row_per_unit() {
    let mut store = fixture_store();
    let product = MultiBuyProduct { product_name: "enabled".to_string(), amount: 3 };

    let (bought, charged, new_balance) =
        execute_multi_buy_query("test_user", &[product], &mut store).unwrap();

    assert_eq!(charged, StregCents(600));
    assert_eq!(new_balance, StregCents(400));
    assert_eq!(store.sales.len(), 3);
    for sale in &store.sales {
        assert_eq!(sale.user_id, UserId(1));
        assert_eq!(sale.product_id, ProductId(1));
        assert_eq!(sale.price, StregCents(200));
    }
    assert_eq!(bought.len(), 1);
    assert_eq!(bought[0].product_id, ProductId(1));
    assert_eq!(bought[0].amount, 3);
}

#[test]
fn multi_buy_aggregates_repeated_products() {
    let mut store = fixture_store();
    let items = [
        MultiBuyProduct { product_name: "enabled".to_string(), amount: 1 },
        MultiBuyProduct { product_name: "1".to_string(), amount: 2 },
    ];

    let (bought, charged, new_balance) =
        execute_multi_buy_query("test_user", &items, &mut store).unwrap();

    assert_eq!(charged, StregCents(600));
    assert_eq!(new_balance, StregCents(400));
    assert_eq!(store.sales.len(), 3);
    assert_eq!(bought.len(), 1);
    assert_eq!(bought[0].product_id, ProductId(1));
    assert_eq!(bought[0].amount, 3);
}

#[test]
fn multi_buy_balance_counts_past_sales() {
    let mut store = fixture_store();
    // Spend 600 of the 1000-cent deposit, then 200 more, then fail.
    let product = MultiBuyProduct { product_name: "enabled".to_string(), amount: 3 };
    execute_multi_buy_query("test_user", &[product], &mut store).unwrap();

    let (_, _, balance_after_fourth) =
        execute_multi_buy_query("test_user", &[one("enabled")], &mut store).unwrap();
    assert_eq!(balance_after_fourth, StregCents(200));

    let result = execute_multi_buy_query("test_user", &[one("expensive")], &mut store);
    assert!(matches!(
        result,
        Err(MultiBuyExecutorError::InsufficientFunds { .. })
    ));
    assert_eq!(store.sales.len(), 4);
}

#[test]
fn username_exists_finds_user_case_insensitively() {
    let store = fixture_store();
    assert!(username_exists("test_user", &store).is_ok());
    assert!(username_exists("TEST_USER", &store).is_ok());

    let result = username_exists("nobody", &store);
    assert!(
        matches!(result, Err(MultiBuyExecutorError::InvalidUsername(u)) if u == "nobody")
    );
}

#[test]
fn multi_buy_db_error_when_balance_is_not_representable() {
    let mut store = fixture_store();
    store.deposits = vec![
        DepositRecord { user_id: UserId(1), amount: StregCents(i64::MAX) },
        DepositRecord { user_id: UserId(1), amount: StregCents(i64::MAX) },
    ];
    let result = execute_multi_buy_query("test_user", &[one("enabled")], &mut store);

    assert!(matches!(result, Err(MultiBuyExecutorError::DbError(_))));
    assert_eq!(store.sales.len(), 0);
}
