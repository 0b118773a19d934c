//! The purchase executor: resolves a parsed multi-buy intent against a
//! consistent snapshot of the store, checks funds, and appends the sale
//! rows atomically — either every requested unit is recorded, or the
//! snapshot is left untouched.

use vstd::prelude::*;

use crate::digits::{all_digits, dec_value};
use crate::buy_request::BoughtProduct;
use crate::parser::MultiBuyProduct;
use crate::streg_cents::{spec_checked_mul, spec_sum, StregCents};
use crate::product::ProductId;
use crate::user::UserId;
use crate::text::{lower_of, lowercase};

verus! {

/// A row of the users table.
#[derive(Debug, Clone)]
pub struct UserRecord {
    pub id: UserId,
    pub username: String,
}

/// A row of the products table.
#[derive(Debug, Clone)]
pub struct ProductRecord {
    pub id: ProductId,
    pub price: StregCents,
    pub active: bool,
    /// If set, the product stops being purchasable once this timestamp is
    /// no longer in the future.
    pub deactivate_after: Option<i64>,
}

/// A row of the product_aliases table. Aliases are stored normalized to
/// lowercase; a row whose name is not lowercase never matches a lookup.
#[derive(Debug, Clone)]
pub struct AliasRecord {
    pub alias_name: String,
    pub product_id: ProductId,
}

/// A row of the append-only deposits ledger.
#[derive(Debug, Clone)]
pub struct DepositRecord {
    pub user_id: UserId,
    pub amount: StregCents,
}

/// A row of the append-only sales ledger: one row per unit bought, carrying
/// the price at the time of sale.
#[derive(Debug, Clone, Copy, PartialEq, Eq, Structural)]
pub struct SaleRecord {
    pub user_id: UserId,
    pub product_id: ProductId,
    pub price: StregCents,
}

/// One consistent transaction snapshot of the store. The executor reads
/// everything from it and, on success, appends the new sale rows to it;
/// returning with the rows appended models the transaction's commit.
#[derive(Debug, Clone)]
pub struct Store {
    pub users: Vec<UserRecord>,
    pub products: Vec<ProductRecord>,
    pub aliases: Vec<AliasRecord>,
    pub deposits: Vec<DepositRecord>,
    pub sales: Vec<SaleRecord>,
    /// The snapshot's notion of "now", compared against deactivation
    /// timestamps.
    pub now: i64,
}

impl Store {
    /// What the store's schema guarantees: product ids are unique (the
    /// table's key), and the ledgers are small enough that their sums stay
    /// within the store's aggregate arithmetic.
    pub open spec fn wf(self) -> bool {
        &&& forall|i: int, j: int|
            0 <= i < j < self.products@.len() ==> (#[trigger] self.products@[i]).id != (
            #[trigger] self.products@[j]).id
        &&& self.deposits@.len() <= 0x1_0000_0000
        &&& self.sales@.len() <= 0x1_0000_0000
    }
}

/// How a multi-buy execution fails.
#[derive(Debug, Clone)]
pub enum MultiBuyExecutorError {
    /// The underlying storage failed (here: the balance aggregate cannot be
    /// represented); fatal, not a business error.
    DbError(String),
    /// No user matches the given username (case-insensitively).
    InvalidUsername(String),
    /// A product reference does not resolve to a purchasable product; the
    /// payload is the reference text as the buyer wrote it.
    InvalidProduct(String),
    /// The user's balance does not cover the price sum.
    InsufficientFunds { username: String, product_price_sum: StregCents },
    /// A price, the price sum, or the new balance overflows the currency's
    /// representable range.
    StregCentsOverflow,
}

/// The id of the first user at or after position `i` whose username equals
/// the query case-insensitively.
pub open spec fn user_id_from(users: Seq<UserRecord>, name: Seq<char>, i: int) -> Option<UserId>
    decreases users.len() - i,
{
    if i < 0 || i >= users.len() {
        None
    } else if lower_of(users[i].username@) == lower_of(name) {
        Some(users[i].id)
    } else {
        user_id_from(users, name, i + 1)
    }
}

/// The id the given username resolves to: the first user whose name
/// matches case-insensitively.
pub open spec fn user_id_for(users: Seq<UserRecord>, name: Seq<char>) -> Option<UserId> {
    user_id_from(users, name, 0)
}

/// The deposits credited to `uid` at or after position `i`, summed.
pub open spec fn deposit_sum_from(deposits: Seq<DepositRecord>, uid: UserId, i: int) -> int
    decreases deposits.len() - i,
{
    if i < 0 || i >= deposits.len() {
        0
    } else {
        (if deposits[i].user_id == uid {
            deposits[i].amount.0 as int
        } else {
            0
        }) + deposit_sum_from(deposits, uid, i + 1)
    }
}

/// The sales debited to `uid` at or after position `i`, summed.
pub open spec fn sales_sum_from(sales: Seq<SaleRecord>, uid: UserId, i: int) -> int
    decreases sales.len() - i,
{
    if i < 0 || i >= sales.len() {
        0
    } else {
        (if sales[i].user_id == uid {
            sales[i].price.0 as int
        } else {
            0
        }) + sales_sum_from(sales, uid, i + 1)
    }
}

/// The user's balance, derived from the ledger and never stored: the sum of
/// their deposits minus the sum of their sales.
pub open spec fn balance_of(store: Store, uid: UserId) -> int {
    deposit_sum_from(store.deposits@, uid, 0) - sales_sum_from(store.sales@, uid, 0)
}

/// Whether the derived balance is representable as a cent amount.
pub open spec fn balance_fits(store: Store, uid: UserId) -> bool {
    i64::MIN <= balance_of(store, uid) <= i64::MAX
}

/// A reference consisting of decimal digits denoting a value that fits a
/// product id is read as a literal product id; anything else is not numeric.
pub open spec fn numeric_product_id(name: Seq<char>) -> Option<ProductId> {
    if name.len() > 0 && all_digits(name) && dec_value(name) <= i32::MAX {
        Some(ProductId(dec_value(name) as i32))
    } else {
        None
    }
}

/// The product id of the first alias at or after position `i` whose stored
/// name equals the lowercased reference.
pub open spec fn alias_id_from(aliases: Seq<AliasRecord>, name: Seq<char>, i: int) -> Option<
    ProductId,
>
    decreases aliases.len() - i,
{
    if i < 0 || i >= aliases.len() {
        None
    } else if aliases[i].alias_name@ == lower_of(name) {
        Some(aliases[i].product_id)
    } else {
        alias_id_from(aliases, name, i + 1)
    }
}

/// What a product reference resolves to: numeric text is a literal id (with
/// no existence check at this stage); any other text is looked up as an
/// alias, case-insensitively.
pub open spec fn resolved_id(store: Store, name: Seq<char>) -> Option<ProductId> {
    match numeric_product_id(name) {
        Some(id) => Some(id),
        None => alias_id_from(store.aliases@, name, 0),
    }
}

/// Whether a product may be bought right now: it is active and not past its
/// deactivation timestamp.
pub open spec fn purchasable(p: ProductRecord, now: i64) -> bool {
    p.active && match p.deactivate_after {
        None => true,
        Some(t) => t > now,
    }
}

/// The price of the first purchasable product at or after position `i` with
/// the given id.
pub open spec fn price_from(products: Seq<ProductRecord>, id: ProductId, now: i64, i: int) -> Option<
    StregCents,
>
    decreases products.len() - i,
{
    if i < 0 || i >= products.len() {
        None
    } else if products[i].id == id && purchasable(products[i], now) {
        Some(products[i].price)
    } else {
        price_from(products, id, now, i + 1)
    }
}

/// The current price of the purchasable product with the given id, if any.
pub open spec fn price_for(store: Store, id: ProductId) -> Option<StregCents> {
    price_from(store.products@, id, store.now, 0)
}

/// Whether every requested reference resolves to some product id.
pub open spec fn all_resolved(store: Store, items: Seq<MultiBuyProduct>) -> bool {
    forall|i: int|
        0 <= i < items.len() ==> resolved_id(store, (#[trigger] items[i]).product_name@) is Some
}

/// The position of the first reference that does not resolve.
pub open spec fn first_unresolved(store: Store, items: Seq<MultiBuyProduct>) -> int
    decreases items.len(),
{
    if items.len() == 0 {
        0
    } else if resolved_id(store, items[0].product_name@) is None {
        0
    } else {
        1 + first_unresolved(store, items.skip(1))
    }
}

/// The resolved id of every requested reference, positionwise.
pub open spec fn ids_of(store: Store, items: Seq<MultiBuyProduct>) -> Seq<ProductId> {
    Seq::new(items.len(), |i: int| resolved_id(store, items[i].product_name@).unwrap())
}

/// Whether every resolved id names a purchasable product.
pub open spec fn all_priced(store: Store, items: Seq<MultiBuyProduct>) -> bool {
    forall|i: int| 0 <= i < items.len() ==> price_for(store, #[trigger] ids_of(store, items)[i]) is Some
}

/// The position of the first resolved id without a purchasable product.
pub open spec fn first_unpriced(store: Store, items: Seq<MultiBuyProduct>) -> int
    decreases items.len(),
{
    if items.len() == 0 {
        0
    } else if price_for(store, resolved_id(store, items[0].product_name@).unwrap()) is None {
        0
    } else {
        1 + first_unpriced(store, items.skip(1))
    }
}

/// The current price of every requested item, positionwise.
pub open spec fn prices_of(store: Store, items: Seq<MultiBuyProduct>) -> Seq<StregCents> {
    Seq::new(items.len(), |i: int| price_for(store, ids_of(store, items)[i]).unwrap())
}

/// Each item's cost: its price times its quantity, checked.
pub open spec fn costs_of(store: Store, items: Seq<MultiBuyProduct>) -> Seq<Option<StregCents>> {
    Seq::new(items.len(), |i: int| spec_checked_mul(prices_of(store, items)[i], items[i].amount))
}

/// The whole order's cost: the checked sum of the items' checked costs.
pub open spec fn total_cost(store: Store, items: Seq<MultiBuyProduct>) -> Option<StregCents> {
    spec_sum(costs_of(store, items))
}


/// Resolves a username to a user id by case-insensitive exact match, like
/// the first step of a purchase.
fn get_user_id_by_name(store: &Store, username: &str) -> (r: Option<UserId>)
    ensures
        r == user_id_for(store.users@, username@),
{
    let lowered = lowercase(username);
    let n = store.users.len();
    let mut i: usize = 0;
    while i < n
        invariant
            0 <= i <= n,
            n == store.users@.len(),
            lowered@ == lower_of(username@),
            user_id_for(store.users@, username@) == user_id_from(store.users@, username@, i as int),
        decreases n - i,
    {
        let candidate = lowercase(store.users[i].username.as_str());
        if candidate == lowered {
            return Some(store.users[i].id);
        }
        i = i + 1;
    }
    None
}

/// Checks that a username names some user, the lone-username quickbuy
/// variant: `Ok` exactly when a user matches case-insensitively, and
/// `InvalidUsername` carrying the queried name otherwise.
pub fn username_exists(username: &str, store: &Store) -> (r: Result<(), MultiBuyExecutorError>)
    ensures
        r is Ok <==> user_id_for(store.users@, username@) is Some,
        r is Err ==> (r matches Err(MultiBuyExecutorError::InvalidUsername(u)) && u@ == username@),
{
    match get_user_id_by_name(store, username) {
        Some(_) => Ok(()),
        None => Err(MultiBuyExecutorError::InvalidUsername(username.to_owned())),
    }
}

/// Computes the user's derived balance from the ledger, or `None` where the
/// aggregate does not fit the currency's range.
fn compute_balance(store: &Store, uid: UserId) -> (r: Option<StregCents>)
    requires
        store.wf(),
    ensures
        r == (if balance_fits(*store, uid) {
            Some(StregCents(balance_of(*store, uid) as i64))
        } else {
            None::<StregCents>
        }),
{
    let mut dsum: i128 = 0;
    let nd = store.deposits.len();
    let mut i: usize = 0;
    while i < nd
        invariant
            0 <= i <= nd,
            nd == store.deposits@.len(),
            nd <= 0x1_0000_0000,
            -(i as int) * 0x8000_0000_0000_0000 <= dsum <= (i as int) * 0x7fff_ffff_ffff_ffff,
            deposit_sum_from(store.deposits@, uid, 0) == dsum + deposit_sum_from(
                store.deposits@,
                uid,
                i as int,
            ),
        decreases nd - i,
    {
        if store.deposits[i].user_id == uid {
            dsum = dsum + store.deposits[i].amount.0 as i128;
        }
        i = i + 1;
    }
    let mut ssum: i128 = 0;
    let ns = store.sales.len();
    let mut j: usize = 0;
    while j < ns
        invariant
            0 <= j <= ns,
            ns == store.sales@.len(),
            ns <= 0x1_0000_0000,
            -(j as int) * 0x8000_0000_0000_0000 <= ssum <= (j as int) * 0x7fff_ffff_ffff_ffff,
            sales_sum_from(store.sales@, uid, 0) == ssum + sales_sum_from(
                store.sales@,
                uid,
                j as int,
            ),
        decreases ns - j,
    {
        if store.sales[j].user_id == uid {
            ssum = ssum + store.sales[j].price.0 as i128;
        }
        j = j + 1;
    }
    let balance: i128 = dsum - ssum;
    assert(balance == balance_of(*store, uid));
    if balance < i64::MIN as i128 || balance > i64::MAX as i128 {
        None
    } else {
        Some(StregCents(balance as i64))
    }
}


/// Resolves one product reference: numeric text is taken as a literal id,
/// anything else is looked up as an alias, case-insensitively.
fn resolve_product_id(store: &Store, name: &String) -> (r: Option<ProductId>)
    ensures
        r == resolved_id(*store, name@),
{
    let cs = crate::text::str_chars(name.as_str());
    match crate::digits::parse_dec_bounded(cs.as_slice(), 0x7fff_ffffu64) {
        Some(v) => {
            proof {
                crate::digits::lemma_dec_value_nonneg(cs@);
            }
            Some(ProductId(v as i32))
        }
        None => {
            let lowered = lowercase(name.as_str());
            let n = store.aliases.len();
            let mut i: usize = 0;
            while i < n
                invariant
                    0 <= i <= n,
                    n == store.aliases@.len(),
                    lowered@ == lower_of(name@),
                    resolved_id(*store, name@) == alias_id_from(store.aliases@, name@, 0),
                    alias_id_from(store.aliases@, name@, 0) == alias_id_from(
                        store.aliases@,
                        name@,
                        i as int,
                    ),
                decreases n - i,
            {
                if store.aliases[i].alias_name == lowered {
                    return Some(store.aliases[i].product_id);
                }
                i = i + 1;
            }
            None
        }
    }
}

/// Resolves every requested reference to a product id, left to right; the
/// first unresolvable reference fails the whole list with `InvalidProduct`
/// carrying that reference's text.
fn get_multi_buy_products_with_ids(store: &Store, items: &[MultiBuyProduct]) -> (r: Result<
    Vec<ProductId>,
    MultiBuyExecutorError,
>)
    ensures
        match r {
            Ok(ids) => all_resolved(*store, items@) && ids@ == ids_of(*store, items@),
            Err(e) => !all_resolved(*store, items@) && (e matches
                MultiBuyExecutorError::InvalidProduct(p) && p@ == items@[first_unresolved(
                *store,
                items@,
            )].product_name@),
        },
{
    let mut ids: Vec<ProductId> = Vec::new();
    let n = items.len();
    let mut i: usize = 0;
    while i < n
        invariant
            0 <= i <= n,
            n == items@.len(),
            ids@.len() == i,
            forall|k: int|
                0 <= k < i ==> resolved_id(*store, (#[trigger] items@[k]).product_name@) is Some,
            forall|k: int|
                0 <= k < i ==> ids@[k] == resolved_id(
                    *store,
                    (#[trigger] items@[k]).product_name@,
                ).unwrap(),
        decreases n - i,
    {
        match resolve_product_id(store, &items[i].product_name) {
            Some(id) => {
                ids.push(id);
            }
            None => {
                proof {
                    lemma_first_unresolved(*store, items@, i as int);
                }
                return Err(MultiBuyExecutorError::InvalidProduct(items[i].product_name.clone()));
            }
        }
        i = i + 1;
    }
    proof {
        assert(ids@ =~= ids_of(*store, items@));
    }
    Ok(ids)
}

/// Looks up the current price of every resolved item, left to right; an id
/// with no purchasable product fails the whole list with `InvalidProduct`
/// carrying the original reference text.
fn get_product_prices(store: &Store, items: &[MultiBuyProduct], ids: &Vec<ProductId>) -> (r: Result<
    Vec<StregCents>,
    MultiBuyExecutorError,
>)
    requires
        all_resolved(*store, items@),
        ids@ == ids_of(*store, items@),
    ensures
        match r {
            Ok(prices) => all_priced(*store, items@) && prices@ == prices_of(*store, items@),
            Err(e) => !all_priced(*store, items@) && (e matches
                MultiBuyExecutorError::InvalidProduct(p) && p@ == items@[first_unpriced(
                *store,
                items@,
            )].product_name@),
        },
{
    let mut prices: Vec<StregCents> = Vec::new();
    let n = items.len();
    let mut i: usize = 0;
    proof {
        assert(ids@.len() == items@.len());
    }
    while i < n
        invariant
            0 <= i <= n,
            n == items@.len(),
            all_resolved(*store, items@),
            ids@ == ids_of(*store, items@),
            ids@.len() == n,
            prices@.len() == i,
            forall|k: int| 0 <= k < i ==> price_for(*store, ids_of(*store, items@)[k]) is Some,
            forall|k: int|
                0 <= k < i ==> prices@[k] == price_for(*store, ids_of(*store, items@)[k]).unwrap(),
        decreases n - i,
    {
        match get_product_price_by_id(store, ids[i]) {
            Some(p) => {
                prices.push(p);
            }
            None => {
                proof {
                    lemma_first_unpriced(*store, items@, i as int);
                }
                return Err(MultiBuyExecutorError::InvalidProduct(items[i].product_name.clone()));
            }
        }
        i = i + 1;
    }
    proof {
        assert(prices@ =~= prices_of(*store, items@));
    }
    Ok(prices)
}

/// Looks up the price of the purchasable product with the given id, like the
/// store's filtered price query.
fn get_product_price_by_id(store: &Store, id: ProductId) -> (r: Option<StregCents>)
    ensures
        r == price_for(*store, id),
{
    let n = store.products.len();
    let mut i: usize = 0;
    while i < n
        invariant
            0 <= i <= n,
            n == store.products@.len(),
            price_from(store.products@, id, store.now, 0) == price_from(
                store.products@,
                id,
                store.now,
                i as int,
            ),
        decreases n - i,
    {
        let p = &store.products[i];
        let active_now = p.active && match p.deactivate_after {
            None => true,
            Some(t) => t > store.now,
        };
        if p.id == id && active_now {
            return Some(p.price);
        }
        i = i + 1;
    }
    None
}

/// If every reference before `i` resolves and the one at `i` does not, the
/// first unresolved position is `i`.
proof fn lemma_first_unresolved(store: Store, items: Seq<MultiBuyProduct>, i: int)
    requires
        0 <= i < items.len(),
        forall|k: int|
            0 <= k < i ==> resolved_id(store, (#[trigger] items[k]).product_name@) is Some,
        resolved_id(store, items[i].product_name@) is None,
    ensures
        first_unresolved(store, items) == i,
    decreases items.len(),
{
    if i > 0 {
        assert(forall|k: int|
            0 <= k < i - 1 ==> #[trigger] items.skip(1)[k] == items[k + 1]);
        lemma_first_unresolved(store, items.skip(1), i - 1);
    } else {
    }
}

proof fn lemma_first_unpriced(store: Store, items: Seq<MultiBuyProduct>, i: int)
    requires
        0 <= i < items.len(),
        all_resolved(store, items),
        forall|k: int| 0 <= k < i ==> price_for(store, #[trigger] ids_of(store, items)[k]) is Some,
        price_for(store, ids_of(store, items)[i]) is None,
    ensures
        first_unpriced(store, items) == i,
    decreases items.len(),
{
    assert(ids_of(store, items)[i] == resolved_id(store, items[i].product_name@).unwrap());
    if i > 0 {
        let rest = items.skip(1);
        assert(forall|k: int| 0 <= k < rest.len() ==> #[trigger] rest[k] == items[k + 1]);
        assert(all_resolved(store, rest)) by {
            assert(forall|k: int|
                0 <= k < rest.len() ==> resolved_id(
                    store,
                    (#[trigger] rest[k]).product_name@,
                ) is Some);
        }
        assert(forall|k: int|
            0 <= k < rest.len() ==> #[trigger] ids_of(store, rest)[k] == ids_of(store, items)[k
                + 1]);
        assert(forall|k: int|
            0 <= k < i - 1 ==> price_for(store, #[trigger] ids_of(store, rest)[k]) is Some);
        assert(price_for(store, ids_of(store, rest)[i - 1]) is None);
        lemma_first_unpriced(store, rest, i - 1);
        assert(ids_of(store, items)[0] == resolved_id(store, items[0].product_name@).unwrap());
        assert(price_for(store, resolved_id(store, items[0].product_name@).unwrap()) is Some);
    } else {
    }
}


/// `n` sale rows for one unit each of the same product at the same price.
pub open spec fn unit_rows(uid: UserId, id: ProductId, price: StregCents, n: nat) -> Seq<
    SaleRecord,
> {
    Seq::new(n, |k: int| SaleRecord { user_id: uid, product_id: id, price })
}

/// The sale rows written for the first `i` items: for each item in order,
/// one row per requested unit, carrying the item's resolved id and price.
pub open spec fn sale_rows_upto(
    uid: UserId,
    items: Seq<MultiBuyProduct>,
    ids: Seq<ProductId>,
    prices: Seq<StregCents>,
    i: int,
) -> Seq<SaleRecord>
    decreases i,
{
    if i <= 0 {
        Seq::empty()
    } else {
        sale_rows_upto(uid, items, ids, prices, i - 1) + unit_rows(
            uid,
            ids[i - 1],
            prices[i - 1],
            items[i - 1].amount as nat,
        )
    }
}

/// The units of the product `id` requested by the first `i` items, summed.
pub open spec fn amount_upto(
    items: Seq<MultiBuyProduct>,
    ids: Seq<ProductId>,
    id: ProductId,
    i: int,
) -> int
    decreases i,
{
    if i <= 0 {
        0
    } else {
        amount_upto(items, ids, id, i - 1) + (if ids[i - 1] == id {
            items[i - 1].amount as int
        } else {
            0
        })
    }
}

proof fn lemma_amount_upto_bound(
    items: Seq<MultiBuyProduct>,
    ids: Seq<ProductId>,
    id: ProductId,
    i: int,
)
    ensures
        0 <= amount_upto(items, ids, id, i) <= (if i >= 0 {
            i
        } else {
            0
        }) * 0xffff_ffff,
    decreases i,
{
    if i > 0 {
        lemma_amount_upto_bound(items, ids, id, i - 1);
    }
}

proof fn lemma_amount_upto_absent(
    items: Seq<MultiBuyProduct>,
    ids: Seq<ProductId>,
    id: ProductId,
    i: int,
)
    requires
        forall|k: int| 0 <= k < i ==> ids[k] != id,
    ensures
        amount_upto(items, ids, id, i) == 0,
    decreases i,
{
    if i > 0 {
        lemma_amount_upto_absent(items, ids, id, i - 1);
    }
}

/// Whether `bought` summarizes the purchase correctly: one entry per
/// distinct requested product, each carrying the total units requested of
/// it, and nothing else.
pub open spec fn bought_matches(
    items: Seq<MultiBuyProduct>,
    ids: Seq<ProductId>,
    bought: Seq<BoughtProduct>,
) -> bool {
    &&& forall|j1: int, j2: int|
        0 <= j1 < j2 < bought.len() ==> (#[trigger] bought[j1]).product_id != (
        #[trigger] bought[j2]).product_id
    &&& forall|j: int|
        0 <= j < bought.len() ==> exists|k: int|
            0 <= k < ids.len() && #[trigger] ids[k] == (#[trigger] bought[j]).product_id
    &&& forall|j: int|
        0 <= j < bought.len() ==> (#[trigger] bought[j]).amount == amount_upto(
            items,
            ids,
            bought[j].product_id,
            items.len() as int,
        )
    &&& forall|k: int|
        0 <= k < ids.len() ==> exists|j: int|
            0 <= j < bought.len() && (#[trigger] bought[j]).product_id == #[trigger] ids[k]
}

/// The position of the entry for `pid`, if one exists.
fn find_bought(bought: &Vec<BoughtProduct>, pid: ProductId) -> (r: Option<usize>)
    ensures
        match r {
            Some(j) => j < bought@.len() && bought@[j as int].product_id == pid,
            None => forall|j: int| 0 <= j < bought@.len() ==> (#[trigger] bought@[j]).product_id != pid,
        },
{
    let mut j: usize = 0;
    while j < bought.len()
        invariant
            0 <= j <= bought@.len(),
            forall|k: int| 0 <= k < j ==> (#[trigger] bought@[k]).product_id != pid,
        decreases bought@.len() - j,
    {
        if bought[j].product_id == pid {
            return Some(j);
        }
        j = j + 1;
    }
    None
}

/// Appends one sale row per requested unit of every item, and returns the
/// per-product purchase summary. This is the only write the executor makes.
#[verifier::rlimit(100)]
fn purchase_products(
    store: &mut Store,
    user_id: UserId,
    items: &[MultiBuyProduct],
    ids: &Vec<ProductId>,
    prices: &Vec<StregCents>,
) -> (bought: Vec<BoughtProduct>)
    requires
        ids@.len() == items@.len(),
        prices@.len() == items@.len(),
        items@.len() <= 0x8000_0000,
    ensures
        final(store).sales@ == old(store).sales@ + sale_rows_upto(
            user_id,
            items@,
            ids@,
            prices@,
            items@.len() as int,
        ),
        final(store).users == old(store).users,
        final(store).products == old(store).products,
        final(store).aliases == old(store).aliases,
        final(store).deposits == old(store).deposits,
        final(store).now == old(store).now,
        bought_matches(items@, ids@, bought@),
{
    let ghost s0 = *old(store);
    let mut bought: Vec<BoughtProduct> = Vec::new();
    let n = items.len();
    let mut i: usize = 0;
    proof {
        assert(store.sales@ =~= s0.sales@ + sale_rows_upto(user_id, items@, ids@, prices@, 0));
    }
    while i < n
        invariant
            0 <= i <= n,
            n == items@.len(),
            n <= 0x8000_0000,
            ids@.len() == n,
            prices@.len() == n,
            store.users == s0.users,
            store.products == s0.products,
            store.aliases == s0.aliases,
            store.deposits == s0.deposits,
            store.now == s0.now,
            store.sales@ == s0.sales@ + sale_rows_upto(user_id, items@, ids@, prices@, i as int),
            forall|j1: int, j2: int|
                0 <= j1 < j2 < bought@.len() ==> (#[trigger] bought@[j1]).product_id != (
                #[trigger] bought@[j2]).product_id,
            forall|j: int|
                0 <= j < bought@.len() ==> exists|k: int|
                    0 <= k < i && #[trigger] ids@[k] == (#[trigger] bought@[j]).product_id,
            forall|j: int|
                0 <= j < bought@.len() ==> (#[trigger] bought@[j]).amount == amount_upto(
                    items@,
                    ids@,
                    bought@[j].product_id,
                    i as int,
                ),
            forall|k: int|
                0 <= k < i ==> exists|j: int|
                    0 <= j < bought@.len() && (#[trigger] bought@[j]).product_id == #[trigger] ids@[k],
        decreases n - i,
    {
        let pid = ids[i];
        let price = prices[i];
        let amount = items[i].amount;
        let ghost rows0 = store.sales@;
        let mut u: u32 = 0;
        while u < amount
            invariant
                0 <= u <= amount,
                i < n,
                n == items@.len(),
                ids@.len() == n,
                prices@.len() == n,
                pid == ids@[i as int],
                price == prices@[i as int],
                amount == items@[i as int].amount,
                store.users == s0.users,
                store.products == s0.products,
                store.aliases == s0.aliases,
                store.deposits == s0.deposits,
                store.now == s0.now,
                store.sales@ == rows0 + unit_rows(user_id, pid, price, u as nat),
            decreases amount - u,
        {
            store.sales.push(SaleRecord { user_id, product_id: pid, price });
            proof {
                assert(rows0 + unit_rows(user_id, pid, price, (u + 1) as nat) =~= (rows0
                    + unit_rows(user_id, pid, price, u as nat)).push(
                    SaleRecord { user_id, product_id: pid, price },
                ));
            }
            u = u + 1;
        }
        proof {
            assert(store.sales@ =~= s0.sales@ + sale_rows_upto(
                user_id,
                items@,
                ids@,
                prices@,
                i as int + 1,
            ));
        }
        let ghost bought0 = bought@;
        match find_bought(&bought, pid) {
            Some(j) => {
                proof {
                    lemma_amount_upto_bound(items@, ids@, pid, i as int);
                }
                let entry_amount = bought[j].amount;
                bought[j].amount = entry_amount + amount as i64;
                proof {
                    assert(bought@.len() == bought0.len());
                    assert(forall|j2: int|
                        0 <= j2 < bought@.len() && j2 != j ==> bought@[j2] == bought0[j2]);
                    assert(bought@[j as int].product_id == pid);
                    assert(exists|j2: int|
                        0 <= j2 < bought@.len() && (#[trigger] bought@[j2]).product_id == pid);
                }
            }
            None => {
                proof {
                    if exists|k: int| 0 <= k < i && #[trigger] ids@[k] == pid {
                        let k = choose|k: int| 0 <= k < i && #[trigger] ids@[k] == pid;
                        assert(exists|j: int|
                            0 <= j < bought0.len() && (#[trigger] bought0[j]).product_id
                                == ids@[k]);
                        assert(false);
                    }
                    lemma_amount_upto_absent(items@, ids@, pid, i as int);
                }
                bought.push(BoughtProduct { product_id: pid, amount: amount as i64 });
                proof {
                    assert(bought@.len() == bought0.len() + 1);
                    assert(forall|j2: int|
                        0 <= j2 < bought0.len() ==> bought@[j2] == bought0[j2]);
                    assert(bought@[bought0.len() as int].product_id == pid);
                    assert(exists|j2: int|
                        0 <= j2 < bought@.len() && (#[trigger] bought@[j2]).product_id == pid);
                }
            }
        }
        proof {
            assert forall|k: int| 0 <= k < i + 1 implies exists|j: int|
                0 <= j < bought@.len() && (#[trigger] bought@[j]).product_id == #[trigger] ids@[k] by {
                if k < i {
                    let j0 = choose|j: int|
                        0 <= j < bought0.len() && (#[trigger] bought0[j]).product_id == ids@[k];
                    assert(bought@[j0].product_id == bought0[j0].product_id);
                } else {
                    assert(ids@[k] == pid);
                }
            }
        }
        proof {
            assert(forall|id: ProductId|
                id != pid ==> amount_upto(items@, ids@, id, i as int + 1) == amount_upto(
                    items@,
                    ids@,
                    id,
                    i as int,
                ));
            assert(amount_upto(items@, ids@, pid, i as int + 1) == amount_upto(
                items@,
                ids@,
                pid,
                i as int,
            ) + amount as int);
        }
        i = i + 1;
    }
    proof {
        assert(store.sales@ =~= s0.sales@ + sale_rows_upto(
            user_id,
            items@,
            ids@,
            prices@,
            items@.len() as int,
        ));
    }
    bought
}

/// What executing a multi-buy means: how the result `r` and the snapshot
/// after the call (`s1`) relate to the snapshot before it (`s0`), the
/// queried username `q` and the requested items. Exactly one arm can hold
/// for given inputs, so this pins the executor's behavior completely.
pub open spec fn multi_buy_post(
    s0: Store,
    q: Seq<char>,
    items: Seq<MultiBuyProduct>,
    s1: Store,
    r: Result<(Vec<BoughtProduct>, StregCents, StregCents), MultiBuyExecutorError>,
) -> bool {
    let uid = user_id_for(s0.users@, q).unwrap();
    let bal = balance_of(s0, uid);
    match r {
        Err(MultiBuyExecutorError::InvalidUsername(u)) => user_id_for(s0.users@, q) is None && u@
            == q && s1 == s0,
        Err(MultiBuyExecutorError::DbError(_)) => user_id_for(s0.users@, q) is Some
            && !balance_fits(s0, uid) && s1 == s0,
        Err(MultiBuyExecutorError::InvalidProduct(p)) => user_id_for(s0.users@, q) is Some
            && balance_fits(s0, uid) && (if !all_resolved(s0, items) {
            p@ == items[first_unresolved(s0, items)].product_name@
        } else {
            !all_priced(s0, items) && p@ == items[first_unpriced(s0, items)].product_name@
        }) && s1 == s0,
        Err(MultiBuyExecutorError::StregCentsOverflow) => user_id_for(s0.users@, q) is Some
            && balance_fits(s0, uid) && all_resolved(s0, items) && all_priced(s0, items) && (
        match total_cost(s0, items) {
            None => true,
            Some(t) => bal >= t.0 && bal - t.0 > i64::MAX,
        }) && s1 == s0,
        Err(MultiBuyExecutorError::InsufficientFunds { username: u, product_price_sum: t }) => {
            &&& user_id_for(s0.users@, q) is Some
            &&& balance_fits(s0, uid)
            &&& all_resolved(s0, items)
            &&& all_priced(s0, items)
            &&& total_cost(s0, items) == Some(t)
            &&& bal < t.0
            &&& u@ == q
            &&& s1 == s0
        },
        Ok((bought, t, nb)) => {
            &&& user_id_for(s0.users@, q) is Some
            &&& balance_fits(s0, uid)
            &&& all_resolved(s0, items)
            &&& all_priced(s0, items)
            &&& total_cost(s0, items) == Some(t)
            &&& bal >= t.0
            &&& bal - t.0 <= i64::MAX
            &&& nb.0 == bal - t.0
            &&& s1.sales@ == s0.sales@ + sale_rows_upto(
                uid,
                items,
                ids_of(s0, items),
                prices_of(s0, items),
                items.len() as int,
            )
            &&& s1.users == s0.users
            &&& s1.products == s0.products
            &&& s1.aliases == s0.aliases
            &&& s1.deposits == s0.deposits
            &&& s1.now == s0.now
            &&& bought_matches(items, ids_of(s0, items), bought@)
        },
    }
}

/// Executes a parsed multi-buy intent against the snapshot: resolves the
/// username and every product reference, derives the balance, checks that
/// it covers the checked price sum, and only then appends one sale row per
/// unit; any failure leaves the snapshot untouched. Returns the purchase
/// summary, the sum charged, and the new balance. [`multi_buy_post`] spells
/// the contract out.
pub fn execute_multi_buy_query(
    username: &str,
    multi_buy_products: &[MultiBuyProduct],
    store: &mut Store,
) -> (r: Result<(Vec<BoughtProduct>, StregCents, StregCents), MultiBuyExecutorError>)
    requires
        old(store).wf(),
        multi_buy_products@.len() <= 0x8000_0000,
    ensures
        multi_buy_post(*old(store), username@, multi_buy_products@, *final(store), r),
{
    let ghost s0 = *store;
    let user_id = match get_user_id_by_name(store, username) {
        Some(uid) => uid,
        None => {
            return Err(MultiBuyExecutorError::InvalidUsername(username.to_owned()));
        }
    };
    let user_balance = match compute_balance(store, user_id) {
        Some(b) => b,
        None => {
            return Err(MultiBuyExecutorError::DbError("user balance is out of range".to_owned()));
        }
    };
    let ids = match get_multi_buy_products_with_ids(store, multi_buy_products) {
        Ok(ids) => ids,
        Err(e) => {
            return Err(e);
        }
    };
    let prices = match get_product_prices(store, multi_buy_products, &ids) {
        Ok(prices) => prices,
        Err(e) => {
            return Err(e);
        }
    };
    let n = multi_buy_products.len();
    let mut costs: Vec<Option<StregCents>> = Vec::new();
    let mut i: usize = 0;
    while i < n
        invariant
            0 <= i <= n,
            n == multi_buy_products@.len(),
            prices@ == prices_of(s0, multi_buy_products@),
            prices@.len() == n,
            s0 == *store,
            costs@.len() == i,
            forall|k: int| 0 <= k < i ==> costs@[k] == costs_of(s0, multi_buy_products@)[k],
        decreases n - i,
    {
        costs.push(prices[i].checked_mul(multi_buy_products[i].amount));
        i = i + 1;
    }
    proof {
        assert(costs@ =~= costs_of(s0, multi_buy_products@));
    }
    let product_price_sum = match crate::streg_cents::stregcents_sum(costs.as_slice()) {
        Some(t) => t,
        None => {
            return Err(MultiBuyExecutorError::StregCentsOverflow);
        }
    };
    if user_balance.0 < product_price_sum.0 {
        return Err(MultiBuyExecutorError::InsufficientFunds {
            username: username.to_owned(),
            product_price_sum,
        });
    }
    let new_user_balance = match user_balance.checked_sub(product_price_sum) {
        Some(b) => b,
        None => {
            return Err(MultiBuyExecutorError::StregCentsOverflow);
        }
    };
    let bought_products = purchase_products(store, user_id, multi_buy_products, &ids, &prices);
    Ok((bought_products, product_price_sum, new_user_balance))
}


/// Username matching is case-insensitive: two queries with the same
/// lowercase form resolve to the same user, from any scan position.
proof fn lemma_user_id_from_case_insensitive(
    users: Seq<UserRecord>,
    a: Seq<char>,
    b: Seq<char>,
    i: int,
)
    requires
        lower_of(a) == lower_of(b),
    ensures
        user_id_from(users, a, i) == user_id_from(users, b, i),
    decreases users.len() - i,
{
    if 0 <= i && i < users.len() {
        lemma_user_id_from_case_insensitive(users, a, b, i + 1);
    }
}

/// Username matching is case-insensitive: two usernames with the same
/// lowercase form resolve to the same user.
pub proof fn lemma_username_case_insensitive(users: Seq<UserRecord>, a: Seq<char>, b: Seq<char>)
    requires
        lower_of(a) == lower_of(b),
    ensures
        user_id_for(users, a) == user_id_for(users, b),
{
    lemma_user_id_from_case_insensitive(users, a, b, 0);
}

proof fn lemma_alias_id_from_case_insensitive(
    aliases: Seq<AliasRecord>,
    a: Seq<char>,
    b: Seq<char>,
    i: int,
)
    requires
        lower_of(a) == lower_of(b),
    ensures
        alias_id_from(aliases, a, i) == alias_id_from(aliases, b, i),
    decreases aliases.len() - i,
{
    if 0 <= i && i < aliases.len() {
        lemma_alias_id_from_case_insensitive(aliases, a, b, i + 1);
    }
}

/// Buying by alias is case-insensitive: two non-numeric references with the
/// same lowercase form resolve to the same product.
pub proof fn lemma_alias_case_insensitive(store: Store, a: Seq<char>, b: Seq<char>)
    requires
        lower_of(a) == lower_of(b),
        numeric_product_id(a) is None,
        numeric_product_id(b) is None,
    ensures
        resolved_id(store, a) == resolved_id(store, b),
{
    lemma_alias_id_from_case_insensitive(store.aliases@, a, b, 0);
}



/// A purchase never goes through without sufficient funds: when the user
/// and every product resolve but the balance does not cover the price sum,
/// the executor reports `InsufficientFunds` with that sum, and the snapshot
/// is untouched.
pub proof fn lemma_insufficient_funds_rejected(
    s0: Store,
    q: Seq<char>,
    items: Seq<MultiBuyProduct>,
    s1: Store,
    r: Result<(Vec<BoughtProduct>, StregCents, StregCents), MultiBuyExecutorError>,
)
    requires
        multi_buy_post(s0, q, items, s1, r),
        user_id_for(s0.users@, q) is Some,
        balance_fits(s0, user_id_for(s0.users@, q).unwrap()),
        all_resolved(s0, items),
        all_priced(s0, items),
        total_cost(s0, items) is Some,
        balance_of(s0, user_id_for(s0.users@, q).unwrap()) < total_cost(s0, items).unwrap().0,
    ensures
        r matches Err(MultiBuyExecutorError::InsufficientFunds { username: u, product_price_sum: t })
            && u@ == q && t == total_cost(s0, items).unwrap(),
        s1 == s0,
{
}

/// A monetary overflow aborts the purchase before any write: when the price
/// sum is not representable, the executor reports `StregCentsOverflow` and
/// the snapshot is untouched.
pub proof fn lemma_overflow_aborts(
    s0: Store,
    q: Seq<char>,
    items: Seq<MultiBuyProduct>,
    s1: Store,
    r: Result<(Vec<BoughtProduct>, StregCents, StregCents), MultiBuyExecutorError>,
)
    requires
        multi_buy_post(s0, q, items, s1, r),
        user_id_for(s0.users@, q) is Some,
        balance_fits(s0, user_id_for(s0.users@, q).unwrap()),
        all_resolved(s0, items),
        all_priced(s0, items),
        total_cost(s0, items) is None,
    ensures
        r matches Err(MultiBuyExecutorError::StregCentsOverflow),
        s1 == s0,
{
}

/// No partial purchase is observable: any failure whatsoever leaves the
/// snapshot exactly as it was.
pub proof fn lemma_failure_leaves_store_unchanged(
    s0: Store,
    q: Seq<char>,
    items: Seq<MultiBuyProduct>,
    s1: Store,
    r: Result<(Vec<BoughtProduct>, StregCents, StregCents), MultiBuyExecutorError>,
)
    requires
        multi_buy_post(s0, q, items, s1, r),
        r is Err,
    ensures
        s1 == s0,
{
}

} // verus!
