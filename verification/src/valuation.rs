//! The value of a margin account in the quote token.

use vstd::prelude::*;

use crate::error::{check_assert, or_abort, or_refuse, present, refused, unmet};
use crate::error::{Check, Failure};
use crate::fixed_point::{product, quotient, sum, whole, U64F64};
use crate::state::{AccountInfo, MangoGroup, MarginAccount, OpenOrders, Pubkey};
use crate::state::{NUM_MARKETS, NUM_TOKENS, OPEN_ORDERS_FLAGS};

verus! {

/// What checking an open orders account gives: it can be read, and either it is
/// unused, or it is in use and its orders are owned by the expected key.
pub open spec fn open_orders_checked(acc: AccountInfo, owner: Pubkey) -> Result<(), Failure> {
    match refused(acc.open_orders) {
        Err(e) => Err(e),
        Ok(orders) => if orders.account_flags == 0 {
            Ok(())
        } else if orders.account_flags != OPEN_ORDERS_FLAGS {
            Err(unmet(Check::OpenOrdersFlags))
        } else if orders.owner != owner {
            Err(unmet(Check::OpenOrdersOwner))
        } else {
            Ok(())
        },
    }
}

/// Checks an open orders account.
pub fn check_open_orders(acc: &AccountInfo, owner: &Pubkey) -> (r: Result<(), Failure>)
    ensures
        r == open_orders_checked(*acc, *owner),
{
    let orders = or_refuse(acc.open_orders)?;
    if orders.account_flags == 0 {
        return Ok(());
    }
    check_assert(orders.account_flags == OPEN_ORDERS_FLAGS, Check::OpenOrdersFlags)?;
    check_assert(orders.owner == *owner, Check::OpenOrdersOwner)
}

/// The value of the funds in the orders on one market: base funds at their price,
/// and quote funds.
pub open spec fn orders_value(orders: OpenOrders, price: U64F64) -> Result<U64F64, Failure> {
    match product(whole(orders.native_coin_total), price) {
        None => Err(Failure::Aborted),
        Some(base) => present(sum(base, whole(orders.native_pc_total))),
    }
}

fn to_orders_value(orders: &OpenOrders, price: U64F64) -> (r: Result<U64F64, Failure>)
    ensures
        r == orders_value(*orders, price),
{
    let base = or_abort(U64F64::from_num(orders.native_coin_total).checked_mul(price))?;
    or_abort(base.checked_add(U64F64::from_num(orders.native_pc_total)))
}

/// The value of the funds in the orders on the first `n` markets.
pub open spec fn all_orders_value(
    open_orders: Seq<AccountInfo>,
    prices: Seq<U64F64>,
    n: nat,
) -> Result<U64F64, Failure>
    decreases n,
{
    if n == 0 {
        Ok(whole(0))
    } else {
        match all_orders_value(open_orders, prices, (n - 1) as nat) {
            Err(e) => Err(e),
            Ok(before) => match refused(open_orders[n - 1].open_orders) {
                Err(e) => Err(e),
                Ok(orders) => match orders_value(orders, prices[n - 1]) {
                    Err(e) => Err(e),
                    Ok(value) => present(sum(before, value)),
                },
            },
        }
    }
}

/// The value of the deposit and the position in a token.
pub open spec fn holding_value(
    group: MangoGroup,
    margin: MarginAccount,
    price: U64F64,
    token: int,
) -> Result<U64F64, Failure> {
    match product(margin.deposits[token], group.indexes[token].deposit) {
        None => Err(Failure::Aborted),
        Some(deposit) => match sum(deposit, whole(margin.positions[token])) {
            None => Err(Failure::Aborted),
            Some(holding) => present(product(holding, price)),
        },
    }
}

fn to_holding_value(
    group: &MangoGroup,
    margin: &MarginAccount,
    price: U64F64,
    token: usize,
) -> (r: Result<U64F64, Failure>)
    requires
        token < NUM_TOKENS,
    ensures
        r == holding_value(*group, *margin, price, token as int),
{
    let deposit = or_abort(margin.deposits[token].checked_mul(group.indexes[token].deposit))?;
    let holding = or_abort(deposit.checked_add(U64F64::from_num(margin.positions[token])))?;
    or_abort(holding.checked_mul(price))
}

/// The value of all orders and of the holdings in the first `n` tokens.
pub open spec fn assets_value(
    group: MangoGroup,
    margin: MarginAccount,
    prices: Seq<U64F64>,
    open_orders: Seq<AccountInfo>,
    n: nat,
) -> Result<U64F64, Failure>
    decreases n,
{
    if n == 0 {
        all_orders_value(open_orders, prices, NUM_MARKETS as nat)
    } else {
        match assets_value(group, margin, prices, open_orders, (n - 1) as nat) {
            Err(e) => Err(e),
            Ok(before) => match holding_value(group, margin, prices[n - 1], n - 1) {
                Err(e) => Err(e),
                Ok(value) => present(sum(before, value)),
            },
        }
    }
}

/// The value of the borrow of a token.
pub open spec fn borrow_value(
    group: MangoGroup,
    margin: MarginAccount,
    price: U64F64,
    token: int,
) -> Result<U64F64, Failure> {
    match product(margin.borrows[token], group.indexes[token].borrow) {
        None => Err(Failure::Aborted),
        Some(borrow) => present(product(borrow, price)),
    }
}

fn to_borrow_value(
    group: &MangoGroup,
    margin: &MarginAccount,
    price: U64F64,
    token: usize,
) -> (r: Result<U64F64, Failure>)
    requires
        token < NUM_TOKENS,
    ensures
        r == borrow_value(*group, *margin, price, token as int),
{
    let borrow = or_abort(margin.borrows[token].checked_mul(group.indexes[token].borrow))?;
    or_abort(borrow.checked_mul(price))
}

/// The value of the borrows of the first `n` tokens.
pub open spec fn liabs_value(
    group: MangoGroup,
    margin: MarginAccount,
    prices: Seq<U64F64>,
    n: nat,
) -> Result<U64F64, Failure>
    decreases n,
{
    if n == 0 {
        Ok(whole(0))
    } else {
        match liabs_value(group, margin, prices, (n - 1) as nat) {
            Err(e) => Err(e),
            Ok(before) => match borrow_value(group, margin, prices[n - 1], n - 1) {
                Err(e) => Err(e),
                Ok(value) => present(sum(before, value)),
            },
        }
    }
}

proof fn lemma_orders_fail(
    open_orders: Seq<AccountInfo>,
    prices: Seq<U64F64>,
    k: nat,
    n: nat,
)
    requires
        k <= n,
        all_orders_value(open_orders, prices, k) is Err,
    ensures
        all_orders_value(open_orders, prices, n) == all_orders_value(open_orders, prices, k),
    decreases n,
{
    if k < n {
        lemma_orders_fail(open_orders, prices, k, (n - 1) as nat);
    }
}

proof fn lemma_assets_fail(
    group: MangoGroup,
    margin: MarginAccount,
    prices: Seq<U64F64>,
    open_orders: Seq<AccountInfo>,
    k: nat,
    n: nat,
)
    requires
        k <= n,
        assets_value(group, margin, prices, open_orders, k) is Err,
    ensures
        assets_value(group, margin, prices, open_orders, n) == assets_value(
            group,
            margin,
            prices,
            open_orders,
            k,
        ),
    decreases n,
{
    if k < n {
        lemma_assets_fail(group, margin, prices, open_orders, k, (n - 1) as nat);
    }
}

proof fn lemma_liabs_fail(
    group: MangoGroup,
    margin: MarginAccount,
    prices: Seq<U64F64>,
    k: nat,
    n: nat,
)
    requires
        k <= n,
        liabs_value(group, margin, prices, k) is Err,
    ensures
        liabs_value(group, margin, prices, n) == liabs_value(group, margin, prices, k),
    decreases n,
{
    if k < n {
        lemma_liabs_fail(group, margin, prices, k, (n - 1) as nat);
    }
}

/// Adds the value of one more market to a sum.
fn add_orders_value(
    before: U64F64,
    acc: &AccountInfo,
    price: U64F64,
) -> (r: Result<U64F64, Failure>)
    ensures
        r == (match refused(acc.open_orders) {
            Err(e) => Err(e),
            Ok(orders) => match orders_value(orders, price) {
                Err(e) => Err(e),
                Ok(value) => present(sum(before, value)),
            },
        }),
{
    let orders = or_refuse(acc.open_orders)?;
    let value = to_orders_value(&orders, price)?;
    or_abort(before.checked_add(value))
}

impl MarginAccount {
    /// The value of what the account holds: deposits, positions and the funds in
    /// its open orders.
    pub open spec fn assets(
        self,
        group: MangoGroup,
        prices: Seq<U64F64>,
        open_orders: Seq<AccountInfo>,
    ) -> Result<U64F64, Failure> {
        assets_value(group, self, prices, open_orders, NUM_TOKENS as nat)
    }

    /// The value of what the account has borrowed.
    pub open spec fn liabs(self, group: MangoGroup, prices: Seq<U64F64>) -> Result<
        U64F64,
        Failure,
    > {
        liabs_value(group, self, prices, NUM_TOKENS as nat)
    }

    /// The ratio of assets to liabilities: the largest number where there are no
    /// liabilities.
    pub open spec fn collateral_ratio(
        self,
        group: MangoGroup,
        prices: Seq<U64F64>,
        open_orders: Seq<AccountInfo>,
    ) -> Result<U64F64, Failure> {
        match self.assets(group, prices, open_orders) {
            Err(e) => Err(e),
            Ok(assets) => match self.liabs(group, prices) {
                Err(e) => Err(e),
                Ok(liabs) => if liabs.bits == 0 {
                    Ok(U64F64 { bits: u128::MAX })
                } else {
                    present(quotient(assets, liabs))
                },
            },
        }
    }

    pub fn get_assets_val(
        &self,
        mango_group: &MangoGroup,
        prices: &[U64F64; NUM_TOKENS],
        open_orders_accs: &[AccountInfo],
    ) -> (r: Result<U64F64, Failure>)
        requires
            open_orders_accs@.len() >= NUM_MARKETS,
        ensures
            r == self.assets(*mango_group, prices@, open_orders_accs@),
    {
        let mut assets = U64F64::from_num(0);
        let mut i: usize = 0;
        while i < NUM_MARKETS
            invariant
                i <= NUM_MARKETS <= open_orders_accs@.len(),
                all_orders_value(open_orders_accs@, prices@, i as nat) == Ok::<U64F64, Failure>(
                    assets,
                ),
            decreases NUM_MARKETS - i,
        {
            let next = add_orders_value(assets, &open_orders_accs[i], prices[i]);
            proof {
                if next is Err {
                    lemma_orders_fail(
                        open_orders_accs@,
                        prices@,
                        (i + 1) as nat,
                        NUM_MARKETS as nat,
                    );
                    lemma_assets_fail(
                        *mango_group,
                        *self,
                        prices@,
                        open_orders_accs@,
                        0,
                        NUM_TOKENS as nat,
                    );
                }
            }
            assets = next?;
            i += 1;
        }
        let mut j: usize = 0;
        while j < NUM_TOKENS
            invariant
                j <= NUM_TOKENS,
                assets_value(*mango_group, *self, prices@, open_orders_accs@, j as nat) == Ok::<
                    U64F64,
                    Failure,
                >(assets),
            decreases NUM_TOKENS - j,
        {
            let value = to_holding_value(mango_group, self, prices[j], j);
            let next = match value {
                Ok(value) => or_abort(assets.checked_add(value)),
                Err(e) => Err(e),
            };
            proof {
                if next is Err {
                    lemma_assets_fail(
                        *mango_group,
                        *self,
                        prices@,
                        open_orders_accs@,
                        (j + 1) as nat,
                        NUM_TOKENS as nat,
                    );
                }
            }
            assets = next?;
            j += 1;
        }
        Ok(assets)
    }

    pub fn get_liabs_val(
        &self,
        mango_group: &MangoGroup,
        prices: &[U64F64; NUM_TOKENS],
    ) -> (r: Result<U64F64, Failure>)
        ensures
            r == self.liabs(*mango_group, prices@),
    {
        let mut liabs = U64F64::from_num(0);
        let mut i: usize = 0;
        while i < NUM_TOKENS
            invariant
                i <= NUM_TOKENS,
                liabs_value(*mango_group, *self, prices@, i as nat) == Ok::<U64F64, Failure>(
                    liabs,
                ),
            decreases NUM_TOKENS - i,
        {
            let value = to_borrow_value(mango_group, self, prices[i], i);
            let next = match value {
                Ok(value) => or_abort(liabs.checked_add(value)),
                Err(e) => Err(e),
            };
            proof {
                if next is Err {
                    lemma_liabs_fail(
                        *mango_group,
                        *self,
                        prices@,
                        (i + 1) as nat,
                        NUM_TOKENS as nat,
                    );
                }
            }
            liabs = next?;
            i += 1;
        }
        Ok(liabs)
    }

    pub fn get_collateral_ratio(
        &self,
        mango_group: &MangoGroup,
        prices: &[U64F64; NUM_TOKENS],
        open_orders_accs: &[AccountInfo],
    ) -> (r: Result<U64F64, Failure>)
        requires
            open_orders_accs@.len() >= NUM_MARKETS,
        ensures
            r == self.collateral_ratio(*mango_group, prices@, open_orders_accs@),
    {
        let assets = self.get_assets_val(mango_group, prices, open_orders_accs)?;
        let liabs = self.get_liabs_val(mango_group, prices)?;
        if liabs.bits == 0 {
            Ok(U64F64 { bits: u128::MAX })
        } else {
            or_abort(assets.checked_div(liabs))
        }
    }
}

} // verus!
