//! What amounts, prices and accounts are worth, in plain integers.

use vstd::arithmetic::div_mod::{lemma_div_multiples_vanish_quotient, lemma_fundamental_div_mod};
use vstd::arithmetic::power::{lemma_pow_positive, pow};
use vstd::prelude::*;

use crate::error::Failure;
use crate::fixed_point::{fit, floor, one_bits, product, quotient, whole, U64F64};
use crate::prices::{market_price, market_prices, quote_scale, token_prices};
use crate::processor::liquidate::offered_value;
use crate::state::{indexed, native, AccountInfo, MangoGroup, MarginAccount};
use crate::state::{NUM_MARKETS, NUM_TOKENS};
use crate::token::{mint_decimals, mint_read};
use crate::valuation::{all_orders_value, assets_value, borrow_value, holding_value};
use crate::valuation::{liabs_value, orders_value};

verus! {

/// One, in the steps of the product of two fixed-point numbers.
pub open spec fn one_squared() -> int {
    0x1_0000_0000_0000_0000_0000_0000_0000_0000int
}

/// Whether a number of steps is in range.
pub open spec fn fits(bits: int) -> bool {
    0 <= bits <= u128::MAX
}

/// A native amount is the largest that is not above the indexed amount times the
/// index. There is one exactly where the product is in range.
pub proof fn law_native_amount(amount: U64F64, index: U64F64)
    ensures
        native(amount, index) is Ok <==> amount.bits * index.bits < u128::MAX * one_bits()
            + one_bits(),
        native(amount, index) matches Ok(n) ==> n * one_squared() <= amount.bits * index.bits < (n
            + 1) * one_squared(),
        native(amount, index) is Err ==> native(amount, index) == Err::<u64, Failure>(
            Failure::Aborted,
        ),
{
    let x = amount.bits * index.bits;
    assert(x >= 0) by (nonlinear_arith)
        requires
            x == amount.bits * index.bits,
            amount.bits >= 0,
            index.bits >= 0,
    ;
    let p = x / one_bits();
    if fits(p) {
        assert(floor(U64F64 { bits: p as u128 }) == p / one_bits());
    }
}

/// An indexed amount is the largest that times the index is not above the native
/// amount. There is one exactly where the index is not zero and the amount is in
/// range.
pub proof fn law_indexed_amount(quantity: u64, index: U64F64)
    ensures
        indexed(quantity, index) is Ok <==> index.bits > 0 && quantity * one_squared() < (u128::MAX
            + 1) * index.bits,
        indexed(quantity, index) matches Ok(a) ==> a.bits * index.bits <= quantity * one_squared()
            < (a.bits + 1) * index.bits,
        indexed(quantity, index) is Err ==> indexed(quantity, index) == Err::<U64F64, Failure>(
            Failure::Aborted,
        ),
{
    let n = quantity * one_squared();
    let i = index.bits as int;
    assert(whole(quantity).bits == quantity * one_bits());
    assert(whole(quantity).bits * one_bits() == n);
    if i > 0 {
        let a = n / i;
        lemma_fundamental_div_mod(n, i);
        assert(a >= 0 && a * i <= n < (a + 1) * i) by (nonlinear_arith)
            requires
                n == i * (n / i) + n % i,
                a == n / i,
                0 <= n % i < i,
                0 <= n,
        ;
        if a <= u128::MAX {
            assert(n < (u128::MAX + 1) * i) by (nonlinear_arith)
                requires
                    n < (a + 1) * i,
                    a <= u128::MAX,
                    i > 0,
            ;
        } else {
            assert(n >= (u128::MAX + 1) * i) by (nonlinear_arith)
                requires
                    n >= a * i,
                    a >= u128::MAX + 1,
                    i > 0,
            ;
        }
    }
}

/// Amounts are added and subtracted exactly, and products and quotients are rounded
/// down to the last step.
pub proof fn law_steps(a: U64F64, b: U64F64)
    ensures
        product(a, b) matches Some(p) ==> p.bits * one_bits() <= a.bits * b.bits < (p.bits + 1)
            * one_bits(),
        quotient(a, b) matches Some(q) ==> q.bits * b.bits <= a.bits * one_bits() < (q.bits + 1)
            * b.bits,
        b.bits == 0 ==> quotient(a, b) is None,
{
    assert(a.bits * b.bits >= 0) by (nonlinear_arith)
        requires
            a.bits >= 0,
            b.bits >= 0,
    ;
    if b.bits > 0 {
        let n = a.bits * one_bits();
        let i = b.bits as int;
        lemma_fundamental_div_mod(n, i);
        assert((n / i) * i <= n < (n / i + 1) * i) by (nonlinear_arith)
            requires
                n == i * (n / i) + n % i,
                0 <= n % i < i,
        ;
        assert(n / i >= 0) by (nonlinear_arith)
            requires
                n >= 0,
                i > 0,
        ;
    }
}

pub(crate) proof fn lemma_whole_product(x: u64, price: U64F64)
    ensures
        product(whole(x), price) == fit(x * price.bits),
        product(price, whole(x)) == fit(x * price.bits),
        whole(x).bits == x * one_bits(),
{
    assert(whole(x).bits == x * one_bits());
    let v = x * price.bits;
    assert(whole(x).bits * price.bits == v * one_bits()) by (nonlinear_arith)
        requires
            whole(x).bits == x * one_bits(),
            v == x * price.bits,
    ;
    assert(price.bits * whole(x).bits == whole(x).bits * price.bits) by (nonlinear_arith);
    assert((v * one_bits()) / one_bits() == v);
}

/// The worth of the funds in the orders on one market: the base tokens at their
/// price, and the quote tokens.
pub open spec fn orders_worth(acc: AccountInfo, price: U64F64) -> int {
    let orders = acc.open_orders->Ok_0;
    orders.native_coin_total * price.bits + orders.native_pc_total * one_bits()
}

/// The amount of a token that is deposited and in the position.
pub open spec fn held(group: MangoGroup, margin: MarginAccount, token: int) -> int {
    (margin.deposits[token].bits * group.indexes[token].deposit.bits) / one_bits()
        + margin.positions[token] * one_bits()
}

/// The amount of a token that is borrowed.
pub open spec fn owed(group: MangoGroup, margin: MarginAccount, token: int) -> int {
    (margin.borrows[token].bits * group.indexes[token].borrow.bits) / one_bits()
}

/// An amount at a price.
pub open spec fn at_price(amount: int, price: U64F64) -> int {
    (amount * price.bits) / one_bits()
}

/// The worth of all that an account has: of the orders on each market and of the
/// holding in each token, each at the price of its own token.
pub open spec fn assets_worth(
    group: MangoGroup,
    margin: MarginAccount,
    prices: Seq<U64F64>,
    open_orders: Seq<AccountInfo>,
) -> int {
    orders_worth(open_orders[0], prices[0]) + orders_worth(open_orders[1], prices[1]) + at_price(
        held(group, margin, 0),
        prices[0],
    ) + at_price(held(group, margin, 1), prices[1]) + at_price(held(group, margin, 2), prices[2])
}

/// The worth of all that an account owes, each token at its own price.
pub open spec fn liabs_worth(group: MangoGroup, margin: MarginAccount, prices: Seq<U64F64>) -> int {
    at_price(owed(group, margin, 0), prices[0]) + at_price(owed(group, margin, 1), prices[1])
        + at_price(owed(group, margin, 2), prices[2])
}

proof fn lemma_orders_value(acc: AccountInfo, price: U64F64)
    requires
        acc.open_orders is Ok,
    ensures
        orders_worth(acc, price) >= 0,
        orders_value(acc.open_orders->Ok_0, price) == if fits(orders_worth(acc, price)) {
            Ok(U64F64 { bits: orders_worth(acc, price) as u128 })
        } else {
            Err(Failure::Aborted)
        },
{
    let orders = acc.open_orders->Ok_0;
    lemma_whole_product(orders.native_coin_total, price);
    lemma_whole_product(orders.native_pc_total, price);
    assert(orders.native_coin_total * price.bits >= 0) by (nonlinear_arith)
        requires
            orders.native_coin_total >= 0,
            price.bits >= 0,
    ;
}

proof fn lemma_worth_not_negative(group: MangoGroup, margin: MarginAccount, price: U64F64, t: int)
    ensures
        held(group, margin, t) >= 0,
        owed(group, margin, t) >= 0,
        at_price(held(group, margin, t), price) >= 0,
        at_price(owed(group, margin, t), price) >= 0,
        whole(margin.positions[t]).bits == margin.positions[t] * one_bits(),
{
    let d = margin.deposits[t].bits * group.indexes[t].deposit.bits;
    let b = margin.borrows[t].bits * group.indexes[t].borrow.bits;
    assert(d >= 0 && b >= 0) by (nonlinear_arith)
        requires
            d == margin.deposits[t].bits * group.indexes[t].deposit.bits,
            b == margin.borrows[t].bits * group.indexes[t].borrow.bits,
            margin.deposits[t].bits >= 0,
            group.indexes[t].deposit.bits >= 0,
            margin.borrows[t].bits >= 0,
            group.indexes[t].borrow.bits >= 0,
    ;
    let x = held(group, margin, t);
    let y = owed(group, margin, t);
    let p = price.bits as int;
    assert(x >= 0 && y >= 0);
    assert(x * p >= 0 && y * p >= 0) by (nonlinear_arith)
        requires
            x >= 0,
            y >= 0,
            p >= 0,
    ;
    assert(whole(margin.positions[t]).bits == margin.positions[t] * one_bits());
}

/// Whether the amounts that valuing an account goes through are in range.
pub open spec fn holdings_fit(group: MangoGroup, margin: MarginAccount, prices: Seq<U64F64>) -> bool {
    forall|t: int|
        0 <= t < NUM_TOKENS ==> fits(#[trigger] held(group, margin, t)) && fits(
            at_price(held(group, margin, t), prices[t]),
        )
}

/// Whether the amounts that valuing a debt goes through are in range.
pub open spec fn debts_fit(group: MangoGroup, margin: MarginAccount, prices: Seq<U64F64>) -> bool {
    forall|t: int|
        0 <= t < NUM_TOKENS ==> fits(#[trigger] owed(group, margin, t)) && fits(
            at_price(owed(group, margin, t), prices[t]),
        )
}

/// The value of the assets is the worth of the orders on all markets and of the
/// holdings in all tokens, each at the price of its own token. It is given exactly
/// where the open orders can be read and all amounts are in range.
pub proof fn law_assets_valued(
    margin: MarginAccount,
    group: MangoGroup,
    prices: Seq<U64F64>,
    open_orders: Seq<AccountInfo>,
)
    ensures
        margin.assets(group, prices, open_orders) matches Ok(value) ==> value.bits == assets_worth(
            group,
            margin,
            prices,
            open_orders,
        ),
        margin.assets(group, prices, open_orders) is Ok <==> {
            &&& open_orders[0].open_orders is Ok
            &&& open_orders[1].open_orders is Ok
            &&& holdings_fit(group, margin, prices)
            &&& fits(assets_worth(group, margin, prices, open_orders))
        },
        open_orders[0].open_orders matches Err(e) ==> margin.assets(group, prices, open_orders)
            == Err::<U64F64, Failure>(Failure::Refused(e)),
        open_orders[0].open_orders is Ok && fits(orders_worth(open_orders[0], prices[0])) ==> (
        open_orders[1].open_orders matches Err(e) ==> margin.assets(group, prices, open_orders)
            == Err::<U64F64, Failure>(Failure::Refused(e))),
        open_orders[0].open_orders is Ok && (open_orders[1].open_orders is Ok || !fits(
            orders_worth(open_orders[0], prices[0]),
        )) && margin.assets(group, prices, open_orders) is Err ==> margin.assets(
            group,
            prices,
            open_orders,
        ) == Err::<U64F64, Failure>(Failure::Aborted),
{
    reveal_with_fuel(assets_value, 4);
    reveal_with_fuel(all_orders_value, 3);
    if open_orders[0].open_orders is Ok {
        lemma_orders_value(open_orders[0], prices[0]);
    }
    if open_orders[1].open_orders is Ok {
        lemma_orders_value(open_orders[1], prices[1]);
    }
    lemma_worth_not_negative(group, margin, prices[0], 0);
    lemma_worth_not_negative(group, margin, prices[1], 1);
    lemma_worth_not_negative(group, margin, prices[2], 2);
    lemma_holding_value(group, margin, prices[0], 0);
    lemma_holding_value(group, margin, prices[1], 1);
    lemma_holding_value(group, margin, prices[2], 2);
    assert(holdings_fit(group, margin, prices) <==> {
        &&& fits(held(group, margin, 0)) && fits(at_price(held(group, margin, 0), prices[0]))
        &&& fits(held(group, margin, 1)) && fits(at_price(held(group, margin, 1), prices[1]))
        &&& fits(held(group, margin, 2)) && fits(at_price(held(group, margin, 2), prices[2]))
    });
}

proof fn lemma_holding_value(group: MangoGroup, margin: MarginAccount, price: U64F64, t: int)
    ensures
        holding_value(group, margin, price, t) == if fits(held(group, margin, t)) && fits(
            at_price(held(group, margin, t), price),
        ) {
            Ok(U64F64 { bits: at_price(held(group, margin, t), price) as u128 })
        } else {
            Err(Failure::Aborted)
        },
{
    lemma_worth_not_negative(group, margin, price, t);
}

proof fn lemma_borrow_value(group: MangoGroup, margin: MarginAccount, price: U64F64, t: int)
    ensures
        borrow_value(group, margin, price, t) == if fits(owed(group, margin, t)) && fits(
            at_price(owed(group, margin, t), price),
        ) {
            Ok(U64F64 { bits: at_price(owed(group, margin, t), price) as u128 })
        } else {
            Err(Failure::Aborted)
        },
{
    lemma_worth_not_negative(group, margin, price, t);
}

/// The value of the liabilities is the worth of the borrows of all tokens, each at
/// the price of its own token. It is given exactly where all amounts are in range.
pub proof fn law_liabs_valued(margin: MarginAccount, group: MangoGroup, prices: Seq<U64F64>)
    ensures
        margin.liabs(group, prices) matches Ok(value) ==> value.bits == liabs_worth(
            group,
            margin,
            prices,
        ),
        margin.liabs(group, prices) is Ok <==> debts_fit(group, margin, prices) && fits(
            liabs_worth(group, margin, prices),
        ),
        margin.liabs(group, prices) is Err ==> margin.liabs(group, prices) == Err::<
            U64F64,
            Failure,
        >(Failure::Aborted),
{
    reveal_with_fuel(liabs_value, 4);
    lemma_worth_not_negative(group, margin, prices[0], 0);
    lemma_worth_not_negative(group, margin, prices[1], 1);
    lemma_worth_not_negative(group, margin, prices[2], 2);
    lemma_borrow_value(group, margin, prices[0], 0);
    lemma_borrow_value(group, margin, prices[1], 1);
    lemma_borrow_value(group, margin, prices[2], 2);
    assert(debts_fit(group, margin, prices) <==> {
        &&& fits(owed(group, margin, 0)) && fits(at_price(owed(group, margin, 0), prices[0]))
        &&& fits(owed(group, margin, 1)) && fits(at_price(owed(group, margin, 1), prices[1]))
        &&& fits(owed(group, margin, 2)) && fits(at_price(owed(group, margin, 2), prices[2]))
    });
}

/// An account that owes one token only has liabilities of that debt at the price of
/// that token.
pub proof fn law_single_debt(
    margin: MarginAccount,
    group: MangoGroup,
    prices: Seq<U64F64>,
    token: int,
)
    requires
        0 <= token < NUM_TOKENS,
        forall|t: int|
            0 <= t < NUM_TOKENS && t != token ==> (#[trigger] margin.borrows[t]).bits == 0,
        margin.liabs(group, prices) is Ok,
    ensures
        margin.liabs(group, prices)->Ok_0.bits == at_price(
            (margin.borrows[token].bits * group.indexes[token].borrow.bits) / one_bits(),
            prices[token],
        ),
{
    law_liabs_valued(margin, group, prices);
    assert forall|t: int| 0 <= t < NUM_TOKENS && t != token implies #[trigger] at_price(
        owed(group, margin, t),
        prices[t],
    ) == 0 by {
        assert(margin.borrows[t].bits == 0);
        assert(0int * group.indexes[t].borrow.bits == 0) by (nonlinear_arith);
        assert(0int * prices[t].bits == 0) by (nonlinear_arith);
    }
    assert(at_price(owed(group, margin, token), prices[token]) == liabs_worth(
        group,
        margin,
        prices,
    )) by {
        if token == 0 {
            assert(at_price(owed(group, margin, 1), prices[1]) == 0);
            assert(at_price(owed(group, margin, 2), prices[2]) == 0);
        } else if token == 1 {
            assert(at_price(owed(group, margin, 0), prices[0]) == 0);
            assert(at_price(owed(group, margin, 2), prices[2]) == 0);
        } else {
            assert(at_price(owed(group, margin, 0), prices[0]) == 0);
            assert(at_price(owed(group, margin, 1), prices[1]) == 0);
        }
    }
}

/// The collateral ratio is the largest number where nothing is owed. Otherwise it is
/// the largest that times the liabilities is not above the assets.
pub proof fn law_ratio_of_worths(
    margin: MarginAccount,
    group: MangoGroup,
    prices: Seq<U64F64>,
    open_orders: Seq<AccountInfo>,
)
    ensures
        margin.collateral_ratio(group, prices, open_orders) matches Ok(ratio) ==> {
            let assets = assets_worth(group, margin, prices, open_orders);
            let liabs = liabs_worth(group, margin, prices);
            &&& margin.assets(group, prices, open_orders) is Ok
            &&& margin.liabs(group, prices) is Ok
            &&& liabs == 0 ==> ratio.bits == u128::MAX
            &&& liabs != 0 ==> ratio.bits * liabs <= assets * one_bits() < (ratio.bits + 1) * liabs
        },
        margin.collateral_ratio(group, prices, open_orders) is Ok <==> {
            &&& margin.assets(group, prices, open_orders) is Ok
            &&& margin.liabs(group, prices) is Ok
            &&& liabs_worth(group, margin, prices) == 0 || assets_worth(
                group,
                margin,
                prices,
                open_orders,
            ) * one_bits() < (u128::MAX + 1) * liabs_worth(group, margin, prices)
        },
        margin.assets(group, prices, open_orders) matches Err(e) ==> margin.collateral_ratio(
            group,
            prices,
            open_orders,
        ) == Err::<U64F64, Failure>(e),
        margin.assets(group, prices, open_orders) is Ok && margin.collateral_ratio(
            group,
            prices,
            open_orders,
        ) is Err ==> margin.collateral_ratio(group, prices, open_orders) == Err::<U64F64, Failure>(
            Failure::Aborted,
        ),
{
    law_assets_valued(margin, group, prices, open_orders);
    law_liabs_valued(margin, group, prices);
    if margin.assets(group, prices, open_orders) is Ok && margin.liabs(group, prices) is Ok {
        let a = margin.assets(group, prices, open_orders)->Ok_0;
        let l = margin.liabs(group, prices)->Ok_0;
        law_steps(a, l);
        if l.bits > 0 {
            lemma_quotient_fits(a.bits * one_bits(), l.bits as int);
        }
    }
}

pub(crate) proof fn lemma_quotient_fits(n: int, i: int)
    requires
        n >= 0,
        i > 0,
    ensures
        n / i >= 0,
        n / i <= u128::MAX <==> n < (u128::MAX + 1) * i,
{
    lemma_fundamental_div_mod(n, i);
    let a = n / i;
    assert(a * i <= n < (a + 1) * i) by (nonlinear_arith)
        requires
            n == i * (n / i) + n % i,
            a == n / i,
            0 <= n % i < i,
    ;
    assert(a >= 0) by (nonlinear_arith)
        requires
            a == n / i,
            n >= 0,
            i > 0,
    ;
    if a <= u128::MAX {
        assert(n < (u128::MAX + 1) * i) by (nonlinear_arith)
            requires
                n < (a + 1) * i,
                a <= u128::MAX,
                i > 0,
        ;
    } else {
        assert(n >= (u128::MAX + 1) * i) by (nonlinear_arith)
            requires
                n >= a * i,
                a >= u128::MAX + 1,
                i > 0,
        ;
    }
}

/// Whether the assets of an account cover its liabilities at a ratio: without
/// liabilities they always do.
pub open spec fn covered_at(
    group: MangoGroup,
    margin: MarginAccount,
    prices: Seq<U64F64>,
    open_orders: Seq<AccountInfo>,
    ratio: U64F64,
) -> bool {
    ratio.bits * liabs_worth(group, margin, prices) <= assets_worth(
        group,
        margin,
        prices,
        open_orders,
    ) * one_bits()
}

/// A collateral ratio reaches a bound exactly where the assets are at least the
/// bound times the liabilities.
pub proof fn law_ratio_reaches(
    margin: MarginAccount,
    group: MangoGroup,
    prices: Seq<U64F64>,
    open_orders: Seq<AccountInfo>,
    bound: U64F64,
)
    requires
        margin.collateral_ratio(group, prices, open_orders) is Ok,
    ensures
        margin.collateral_ratio(group, prices, open_orders)->Ok_0.bits >= bound.bits <==> covered_at(
            group,
            margin,
            prices,
            open_orders,
            bound,
        ),
{
    law_ratio_of_worths(margin, group, prices, open_orders);
    law_assets_valued(margin, group, prices, open_orders);
    law_liabs_valued(margin, group, prices);
    let r = margin.collateral_ratio(group, prices, open_orders)->Ok_0.bits as int;
    let a = assets_worth(group, margin, prices, open_orders);
    let l = liabs_worth(group, margin, prices);
    let b = bound.bits as int;
    lemma_reaches(r, a * one_bits(), l, b);
}

pub(crate) proof fn lemma_reaches(r: int, n: int, l: int, b: int)
    requires
        l >= 0,
        n >= 0,
        b <= u128::MAX,
        l == 0 ==> r == u128::MAX,
        l != 0 ==> r * l <= n < (r + 1) * l,
    ensures
        r >= b <==> b * l <= n,
{
    if l == 0 {
        assert(b * l == 0) by (nonlinear_arith)
            requires
                l == 0,
        ;
    } else if r >= b {
        assert(b * l <= n) by (nonlinear_arith)
            requires
                r >= b,
                l > 0,
                r * l <= n,
        ;
    } else {
        assert(b * l > n) by (nonlinear_arith)
            requires
                b >= r + 1,
                l > 0,
                n < (r + 1) * l,
        ;
    }
}

/// The worth of offered deposits, each token at its own price.
pub open spec fn offer_worth(prices: Seq<U64F64>, quantities: [u64; NUM_TOKENS]) -> int {
    prices[0].bits * quantities[0] + prices[1].bits * quantities[1] + prices[2].bits
        * quantities[2]
}

/// The value of offered deposits is the sum of the quantities, each at the price of
/// its own token. It is given exactly where it is in range.
pub proof fn law_offer_valued(prices: Seq<U64F64>, quantities: [u64; NUM_TOKENS])
    ensures
        offered_value(prices, quantities, NUM_TOKENS as nat) == if fits(
            offer_worth(prices, quantities),
        ) {
            Ok(U64F64 { bits: offer_worth(prices, quantities) as u128 })
        } else {
            Err(Failure::Aborted)
        },
        offer_worth(prices, quantities) >= 0,
{
    reveal_with_fuel(offered_value, 4);
    lemma_whole_product(quantities[0], prices[0]);
    lemma_whole_product(quantities[1], prices[1]);
    lemma_whole_product(quantities[2], prices[2]);
    let (p, q) = (prices, quantities);
    assert(p[0].bits * q[0] == q[0] * p[0].bits && p[0].bits * q[0] >= 0) by (nonlinear_arith)
        requires
            p[0].bits >= 0,
            q[0] >= 0,
    ;
    assert(p[1].bits * q[1] == q[1] * p[1].bits && p[1].bits * q[1] >= 0) by (nonlinear_arith)
        requires
            p[1].bits >= 0,
            q[1] >= 0,
    ;
    assert(p[2].bits * q[2] == q[2] * p[2].bits && p[2].bits * q[2] >= 0) by (nonlinear_arith)
        requires
            p[2].bits >= 0,
            q[2] >= 0,
    ;
}

/// An offer of one token only is worth its quantity at the price of that token.
pub proof fn law_single_offer(prices: Seq<U64F64>, quantities: [u64; NUM_TOKENS], token: int)
    requires
        0 <= token < NUM_TOKENS,
        forall|t: int| 0 <= t < NUM_TOKENS && t != token ==> #[trigger] quantities[t] == 0,
    ensures
        offered_value(prices, quantities, NUM_TOKENS as nat) == (match product(
            prices[token],
            whole(quantities[token]),
        ) {
            Some(value) => Ok(value),
            None => Err(Failure::Aborted),
        }),
{
    law_offer_valued(prices, quantities);
    lemma_whole_product(quantities[token], prices[token]);
    let (p, q) = (prices, quantities);
    assert(p[token].bits * q[token] == q[token] * p[token].bits) by (nonlinear_arith);
    assert(token != 0 ==> q[0] == 0);
    assert(token != 1 ==> q[1] == 0);
    assert(token != 2 ==> q[2] == 0);
    assert(p[0].bits * 0 == 0 && p[1].bits * 0 == 0 && p[2].bits * 0 == 0);
}

/// Whether an account holds a mint that has been set up.
pub open spec fn mint_ready(acc: AccountInfo) -> bool {
    acc.data matches Ok(data) && mint_decimals(data@) is Ok
}

/// The number of decimals of a mint.
pub open spec fn decimals(acc: AccountInfo) -> nat {
    acc.data->Ok_0@[44] as nat
}

/// The number of steps in one native unit of a base token per cent of its oracle:
/// ten to the quote decimals less two, over ten to the base decimals.
pub open spec fn cent_rate(base: AccountInfo, quote: AccountInfo) -> int {
    (pow(10, (decimals(quote) - 2) as nat) * one_bits()) / pow(10, decimals(base))
}

pub(crate) proof fn lemma_market_price(
    group: MangoGroup,
    mints: Seq<AccountInfo>,
    oracles: Seq<AccountInfo>,
    quote_adj: U64F64,
    market: int,
    quote: AccountInfo,
)
    requires
        0 <= market < oracles.len(),
        oracles[market].median is Ok,
        mints[market].key == group.tokens[market],
        mint_ready(mints[market]),
        pow(10, (decimals(quote) - 2) as nat) <= u64::MAX,
        quote_adj == whole(pow(10, (decimals(quote) - 2) as nat) as u64),
    ensures
        market_price(group, mints, oracles, quote_adj, market) == if pow(
            10,
            decimals(mints[market]),
        ) <= u64::MAX && fits(oracles[market].median->Ok_0 * cent_rate(mints[market], quote)) {
            Ok(
                U64F64 {
                    bits: (oracles[market].median->Ok_0 * cent_rate(
                        mints[market],
                        quote,
                    )) as u128,
                },
            )
        } else {
            Err(Failure::Aborted)
        },
{
    let one = one_bits();
    let a = pow(10, (decimals(quote) - 2) as nat);
    let b = pow(10, decimals(mints[market]));
    lemma_pow_positive(10, (decimals(quote) - 2) as nat);
    lemma_pow_positive(10, decimals(mints[market]));
    assert(mint_read(mints[market]) == Ok::<u8, Failure>(mints[market].data->Ok_0@[44]));
    if b <= u64::MAX {
        assert(whole(a as u64).bits == a * one);
        assert(whole(b as u64).bits == b * one);
        let rate = cent_rate(mints[market], quote);
        lemma_div_multiples_vanish_quotient(one, a * one, b);
        assert(one * (a * one) == a * one * one) by (nonlinear_arith);
        assert((a * one * one) / (b * one) == rate) by {
            assert(one * b == b * one) by (nonlinear_arith);
        }
        assert(a * one <= u128::MAX);
        lemma_div_not_more(a * one, b);
        assert(quotient(quote_adj, whole(b as u64)) == fit(rate));
        let ratio = U64F64 { bits: rate as u128 };
        lemma_whole_product(oracles[market].median->Ok_0, ratio);
        assert(oracles[market].median->Ok_0 * ratio.bits >= 0) by (nonlinear_arith)
            requires
                oracles[market].median->Ok_0 >= 0,
                ratio.bits >= 0,
        ;
    }
}

proof fn lemma_div_not_more(n: int, d: int)
    requires
        n >= 0,
        d >= 1,
    ensures
        0 <= n / d <= n,
{
    assert(0 <= n / d <= n) by (nonlinear_arith)
        requires
            n >= 0,
            d >= 1,
    ;
}

/// Whether a market can be priced: its oracle has a median, its mint is that of the
/// token and has been set up, and the price is in range.
pub open spec fn can_price(
    group: MangoGroup,
    mints: Seq<AccountInfo>,
    oracles: Seq<AccountInfo>,
    market: int,
) -> bool {
    &&& market < oracles.len()
    &&& oracles[market].median is Ok
    &&& mints[market].key == group.tokens[market]
    &&& mint_ready(mints[market])
    &&& pow(10, decimals(mints[market])) <= u64::MAX
    &&& fits(
        oracles[market].median->Ok_0 * cent_rate(mints[market], mints[NUM_MARKETS as int]),
    )
}

/// Whether the quote token can be priced in cents.
pub open spec fn can_quote(group: MangoGroup, mints: Seq<AccountInfo>) -> bool {
    let quote = mints[NUM_MARKETS as int];
    &&& mints.len() > NUM_MARKETS
    &&& quote.key == group.tokens[NUM_MARKETS as int]
    &&& mint_ready(quote)
    &&& decimals(quote) >= 2
    &&& pow(10, (decimals(quote) - 2) as nat) <= u64::MAX
}

/// The price of each base token is the median of its own oracle times the rate of
/// its own mint, and that of the quote token is one. There are prices exactly where
/// the quote token and each market can be priced.
pub proof fn law_prices(group: MangoGroup, mints: Seq<AccountInfo>, oracles: Seq<AccountInfo>)
    ensures
        token_prices(group, mints, oracles) is Ok <==> can_quote(group, mints) && can_price(
            group,
            mints,
            oracles,
            0,
        ) && can_price(group, mints, oracles, 1),
        token_prices(group, mints, oracles) matches Ok(prices) ==> {
            let quote = mints[NUM_MARKETS as int];
            &&& prices.len() == NUM_TOKENS
            &&& prices[0].bits == oracles[0].median->Ok_0 * cent_rate(mints[0], quote)
            &&& prices[1].bits == oracles[1].median->Ok_0 * cent_rate(mints[1], quote)
            &&& prices[2].bits == one_bits()
        },
{
    reveal_with_fuel(market_prices, 3);
    let quote = mints[NUM_MARKETS as int];
    if quote_scale(group, mints) is Ok {
        let adj = quote_scale(group, mints)->Ok_0;
        assert(can_quote(group, mints));
        if oracles.len() > 0 && oracles[0].median is Ok && mints[0].key == group.tokens[0]
            && mint_ready(mints[0]) {
            lemma_market_price(group, mints, oracles, adj, 0, quote);
        }
        if oracles.len() > 1 && oracles[1].median is Ok && mints[1].key == group.tokens[1]
            && mint_ready(mints[1]) {
            lemma_market_price(group, mints, oracles, adj, 1, quote);
        }
        assert(whole(1).bits == one_bits());
        assert(market_price(group, mints, oracles, adj, 0) is Ok <==> can_price(
            group,
            mints,
            oracles,
            0,
        ));
        assert(market_price(group, mints, oracles, adj, 1) is Ok <==> can_price(
            group,
            mints,
            oracles,
            1,
        ));
    } else {
        assert(!can_quote(group, mints));
    }
}

} // verus!
