//! How each operation changes the balances, in plain integers.

use vstd::prelude::*;

use crate::dex::{NewOrder, Side};
use crate::error::{Check, Failure, MangoError, MangoResult};
use crate::fixed_point::{whole, U64F64};
use crate::laws::value::{law_indexed_amount, law_native_amount, one_squared};
use crate::laws::{lemma_indexed_back, only_token, same_identity};
use crate::processor::borrow::{borrowed_unchecked, lent, repaid, repayment};
use crate::processor::deposit::credited;
use crate::processor::liquidate::{liquidation_paid, Liquidation};
use crate::processor::order::{funded, funding};
use crate::processor::settle::proceeds_added;
use crate::processor::withdraw::{available, debited};
use crate::state::{indexed, native, AccountInfo, MangoGroup, MarginAccount, MarketState};
use crate::state::{OpenOrders, Pubkey, NUM_MARKETS, NUM_TOKENS};

verus! {

/// The smaller of two numbers.
pub open spec fn smaller(a: int, b: int) -> int {
    if a <= b {
        a
    } else {
        b
    }
}

/// The larger of two numbers.
pub open spec fn larger(a: int, b: int) -> int {
    if a >= b {
        a
    } else {
        b
    }
}

/// A native amount that is converted to an indexed amount and back is the same or
/// one less, at any index.
pub proof fn law_round_trip(quantity: u64, index: U64F64)
    requires
        indexed(quantity, index) is Ok,
    ensures
        native(indexed(quantity, index)->Ok_0, index) matches Ok(back) && quantity - 1 <= back
            <= quantity,
{
    let a = indexed(quantity, index)->Ok_0;
    law_indexed_amount(quantity, index);
    law_native_amount(a, index);
    let i = index.bits as int;
    let x = a.bits * i;
    assert((a.bits + 1) * i == x + i) by (nonlinear_arith)
        requires
            x == a.bits * i,
    ;
    assert(x <= u64::MAX * one_squared());
}

/// A smaller indexed amount has a native amount where a larger one has, and it is
/// not larger.
pub(crate) proof fn lemma_native_of_less(a: U64F64, b: U64F64, index: U64F64)
    requires
        a.bits <= b.bits,
        native(b, index) is Ok,
    ensures
        native(a, index) is Ok,
        native(a, index)->Ok_0 <= native(b, index)->Ok_0,
{
    law_native_amount(a, index);
    law_native_amount(b, index);
    assert(a.bits * index.bits <= b.bits * index.bits) by (nonlinear_arith)
        requires
            a.bits <= b.bits,
            index.bits >= 0,
    ;
}

/// A smaller native amount has an indexed amount where a larger one has, and it is
/// not larger.
pub(crate) proof fn lemma_indexed_of_less(a: u64, b: u64, index: U64F64)
    requires
        a <= b,
        indexed(b, index) is Ok,
    ensures
        indexed(a, index) is Ok,
{
    law_indexed_amount(a, index);
    law_indexed_amount(b, index);
}

/// Taking the indexed amount of a quantity from a balance lowers its native amount
/// by the quantity, or by one less.
pub(crate) proof fn lemma_native_taken(before: U64F64, after: U64F64, quantity: u64, index: U64F64)
    requires
        indexed(quantity, index) is Ok,
        before.bits - after.bits == indexed(quantity, index)->Ok_0.bits,
        native(before, index) is Ok,
    ensures
        native(after, index) matches Ok(n) && (n + quantity == native(before, index)->Ok_0 || n
            + quantity == native(before, index)->Ok_0 + 1),
{
    let a = indexed(quantity, index)->Ok_0.bits as int;
    let i = index.bits as int;
    law_indexed_amount(quantity, index);
    law_native_amount(before, index);
    law_native_amount(after, index);
    lemma_native_of_less(after, before, index);
    assert(after.bits * i == before.bits * i - a * i) by (nonlinear_arith)
        requires
            before.bits - after.bits == a,
    ;
    assert((a + 1) * i == a * i + i) by (nonlinear_arith);
}

/// Adding the indexed amount of a quantity to a balance raises its native amount by
/// the quantity, or by one less.
pub(crate) proof fn lemma_native_added(before: U64F64, after: U64F64, quantity: u64, index: U64F64)
    requires
        indexed(quantity, index) is Ok,
        after.bits - before.bits == indexed(quantity, index)->Ok_0.bits,
        native(after, index) is Ok,
    ensures
        native(before, index) matches Ok(n) && (native(after, index)->Ok_0 == n + quantity || native(
            after,
            index,
        )->Ok_0 + 1 == n + quantity),
{
    let a = indexed(quantity, index)->Ok_0.bits as int;
    let i = index.bits as int;
    law_indexed_amount(quantity, index);
    law_native_amount(before, index);
    law_native_amount(after, index);
    lemma_native_of_less(before, after, index);
    assert(after.bits * i == before.bits * i + a * i) by (nonlinear_arith)
        requires
            after.bits - before.bits == a,
    ;
    assert((a + 1) * i == a * i + i) by (nonlinear_arith);
}

/// What can be withdrawn is the native deposit and the position together, where
/// they fit.
pub proof fn law_available(group: MangoGroup, margin: MarginAccount, token: int)
    requires
        0 <= token < NUM_TOKENS,
    ensures
        ({
            let deposit = native(margin.deposits[token], group.indexes[token].deposit);
            &&& available(group, margin, token) is Ok <==> deposit is Ok && deposit->Ok_0
                + margin.positions[token] <= u64::MAX
            &&& available(group, margin, token) matches Ok(n) ==> n == deposit->Ok_0
                + margin.positions[token]
            &&& available(group, margin, token) is Err ==> available(group, margin, token) == Err::<
                u64,
                Failure,
            >(Failure::Aborted)
        }),
{
}

/// Whether the deposits of a token cover its borrows is told by the native totals.
pub proof fn law_coverage(group: MangoGroup, token: int)
    requires
        0 <= token < NUM_TOKENS,
    ensures
        ({
            let deposits = native(group.total_deposits[token], group.indexes[token].deposit);
            let borrows = native(group.total_borrows[token], group.indexes[token].borrow);
            &&& group.deposits_cover_borrows(token) is Ok <==> deposits is Ok && borrows is Ok
            &&& group.deposits_cover_borrows(token) matches Ok(covered) ==> (covered
                <==> borrows->Ok_0 <= deposits->Ok_0)
            &&& group.deposits_cover_borrows(token) is Err ==> group.deposits_cover_borrows(token)
                == Err::<bool, Failure>(Failure::Aborted)
        }),
{
}

/// A withdrawal is paid by the position as far as it goes, and the rest of the
/// quantity by the deposit. The deposit of the account and of the group fall by the
/// indexed amount of that rest. Position and native deposit together fall by the
/// quantity, or, from rounding, by one less. It fails only where a deposit is too
/// small for the rest, or the rest has no indexed amount.
pub proof fn law_withdrawal_takes(
    group: MangoGroup,
    margin: MarginAccount,
    token: int,
    quantity: u64,
)
    requires
        0 <= token < NUM_TOKENS,
    ensures
        ({
            let index = group.indexes[token].deposit;
            let position = margin.positions[token];
            let rest = larger(quantity - position, 0) as u64;
            let drawn = indexed(rest, index);
            let r = debited(group, margin, token, quantity);
            &&& r is Ok <==> rest == 0 || (drawn matches Ok(a) && a.bits
                <= margin.deposits[token].bits && a.bits <= group.total_deposits[token].bits)
            &&& r is Err ==> r == Err::<(MangoGroup, MarginAccount), Failure>(Failure::Aborted)
            &&& r matches Ok((group2, margin2)) ==> {
                let amount = if rest == 0 {
                    0
                } else {
                    drawn->Ok_0.bits as int
                };
                &&& margin2.positions[token] == position - smaller(
                    quantity as int,
                    position as int,
                )
                &&& margin.deposits[token].bits - margin2.deposits[token].bits == amount
                &&& group.total_deposits[token].bits - group2.total_deposits[token].bits == amount
                &&& group2 == (MangoGroup { total_deposits: group2.total_deposits, ..group })
                &&& margin2 == (MarginAccount {
                    deposits: margin2.deposits,
                    positions: margin2.positions,
                    ..margin
                })
                &&& only_token((group, margin), (group2, margin2), token)
                &&& native(margin.deposits[token], index) matches Ok(before) ==> (native(
                    margin2.deposits[token],
                    index,
                ) matches Ok(after) && (margin2.positions[token] + after + quantity == position
                    + before || margin2.positions[token] + after + quantity == position + before
                    + 1))
            }
        }),
{
    let index = group.indexes[token].deposit;
    let rest = larger(quantity - margin.positions[token], 0) as u64;
    let r = debited(group, margin, token, quantity);
    if r is Ok {
        let (group2, margin2) = r->Ok_0;
        assert(group2 == (MangoGroup { total_deposits: group2.total_deposits, ..group }));
        if native(margin.deposits[token], index) is Ok && rest > 0 {
            lemma_native_taken(margin.deposits[token], margin2.deposits[token], rest, index);
        }
    }
}

/// A deposit raises the deposit of the account and of the group by the indexed
/// amount of the quantity, and the native deposit by the quantity, or, from
/// rounding, by one less. It fails only where a sum is out of range.
pub proof fn law_deposit_adds(
    group: MangoGroup,
    margin: MarginAccount,
    token: int,
    quantity: u64,
)
    requires
        0 <= token < NUM_TOKENS,
    ensures
        ({
            let index = group.indexes[token].deposit;
            let added = indexed(quantity, index);
            let r = credited(group, margin, token, quantity);
            &&& r is Ok <==> (added matches Ok(a) && margin.deposits[token].bits + a.bits
                <= u128::MAX && group.total_deposits[token].bits + a.bits <= u128::MAX)
            &&& r is Err ==> r == Err::<(MangoGroup, MarginAccount), Failure>(Failure::Aborted)
            &&& r matches Ok((group2, margin2)) ==> {
                &&& margin2.deposits[token].bits - margin.deposits[token].bits == added->Ok_0.bits
                &&& group2.total_deposits[token].bits - group.total_deposits[token].bits
                    == added->Ok_0.bits
                &&& group2 == (MangoGroup { total_deposits: group2.total_deposits, ..group })
                &&& margin2 == (MarginAccount { deposits: margin2.deposits, ..margin })
                &&& only_token((group, margin), (group2, margin2), token)
                &&& native(margin2.deposits[token], index) matches Ok(after) ==> (native(
                    margin.deposits[token],
                    index,
                ) matches Ok(before) && (after == before + quantity || after + 1 == before
                    + quantity))
            }
        }),
{
    let index = group.indexes[token].deposit;
    let r = credited(group, margin, token, quantity);
    if r is Ok {
        let (group2, margin2) = r->Ok_0;
        if native(margin2.deposits[token], index) is Ok {
            lemma_native_added(margin.deposits[token], margin2.deposits[token], quantity, index);
        }
    }
}

/// What a borrow leaves: the position of the account grows by the quantity, and the
/// borrow of the account and of the group by its indexed amount.
pub open spec fn borrow_made(
    before: (MangoGroup, MarginAccount),
    after: (MangoGroup, MarginAccount),
    token: int,
    quantity: u64,
) -> bool {
    let (group, margin) = before;
    let (group2, margin2) = after;
    let index = group.indexes[token].borrow;
    let added = indexed(quantity, index);
    &&& margin2.positions[token] == margin.positions[token] + quantity
    &&& added is Ok
    &&& margin2.borrows[token].bits - margin.borrows[token].bits == added->Ok_0.bits
    &&& group2.total_borrows[token].bits - group.total_borrows[token].bits == added->Ok_0.bits
    &&& group2 == (MangoGroup { total_borrows: group2.total_borrows, ..group })
    &&& margin2 == (MarginAccount {
        borrows: margin2.borrows,
        positions: margin2.positions,
        ..margin
    })
    &&& only_token(before, after, token)
    &&& native(margin2.borrows[token], index) matches Ok(now) ==> (native(
        margin.borrows[token],
        index,
    ) matches Ok(then) && (now == then + quantity || now + 1 == then + quantity))
}

/// Whether the sums of a borrow are in range.
pub open spec fn borrow_fits(
    group: MangoGroup,
    margin: MarginAccount,
    token: int,
    quantity: u64,
) -> bool {
    &&& margin.positions[token] + quantity <= u64::MAX
    &&& indexed(quantity, group.indexes[token].borrow) matches Ok(a) && margin.borrows[token].bits
        + a.bits <= u128::MAX && group.total_borrows[token].bits + a.bits <= u128::MAX
}

/// A borrow raises the position by the quantity, and the borrow of the account and
/// of the group by its indexed amount; the native borrow rises by the quantity, or,
/// from rounding, by one less. It fails only where a sum is out of range: with the
/// position, then the account, then the group. Without a look at the collateral the
/// account comes before the position, and the deposits of the token must cover its
/// borrows afterwards.
pub proof fn law_borrow_adds(group: MangoGroup, margin: MarginAccount, token: int, quantity: u64)
    requires
        0 <= token < NUM_TOKENS,
    ensures
        ({
            let added = indexed(quantity, group.indexes[token].borrow);
            let checked = lent(group, margin, token, quantity);
            let unchecked = borrowed_unchecked(group, margin, token, quantity);
            let position_fits = margin.positions[token] + quantity <= u64::MAX;
            let borrow_sum_fits = margin.borrows[token].bits + added->Ok_0.bits <= u128::MAX;
            let total_fits = group.total_borrows[token].bits + added->Ok_0.bits <= u128::MAX;
            &&& checked is Ok <==> borrow_fits(group, margin, token, quantity)
            &&& checked matches Ok(after) ==> borrow_made((group, margin), after, token, quantity)
            &&& unchecked matches Ok(after) ==> borrow_made(
                (group, margin),
                after,
                token,
                quantity,
            ) && after.0.deposits_cover_borrows(token) == Ok::<bool, Failure>(true)
            &&& unchecked is Ok <==> borrow_fits(group, margin, token, quantity)
                && checked->Ok_0.0.deposits_cover_borrows(token) == Ok::<bool, Failure>(true)
            &&& added is Err ==> checked == refusal(Failure::Aborted) && unchecked == refusal(
                Failure::Aborted,
            )
            &&& added is Ok && !position_fits ==> checked == refusal(unmet_by(Check::PositionSum))
            &&& added is Ok && position_fits && !borrow_sum_fits ==> checked == refusal(
                unmet_by(Check::BorrowSum),
            )
            &&& added is Ok && !borrow_sum_fits ==> unchecked == refusal(unmet_by(Check::BorrowSum))
            &&& added is Ok && borrow_sum_fits && !position_fits ==> unchecked == refusal(
                unmet_by(Check::PositionSum),
            )
            &&& added is Ok && position_fits && borrow_sum_fits && !total_fits ==> checked
                == refusal(unmet_by(Check::TotalBorrowSum)) && unchecked == refusal(
                unmet_by(Check::TotalBorrowSum),
            )
        }),
{
    let index = group.indexes[token].borrow;
    let checked = lent(group, margin, token, quantity);
    let unchecked = borrowed_unchecked(group, margin, token, quantity);
    if checked is Ok {
        let (group2, margin2) = checked->Ok_0;
        if native(margin2.borrows[token], index) is Ok {
            lemma_native_added(margin.borrows[token], margin2.borrows[token], quantity, index);
        }
        if unchecked is Ok {
            let (group3, margin3) = unchecked->Ok_0;
            assert(margin3.borrows =~= margin2.borrows);
            assert(margin3.positions =~= margin2.positions);
            assert(group3.total_borrows =~= group2.total_borrows);
        }
    }
}

/// A request that fails.
pub open spec fn refusal(failure: Failure) -> Result<(MangoGroup, MarginAccount), Failure> {
    Err(failure)
}

/// The failure of a condition that does not hold.
pub open spec fn unmet_by(check: Check) -> Failure {
    Failure::Refused(MangoError::AssertionError(check))
}

/// What a balance is after its native amount was lowered: the indexed amount of what
/// is left, whose native amount is what is left or one less.
pub open spec fn lowered(before: U64F64, after: U64F64, by: int, index: U64F64) -> bool {
    &&& native(before, index) matches Ok(n) && by <= n && indexed((n - by) as u64, index) == Ok::<
        U64F64,
        Failure,
    >(after)
    &&& native(after, index) matches Ok(left) && (left + by == native(before, index)->Ok_0 || left
        + by + 1 == native(before, index)->Ok_0)
}

proof fn lemma_lowered(before: U64F64, after: U64F64, by: int, index: U64F64)
    requires
        native(before, index) is Ok,
        0 <= by <= native(before, index)->Ok_0,
        indexed((native(before, index)->Ok_0 - by) as u64, index) == Ok::<U64F64, Failure>(after),
    ensures
        lowered(before, after, by, index),
{
    law_round_trip((native(before, index)->Ok_0 - by) as u64, index);
}

proof fn lemma_left_fits(before: U64F64, by: int, index: U64F64)
    requires
        native(before, index) is Ok,
        0 <= by <= native(before, index)->Ok_0,
    ensures
        indexed((native(before, index)->Ok_0 - by) as u64, index) is Ok <==> index.bits > 0,
{
    law_indexed_amount((native(before, index)->Ok_0 - by) as u64, index);
    if index.bits > 0 {
        lemma_indexed_back(before, index);
        lemma_indexed_of_less(
            (native(before, index)->Ok_0 - by) as u64,
            native(before, index)->Ok_0,
            index,
        );
    }
}

/// Paying a borrow back. What is due is the quantity, but no more than is borrowed.
/// The position pays first, and the deposit what the position lacks, each no more
/// than it has. The native borrow of the account and of the group falls by what both
/// pay, at the borrow index. The native deposit of the account and of the group
/// falls by what the deposit pays, at the deposit index; where the position pays
/// all, the deposits keep their exact amounts. (Each native amount may be one less,
/// from rounding.) It fails only where an amount is out of range, an index that is
/// divided by is zero, or the group has less than is paid.
pub proof fn law_repayment_takes(
    group: MangoGroup,
    margin: MarginAccount,
    token: int,
    quantity: u64,
)
    requires
        0 <= token < NUM_TOKENS,
    ensures
        ({
            let index = group.indexes[token];
            let position = margin.positions[token] as int;
            let borrow = native(margin.borrows[token], index.borrow);
            let deposit = native(margin.deposits[token], index.deposit);
            let all_borrows = native(group.total_borrows[token], index.borrow);
            let all_deposits = native(group.total_deposits[token], index.deposit);
            let due = smaller(quantity as int, borrow->Ok_0 as int);
            let by_position = smaller(due, position);
            let by_deposit = smaller(due - by_position, deposit->Ok_0 as int);
            let paid = by_position + by_deposit;
            let r = repaid(group, margin, token, quantity);
            &&& r is Ok <==> {
                &&& borrow is Ok && deposit is Ok && all_borrows is Ok && all_deposits is Ok
                &&& index.borrow.bits > 0
                &&& paid <= all_borrows->Ok_0
                &&& position < due ==> index.deposit.bits > 0 && by_deposit <= all_deposits->Ok_0
            }
            &&& r is Err ==> r == refusal(Failure::Aborted)
            &&& r matches Ok((group2, margin2)) ==> {
                &&& margin2.positions[token] == position - by_position
                &&& lowered(
                    margin.borrows[token],
                    margin2.borrows[token],
                    paid,
                    index.borrow,
                )
                &&& lowered(
                    group.total_borrows[token],
                    group2.total_borrows[token],
                    paid,
                    index.borrow,
                )
                &&& position >= due ==> margin2.deposits == margin.deposits
                    && group2.total_deposits == group.total_deposits
                &&& position < due ==> lowered(
                    margin.deposits[token],
                    margin2.deposits[token],
                    by_deposit,
                    index.deposit,
                ) && lowered(
                    group.total_deposits[token],
                    group2.total_deposits[token],
                    by_deposit,
                    index.deposit,
                )
                &&& only_token((group, margin), (group2, margin2), token)
                &&& same_identity(margin, margin2)
                &&& group2 == (MangoGroup {
                    total_deposits: group2.total_deposits,
                    total_borrows: group2.total_borrows,
                    ..group
                })
            }
        }),
{
    let index = group.indexes[token];
    let borrow = native(margin.borrows[token], index.borrow);
    let deposit = native(margin.deposits[token], index.deposit);
    let all_borrows = native(group.total_borrows[token], index.borrow);
    let all_deposits = native(group.total_deposits[token], index.deposit);
    let r = repaid(group, margin, token, quantity);
    if borrow is Ok && deposit is Ok && all_borrows is Ok && all_deposits is Ok {
        let position = margin.positions[token] as int;
        let due = smaller(quantity as int, borrow->Ok_0 as int);
        let by_position = smaller(due, position);
        let by_deposit = smaller(due - by_position, deposit->Ok_0 as int);
        let paid = by_position + by_deposit;
        let split = repayment(
            quantity,
            borrow->Ok_0,
            deposit->Ok_0,
            margin.positions[token],
        );
        assert(split.from_position == by_position);
        assert(split.from_deposit == by_deposit);
        lemma_left_fits(margin.borrows[token], paid, index.borrow);
        if paid <= all_borrows->Ok_0 {
            lemma_left_fits(group.total_borrows[token], paid, index.borrow);
        }
        lemma_left_fits(margin.deposits[token], by_deposit, index.deposit);
        if by_deposit <= all_deposits->Ok_0 {
            lemma_left_fits(group.total_deposits[token], by_deposit, index.deposit);
        }
        if r is Ok {
            let (group2, margin2) = r->Ok_0;
            lemma_lowered(margin.borrows[token], margin2.borrows[token], paid, index.borrow);
            lemma_lowered(
                group.total_borrows[token],
                group2.total_borrows[token],
                paid,
                index.borrow,
            );
            if position < due {
                if position + deposit->Ok_0 < due {
                    law_indexed_zero(index.deposit);
                }
                lemma_lowered(
                    margin.deposits[token],
                    margin2.deposits[token],
                    by_deposit,
                    index.deposit,
                );
                lemma_lowered(
                    group.total_deposits[token],
                    group2.total_deposits[token],
                    by_deposit,
                    index.deposit,
                );
            }
        }
    }
}

/// The indexed amount of nothing is nothing.
pub proof fn law_indexed_zero(index: U64F64)
    requires
        index.bits > 0,
    ensures
        indexed(0, index) == Ok::<U64F64, Failure>(whole(0)),
{
    assert(0int / index.bits as int == 0) by (nonlinear_arith)
        requires
            index.bits > 0,
    ;
}

/// What an order takes at most: a bid the price times the quantity in quote lots, an
/// ask the quantity in base lots.
pub open spec fn order_cost(order: NewOrder, market: MarketState) -> int {
    match order.side {
        Side::Bid => order.limit_price * order.max_qty * market.pc_lot_size,
        Side::Ask => order.max_qty * market.coin_lot_size,
    }
}

/// The token that pays for an order: the quote token for a bid, the base token of
/// the market for an ask.
pub open spec fn paying_token(order: NewOrder, market_i: usize) -> int {
    match order.side {
        Side::Bid => NUM_MARKETS as int,
        Side::Ask => market_i as int,
    }
}

/// What there is to pay for an order: the position in the token that pays and what
/// is free of it in the open orders of the market.
pub open spec fn order_means(
    margin: MarginAccount,
    open_orders: Seq<AccountInfo>,
    order: NewOrder,
    market_i: usize,
) -> int {
    let orders = open_orders[market_i as int].open_orders->Ok_0;
    margin.positions[paying_token(order, market_i)] + match order.side {
        Side::Bid => orders.native_pc_free,
        Side::Ask => orders.native_coin_free,
    }
}

/// Whether all amounts that an order is reckoned with are in range, those of the
/// other side among them.
pub open spec fn order_fits(
    margin: MarginAccount,
    market: MarketState,
    open_orders: Seq<AccountInfo>,
    market_i: usize,
    order: NewOrder,
) -> bool {
    let orders = open_orders[market_i as int].open_orders->Ok_0;
    &&& order.limit_price * order.max_qty <= u64::MAX
    &&& order.limit_price * order.max_qty * market.pc_lot_size <= u64::MAX
    &&& order.max_qty * market.coin_lot_size <= u64::MAX
    &&& orders.native_pc_free + margin.positions[NUM_MARKETS as int] <= u64::MAX
    &&& orders.native_coin_free + margin.positions[market_i as int] <= u64::MAX
}

/// What is lacking to pay for an order is borrowed, and nothing else: the position in
/// the token that pays grows by it, and the borrow of the account and of the group
/// by its indexed amount. Where nothing is lacking, nothing changes. The order is
/// paid from the vault of that token, and the open orders are those of the account
/// on that market.
pub proof fn law_order_borrows(
    group: MangoGroup,
    margin: MarginAccount,
    market: MarketState,
    open_orders: Seq<AccountInfo>,
    market_i: usize,
    order: NewOrder,
    vault: Pubkey,
)
    ensures
        ({
            let needs = funding(margin, market, open_orders, market_i, order);
            let token = paying_token(order, market_i);
            let lacking = larger(
                order_cost(order, market) - order_means(margin, open_orders, order, market_i),
                0,
            );
            &&& needs is Ok <==> {
                &&& market_i < NUM_MARKETS
                &&& open_orders[market_i as int].open_orders is Ok
                &&& open_orders[market_i as int].key == margin.open_orders[market_i as int]
                &&& order_fits(margin, market, open_orders, market_i, order)
            }
            &&& needs matches Ok(needs) ==> {
                let r = funded(group, margin, order.side, market_i as int, needs, vault);
                &&& group.vaults[token] != vault ==> r == refusal(unmet_by(Check::VaultKey))
                &&& group.vaults[token] == vault && lacking == 0 ==> r == Ok::<
                    (MangoGroup, MarginAccount),
                    Failure,
                >((group, margin))
                &&& group.vaults[token] == vault && lacking > 0 ==> lacking <= u64::MAX && r
                    == borrowed_unchecked(group, margin, token, lacking as u64)
                &&& r matches Ok(after) ==> {
                    &&& after.1.positions[token] == margin.positions[token] + lacking
                    &&& lacking > 0 ==> borrow_made(
                        (group, margin),
                        after,
                        token,
                        lacking as u64,
                    )
                }
            }
        }),
{
    let needs = funding(margin, market, open_orders, market_i, order);
    if needs is Ok {
        let token = paying_token(order, market_i);
        let lacking = larger(
            order_cost(order, market) - order_means(margin, open_orders, order, market_i),
            0,
        );
        assert(0 <= lacking <= u64::MAX);
        law_borrow_adds(group, margin, token, lacking as u64);
    }
}

/// What a market brings when it is settled: the position in its base token grows by
/// the free base tokens that left, that in the quote token by the free quote tokens
/// that left. Gains of free funds are refused, base before quote.
pub proof fn law_proceeds(
    margin: MarginAccount,
    before: OpenOrders,
    after: OpenOrders,
    market: int,
)
    requires
        0 <= market < NUM_MARKETS,
    ensures
        ({
            let quote = NUM_MARKETS as int;
            let r = proceeds_added(margin, before, after, market);
            &&& r is Ok <==> {
                &&& after.native_coin_free <= before.native_coin_free
                &&& after.native_pc_free <= before.native_pc_free
                &&& margin.positions[market] + before.native_coin_free - after.native_coin_free
                    <= u64::MAX
                &&& margin.positions[quote] + before.native_pc_free - after.native_pc_free
                    <= u64::MAX
            }
            &&& r matches Ok(margin2) ==> {
                &&& margin2.positions[market] - margin.positions[market] == before.native_coin_free
                    - after.native_coin_free
                &&& margin2.positions[quote] - margin.positions[quote] == before.native_pc_free
                    - after.native_pc_free
                &&& margin2 == (MarginAccount { positions: margin2.positions, ..margin })
                &&& forall|t: int|
                    0 <= t < NUM_TOKENS && t != market && t != quote
                        ==> #[trigger] margin2.positions[t] == margin.positions[t]
            }
            &&& after.native_coin_free > before.native_coin_free ==> r == Err::<
                MarginAccount,
                Failure,
            >(unmet_by(Check::BaseNotIncreased))
            &&& after.native_coin_free <= before.native_coin_free && after.native_pc_free
                > before.native_pc_free ==> r == Err::<MarginAccount, Failure>(
                unmet_by(Check::QuoteNotIncreased),
            )
        }),
{
}

/// A deposit of a liquidator raises the deposit of the account and of the group by
/// the indexed amount of its quantity, of the token in turn, once its transfer is
/// replied to with success. A failed transfer fails the liquidation with its error.
pub proof fn law_liquidation_pays(state: Liquidation, reply: MangoResult<()>)
    requires
        state.token < NUM_TOKENS,
    ensures
        ({
            let token = state.token as int;
            let (group, margin) = (state.mango_group, state.margin_account);
            let added = indexed(state.deposit_quantities[token], group.indexes[token].deposit);
            let r = liquidation_paid(state, reply);
            &&& reply matches Err(e) ==> r == Err::<Liquidation, Failure>(Failure::Refused(e))
            &&& r is Ok <==> reply is Ok && (added matches Ok(a) && margin.deposits[token].bits
                + a.bits <= u128::MAX && group.total_deposits[token].bits + a.bits <= u128::MAX)
            &&& r matches Ok(next) ==> {
                let (group2, margin2) = (next.mango_group, next.margin_account);
                &&& next.token == token + 1
                &&& next.deposit_quantities == state.deposit_quantities
                &&& margin2.deposits[token].bits - margin.deposits[token].bits == added->Ok_0.bits
                &&& group2.total_deposits[token].bits - group.total_deposits[token].bits
                    == added->Ok_0.bits
                &&& group2 == (MangoGroup { total_deposits: group2.total_deposits, ..group })
                &&& margin2 == (MarginAccount { deposits: margin2.deposits, ..margin })
                &&& only_token((group, margin), (group2, margin2), token)
            }
            &&& reply is Ok && added is Ok && margin.deposits[token].bits + added->Ok_0.bits
                > u128::MAX ==> r == Err::<Liquidation, Failure>(unmet_by(Check::DepositSum))
            &&& reply is Ok && added is Ok && margin.deposits[token].bits + added->Ok_0.bits
                <= u128::MAX && group.total_deposits[token].bits + added->Ok_0.bits > u128::MAX
                ==> r == Err::<Liquidation, Failure>(unmet_by(Check::TotalDepositSum))
        }),
{
}

} // verus!
