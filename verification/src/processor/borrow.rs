//! Borrowing tokens and paying borrows back.

use vstd::prelude::*;
use vstd::slice::slice_subrange;

use crate::error::{Failure, MangoResult};
use crate::fixed_point::{whole, U64F64};
use crate::prices::{get_prices, token_prices};
use crate::processor::{accrue, accrued, check_all_open_orders, check_collateral, check_coverage};
use crate::processor::{check_owner, collateral_checked, coverage_checked, enter, entered};
use crate::processor::{orders_checked, outcome, owner_checked, stored};
use crate::processor::{Processor, Update, UpdateView};
use crate::state::{indexed, to_indexed, AccountInfo, MangoGroup, MangoIndex, MarginAccount};
use crate::state::{Pubkey, NUM_MARKETS, NUM_TOKENS};

verus! {

/// The accounts with a native amount of a token borrowed into the position. The
/// position is increased before the borrow of the account.
pub open spec fn lent(
    group: MangoGroup,
    margin: MarginAccount,
    token: int,
    quantity: u64,
) -> Result<(MangoGroup, MarginAccount), Failure> {
    match indexed(quantity, group.indexes[token].borrow) {
        Err(e) => Err(e),
        Ok(amount) => match margin.position_added(token, quantity) {
            Err(e) => Err(e),
            Ok(margin) => match margin.borrow_added(token, amount) {
                Err(e) => Err(e),
                Ok(margin) => match group.borrow_added(token, amount) {
                    Err(e) => Err(e),
                    Ok(group) => Ok((group, margin)),
                },
            },
        },
    }
}

/// The accounts after a borrow that is granted: the account reaches the initial
/// collateral ratio, and the deposits of the token cover its borrows.
pub open spec fn borrowed(
    group: MangoGroup,
    margin: MarginAccount,
    open_orders: Seq<AccountInfo>,
    oracles: Seq<AccountInfo>,
    mints: Seq<AccountInfo>,
    token: int,
    quantity: u64,
) -> Result<(MangoGroup, MarginAccount), Failure> {
    match lent(group, margin, token, quantity) {
        Err(e) => Err(e),
        Ok((group, margin)) => match token_prices(group, mints, oracles) {
            Err(e) => Err(e),
            Ok(prices) => match collateral_checked(group, margin, prices, open_orders) {
                Err(e) => Err(e),
                Ok(_) => match coverage_checked(group, token) {
                    Err(e) => Err(e),
                    Ok(_) => Ok((group, margin)),
                },
            },
        },
    }
}

/// The outcome of a request to borrow. Its accounts are: the group, the margin
/// account, the owner, the clock, the open orders, the oracles and the mints.
///
/// The owner asks, and the open orders are those of the account and owned by the
/// signer of the group.
pub open spec fn borrowing(
    program_id: Pubkey,
    accounts: Seq<AccountInfo>,
    token_index: usize,
    quantity: u64,
    indexes: MangoResult<[MangoIndex; NUM_TOKENS]>,
) -> Result<UpdateView, Failure> {
    if accounts.len() < 4 + 2 * NUM_MARKETS + NUM_TOKENS {
        Err(Failure::Aborted)
    } else {
        let open_orders = accounts.subrange(4, 4 + NUM_MARKETS);
        let oracles = accounts.subrange(4 + NUM_MARKETS, 4 + 2 * NUM_MARKETS);
        let mints = accounts.subrange(4 + 2 * NUM_MARKETS, 4 + 2 * NUM_MARKETS + NUM_TOKENS);
        match entered(program_id, accounts[0], accounts[1]) {
            Err(e) => Err(e),
            Ok((group, margin)) => match owner_checked(margin, accounts[2]) {
                Err(e) => Err(e),
                Ok(_) => match orders_checked(
                    margin,
                    open_orders,
                    group.signer_key,
                    NUM_MARKETS as nat,
                ) {
                    Err(e) => Err(e),
                    Ok(_) => match accrued(group, accounts[3], indexes) {
                        Err(e) => Err(e),
                        Ok(group) => if token_index >= NUM_TOKENS {
                            Err(Failure::Aborted)
                        } else {
                            match borrowed(
                                group,
                                margin,
                                open_orders,
                                oracles,
                                mints,
                                token_index as int,
                                quantity,
                            ) {
                                Err(e) => Err(e),
                                Ok((group, margin)) => Ok(stored(group, margin)),
                            }
                        },
                    },
                },
            },
        }
    }
}

/// The accounts with a native amount of a token borrowed into the position, with
/// the borrow of the account increased first. The deposits of the token cover its
/// borrows; the collateral is not looked at.
pub open spec fn borrowed_unchecked(
    group: MangoGroup,
    margin: MarginAccount,
    token: int,
    quantity: u64,
) -> Result<(MangoGroup, MarginAccount), Failure> {
    match indexed(quantity, group.indexes[token].borrow) {
        Err(e) => Err(e),
        Ok(amount) => match margin.borrow_added(token, amount) {
            Err(e) => Err(e),
            Ok(margin) => match margin.position_added(token, quantity) {
                Err(e) => Err(e),
                Ok(margin) => match group.borrow_added(token, amount) {
                    Err(e) => Err(e),
                    Ok(group) => match coverage_checked(group, token) {
                        Err(e) => Err(e),
                        Ok(_) => Ok((group, margin)),
                    },
                },
            },
        },
    }
}

/// What is left of a native amount.
pub open spec fn less(a: u64, b: u64) -> Result<u64, Failure> {
    if a >= b {
        Ok((a - b) as u64)
    } else {
        Err(Failure::Aborted)
    }
}

fn to_less(a: u64, b: u64) -> (r: Result<u64, Failure>)
    ensures
        r == less(a, b),
{
    if a >= b {
        Ok(a - b)
    } else {
        Err(Failure::Aborted)
    }
}

/// The indexed amount of what is left of a native amount.
pub open spec fn rest(a: u64, b: u64, index: U64F64) -> Result<U64F64, Failure> {
    match less(a, b) {
        Err(e) => Err(e),
        Ok(left) => indexed(left, index),
    }
}

fn to_rest(a: u64, b: u64, index: U64F64) -> (r: Result<U64F64, Failure>)
    ensures
        r == rest(a, b, index),
{
    to_indexed(to_less(a, b)?, index)
}

/// The smaller of two amounts.
pub open spec fn lesser(a: u64, b: u64) -> u64 {
    if a <= b {
        a
    } else {
        b
    }
}

/// How much of a repayment each source pays, in native amounts.
pub struct Repayment {
    /// What the position pays.
    pub from_position: u64,
    /// What the deposit pays.
    pub from_deposit: u64,
}

/// How a repayment of at most `quantity` is paid: no more than is borrowed, out
/// of the position first, and out of the deposit as far as it goes.
pub open spec fn repayment(quantity: u64, borrow: u64, deposit: u64, position: u64) -> Repayment {
    let due = lesser(quantity, borrow);
    let from_position = lesser(due, position);
    Repayment { from_position, from_deposit: lesser((due - from_position) as u64, deposit) }
}

/// The accounts after a repayment. A deposit that is not drawn on keeps its exact
/// amount; one that is drawn on, and every borrow, is set anew from its native
/// amount, and a deposit that is used up is zero.
pub open spec fn repaid(
    group: MangoGroup,
    margin: MarginAccount,
    token: int,
    quantity: u64,
) -> Result<(MangoGroup, MarginAccount), Failure> {
    let index = group.indexes[token];
    match (
        margin.native_borrow(index, token),
        margin.native_deposit(index, token),
        group.native_deposit(token),
        group.native_borrow(token),
    ) {
        (Ok(borrow), Ok(deposit), Ok(total_deposit), Ok(total_borrow)) => {
            let position = margin.positions[token];
            let paid = repayment(quantity, borrow, deposit, position);
            let all = (paid.from_position + paid.from_deposit) as u64;
            let due = lesser(quantity, borrow);
            let margin = margin.with_position(token, (position - paid.from_position) as u64);
            if position >= due {
                match (rest(borrow, all, index.borrow), rest(total_borrow, all, index.borrow)) {
                    (Ok(left), Ok(total_left)) => Ok(
                        (
                            group.with_total_borrow(token, total_left),
                            margin.with_borrow(token, left),
                        ),
                    ),
                    _ => Err(Failure::Aborted),
                }
            } else {
                match (
                    rest(borrow, all, index.borrow),
                    if position + deposit >= due {
                        rest(deposit, paid.from_deposit, index.deposit)
                    } else {
                        Ok(whole(0))
                    },
                    rest(total_borrow, all, index.borrow),
                    rest(total_deposit, paid.from_deposit, index.deposit),
                ) {
                    (Ok(left), Ok(deposit_left), Ok(total_left), Ok(total_deposit_left)) => Ok(
                        (
                            group.with_total_borrow(token, total_left).with_total_deposit(
                                token,
                                total_deposit_left,
                            ),
                            margin.with_borrow(token, left).with_deposit(token, deposit_left),
                        ),
                    ),
                    _ => Err(Failure::Aborted),
                }
            }
        },
        _ => Err(Failure::Aborted),
    }
}

fn repay(group: MangoGroup, margin: MarginAccount, token: usize, quantity: u64) -> (r: Result<
    (MangoGroup, MarginAccount),
    Failure,
>)
    requires
        token < NUM_TOKENS,
    ensures
        r == repaid(group, margin, token as int, quantity),
{
    let mut group = group;
    let mut margin = margin;
    let index = group.indexes[token];
    let native_borrow = margin.get_native_borrow(&index, token)?;
    let quantity = if quantity <= native_borrow {
        quantity
    } else {
        native_borrow
    };
    let native_deposit = margin.get_native_deposit(&index, token)?;
    let position = margin.positions[token];
    let total_native_deposit = group.get_total_native_deposit(token)?;
    let total_native_borrow = group.get_total_native_borrow(token)?;
    if position >= quantity {
        margin.borrows[token] = to_rest(native_borrow, quantity, index.borrow)?;
        margin.positions[token] = position - quantity;
        group.total_borrows[token] = to_rest(total_native_borrow, quantity, index.borrow)?;
    } else {
        margin.positions[token] = 0;
        let rem_qty = quantity - position;
        if native_deposit >= rem_qty {
            margin.borrows[token] = to_rest(native_borrow, quantity, index.borrow)?;
            margin.deposits[token] = to_rest(native_deposit, rem_qty, index.deposit)?;
            group.total_borrows[token] = to_rest(total_native_borrow, quantity, index.borrow)?;
            group.total_deposits[token] = to_rest(total_native_deposit, rem_qty, index.deposit)?;
        } else {
            let paid = position + native_deposit;
            margin.borrows[token] = to_rest(native_borrow, paid, index.borrow)?;
            margin.deposits[token] = U64F64::from_num(0);
            group.total_borrows[token] = to_rest(total_native_borrow, paid, index.borrow)?;
            group.total_deposits[token] = to_rest(
                total_native_deposit,
                native_deposit,
                index.deposit,
            )?;
        }
    }
    Ok((group, margin))
}

/// The outcome of a request to settle a borrow. Its accounts are: the group, the
/// margin account, the owner and the clock. The owner asks.
pub open spec fn borrow_settling(
    program_id: Pubkey,
    accounts: Seq<AccountInfo>,
    token_index: usize,
    quantity: u64,
    indexes: MangoResult<[MangoIndex; NUM_TOKENS]>,
) -> Result<UpdateView, Failure> {
    if accounts.len() < 4 {
        Err(Failure::Aborted)
    } else {
        match entered(program_id, accounts[0], accounts[1]) {
            Err(e) => Err(e),
            Ok((group, margin)) => match owner_checked(margin, accounts[2]) {
                Err(e) => Err(e),
                Ok(_) => match accrued(group, accounts[3], indexes) {
                    Err(e) => Err(e),
                    Ok(group) => if token_index >= NUM_TOKENS {
                        Err(Failure::Aborted)
                    } else {
                        match repaid(group, margin, token_index as int, quantity) {
                            Err(e) => Err(e),
                            Ok((group, margin)) => Ok(stored(group, margin)),
                        }
                    },
                },
            },
        }
    }
}

impl Processor {
    /// Borrows tokens into the position.
    pub fn borrow(
        program_id: &Pubkey,
        accounts: &[AccountInfo],
        token_index: usize,
        quantity: u64,
        indexes: MangoResult<[MangoIndex; NUM_TOKENS]>,
    ) -> (r: Result<Update, Failure>)
        ensures
            outcome(r) == borrowing(*program_id, accounts@, token_index, quantity, indexes),
    {
        if accounts.len() < 4 + 2 * NUM_MARKETS + NUM_TOKENS {
            return Err(Failure::Aborted);
        }
        let open_orders_accs = slice_subrange(accounts, 4, 4 + NUM_MARKETS);
        let oracle_accs = slice_subrange(accounts, 4 + NUM_MARKETS, 4 + 2 * NUM_MARKETS);
        let mint_accs = slice_subrange(
            accounts,
            4 + 2 * NUM_MARKETS,
            4 + 2 * NUM_MARKETS + NUM_TOKENS,
        );

        let (group, margin) = enter(program_id, &accounts[0], &accounts[1])?;
        check_owner(&margin, &accounts[2])?;
        check_all_open_orders(&margin, open_orders_accs, &group.signer_key)?;
        let group = accrue(group, &accounts[3], indexes)?;
        if token_index >= NUM_TOKENS {
            return Err(Failure::Aborted);
        }
        let adj_quantity = to_indexed(quantity, group.indexes[token_index].borrow)?;
        let margin = margin.checked_add_position(token_index, quantity)?;
        let margin = margin.checked_add_borrow(token_index, adj_quantity)?;
        let group = group.checked_add_borrow(token_index, adj_quantity)?;

        let prices = get_prices(&group, mint_accs, oracle_accs)?;
        check_collateral(&group, &margin, &prices, open_orders_accs)?;
        check_coverage(&group, token_index)?;
        Ok(Update { invocation: None, mango_group: Some(group), margin_account: Some(margin) })
    }

    /// Pays a borrow back out of the position and the deposit.
    pub fn settle_borrow(
        program_id: &Pubkey,
        accounts: &[AccountInfo],
        token_index: usize,
        quantity: u64,
        indexes: MangoResult<[MangoIndex; NUM_TOKENS]>,
    ) -> (r: Result<Update, Failure>)
        ensures
            outcome(r) == borrow_settling(*program_id, accounts@, token_index, quantity, indexes),
    {
        if accounts.len() < 4 {
            return Err(Failure::Aborted);
        }
        let (group, margin) = enter(program_id, &accounts[0], &accounts[1])?;
        check_owner(&margin, &accounts[2])?;
        let group = accrue(group, &accounts[3], indexes)?;
        if token_index >= NUM_TOKENS {
            return Err(Failure::Aborted);
        }
        let (group, margin) = repay(group, margin, token_index, quantity)?;
        Ok(Update { invocation: None, mango_group: Some(group), margin_account: Some(margin) })
    }

    /// Borrows without looking at the collateral of the account.
    pub fn borrow_unchecked(
        mango_group: MangoGroup,
        margin_account: MarginAccount,
        token_i: usize,
        quantity: u64,
    ) -> (r: Result<(MangoGroup, MarginAccount), Failure>)
        requires
            token_i < NUM_TOKENS,
        ensures
            r == borrowed_unchecked(mango_group, margin_account, token_i as int, quantity),
    {
        let adj_quantity = to_indexed(quantity, mango_group.indexes[token_i].borrow)?;
        let margin = margin_account.checked_add_borrow(token_i, adj_quantity)?;
        let margin = margin.checked_add_position(token_i, quantity)?;
        let group = mango_group.checked_add_borrow(token_i, adj_quantity)?;
        check_coverage(&group, token_i)?;
        Ok((group, margin))
    }
}

} // verus!
