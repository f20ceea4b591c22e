//! What holds of the library as a whole.

use vstd::arithmetic::div_mod::lemma_div_is_ordered;
use vstd::prelude::*;

use crate::dex::{NewOrder, Side};
use crate::error::{Failure, MangoError, MangoResult};
use crate::fixed_point::{one_bits, quotient, sum, whole, U64F64};
use crate::instruction::{transfer_instruction, writable};
use crate::laws::balances::{law_deposit_adds, law_round_trip};
use crate::prices::{market_prices, quote_scale, token_prices};
use crate::processor::borrow::{borrow_settling, borrowed_unchecked, borrowing, lent, lesser};
use crate::processor::borrow::{repaid, repayment};
use crate::processor::deposit::{credited, deposit_asked, deposit_made};
use crate::processor::init::{group_init, margin_init};
use crate::processor::liquidate::{liquidation_asked, liquidation_next, liquidation_paid};
use crate::processor::liquidate::{next_deposit, offered_value, Liquidation, LiquidationStepView};
use crate::processor::order::{funded, funding, funds, order_placing, order_totals, Funding};
use crate::processor::process::{processed, MangoInstruction, ProgressView};
use crate::processor::settle::{group_vaults, market_settled, next_market, nothing_free};
use crate::processor::settle::{orders_before, settlement_asked, settlement_next};
use crate::processor::settle::{Settlement, SettlementStepView};
use crate::processor::withdraw::{available, debited, withdrawal};
use crate::processor::{entered, owner_checked, stored, UpdateView};
use crate::state::{indexed, market_loaded, native, position, AccountInfo, MangoGroup};
use crate::state::{MangoIndex, MarginAccount, MarketState, OpenOrders, Pubkey, GROUP_FLAGS};
use crate::state::{MARGIN_FLAGS, NUM_MARKETS, NUM_TOKENS};
use crate::sysvar::clock_read;

pub mod access;
pub mod balances;
pub mod requests;
pub mod value;

verus! {

/// A native amount that is converted to an indexed amount and back is never more
/// than before, and at most one less.
pub proof fn law_rounding_down(quantity: u64, index: U64F64)
    requires
        indexed(quantity, index) is Ok,
    ensures
        native(indexed(quantity, index)->Ok_0, index) matches Ok(back) && back <= quantity && back
            + 1 >= quantity,
{
    law_round_trip(quantity, index);
}

/// At an index of one, as in a new group, no conversion loses anything.
pub proof fn law_index_one_is_exact(quantity: u64)
    ensures
        indexed(quantity, whole(1)) == Ok::<U64F64, Failure>(whole(quantity)),
        native(whole(quantity), whole(1)) == Ok::<u64, Failure>(quantity),
{
    let one = one_bits();
    let q = quantity as int;
    assert(whole(quantity).bits == q * one);
    assert((q * one * one) / one == q * one);
    assert((q * one) / one == q);
}

/// How much of a token the group has in deposits beyond those of the account.
pub open spec fn other_deposits(group: MangoGroup, margin: MarginAccount, token: int) -> int {
    group.total_deposits[token].bits - margin.deposits[token].bits
}

/// How much of a token the group has lent beyond the borrow of the account.
pub open spec fn other_borrows(group: MangoGroup, margin: MarginAccount, token: int) -> int {
    group.total_borrows[token].bits - margin.borrows[token].bits
}

/// The deposits and borrows of all other accounts, taken together, are the same.
pub open spec fn others_kept(
    before: (MangoGroup, MarginAccount),
    after: (MangoGroup, MarginAccount),
) -> bool {
    forall|token: int|
        0 <= token < NUM_TOKENS ==> {
            &&& #[trigger] other_deposits(after.0, after.1, token) == other_deposits(
                before.0,
                before.1,
                token,
            )
            &&& other_borrows(after.0, after.1, token) == other_borrows(
                before.0,
                before.1,
                token,
            )
        }
}

/// Only the amounts of one token differ.
pub open spec fn only_token(
    before: (MangoGroup, MarginAccount),
    after: (MangoGroup, MarginAccount),
    token: int,
) -> bool {
    forall|t: int|
        0 <= t < NUM_TOKENS && t != token ==> {
            &&& after.0.total_deposits[t] == before.0.total_deposits[t]
            &&& after.0.total_borrows[t] == before.0.total_borrows[t]
            &&& after.1.deposits[t] == before.1.deposits[t]
            &&& after.1.borrows[t] == before.1.borrows[t]
            &&& #[trigger] after.1.positions[t] == before.1.positions[t]
        }
}

/// What a group was set up with is the same.
pub open spec fn same_terms(before: MangoGroup, after: MangoGroup) -> bool {
    after == MangoGroup {
        indexes: after.indexes,
        total_deposits: after.total_deposits,
        total_borrows: after.total_borrows,
        ..before
    }
}

/// What a margin account was set up with is the same.
pub open spec fn same_identity(before: MarginAccount, after: MarginAccount) -> bool {
    after == MarginAccount {
        deposits: after.deposits,
        borrows: after.borrows,
        positions: after.positions,
        ..before
    }
}

/// A deposit adds the same amount to the account and to the group, of one token,
/// and changes no position and no borrow.
pub proof fn law_deposit_books(
    group: MangoGroup,
    margin: MarginAccount,
    token: int,
    quantity: u64,
)
    requires
        0 <= token < NUM_TOKENS,
        credited(group, margin, token, quantity) is Ok,
    ensures
        others_kept((group, margin), credited(group, margin, token, quantity)->Ok_0),
        only_token((group, margin), credited(group, margin, token, quantity)->Ok_0, token),
        credited(group, margin, token, quantity)->Ok_0.1.positions == margin.positions,
        credited(group, margin, token, quantity)->Ok_0.1.borrows == margin.borrows,
        credited(group, margin, token, quantity)->Ok_0.0.total_borrows == group.total_borrows,
{
}

/// A deposit raises the native deposit of the account by the quantity, or, from
/// rounding, by one less; never by more.
pub proof fn law_deposit_native(
    group: MangoGroup,
    margin: MarginAccount,
    token: int,
    quantity: u64,
)
    requires
        0 <= token < NUM_TOKENS,
        credited(group, margin, token, quantity) is Ok,
        margin.native_deposit(group.indexes[token], token) is Ok,
        credited(group, margin, token, quantity)->Ok_0.1.native_deposit(
            group.indexes[token],
            token,
        ) is Ok,
    ensures
        ({
            let before = margin.native_deposit(group.indexes[token], token)->Ok_0;
            let after = credited(group, margin, token, quantity)->Ok_0.1.native_deposit(
                group.indexes[token],
                token,
            )->Ok_0;
            &&& after <= before + quantity
            &&& after + 1 >= before + quantity
        }),
{
    law_deposit_adds(group, margin, token, quantity);
}

/// A withdrawal takes the same amount from the deposit of the account and of the
/// group, of one token, and changes no borrow. It takes from the deposit only what
/// the position lacks.
pub proof fn law_withdrawal_books(
    group: MangoGroup,
    margin: MarginAccount,
    token: int,
    quantity: u64,
)
    requires
        0 <= token < NUM_TOKENS,
        debited(group, margin, token, quantity) is Ok,
    ensures
        others_kept((group, margin), debited(group, margin, token, quantity)->Ok_0),
        only_token((group, margin), debited(group, margin, token, quantity)->Ok_0, token),
        debited(group, margin, token, quantity)->Ok_0.1.borrows == margin.borrows,
        debited(group, margin, token, quantity)->Ok_0.0.total_borrows == group.total_borrows,
        debited(group, margin, token, quantity)->Ok_0.1.positions[token] == margin.positions[token]
            - lesser(quantity, margin.positions[token]),
        quantity <= margin.positions[token] ==> debited(
            group,
            margin,
            token,
            quantity,
        )->Ok_0.1.deposits == margin.deposits,
{
}

/// A borrow adds the same amount to the borrow of the account and of the group, of
/// one token, adds the whole quantity to the position, and changes no deposit. The
/// order in which the sums are checked makes no difference where all of them fit.
pub proof fn law_borrow_books(
    group: MangoGroup,
    margin: MarginAccount,
    token: int,
    quantity: u64,
)
    requires
        0 <= token < NUM_TOKENS,
        lent(group, margin, token, quantity) is Ok,
    ensures
        others_kept((group, margin), lent(group, margin, token, quantity)->Ok_0),
        only_token((group, margin), lent(group, margin, token, quantity)->Ok_0, token),
        lent(group, margin, token, quantity)->Ok_0.1.deposits == margin.deposits,
        lent(group, margin, token, quantity)->Ok_0.0.total_deposits == group.total_deposits,
        lent(group, margin, token, quantity)->Ok_0.1.positions[token] == margin.positions[token]
            + quantity,
        borrowed_unchecked(group, margin, token, quantity) is Ok ==> borrowed_unchecked(
            group,
            margin,
            token,
            quantity,
        ) == lent(group, margin, token, quantity),
{
}

/// A native amount is not less where the indexed amount is not less.
proof fn lemma_native_ordered(a: U64F64, b: U64F64, index: U64F64)
    requires
        a.bits <= b.bits,
        native(a, index) is Ok,
        native(b, index) is Ok,
    ensures
        native(a, index)->Ok_0 <= native(b, index)->Ok_0,
{
    let one = one_bits();
    let pa = (a.bits * index.bits) / one;
    let pb = (b.bits * index.bits) / one;
    assert(0 <= a.bits * index.bits <= b.bits * index.bits) by (nonlinear_arith)
        requires
            0 <= a.bits <= b.bits,
            0 <= index.bits,
    ;
    assert(0 <= pa <= pb <= u128::MAX);
    assert(0 <= pa / one <= pb / one <= u64::MAX);
}

/// An indexed amount is not less where the native amount is not less.
proof fn lemma_indexed_ordered(a: u64, b: u64, index: U64F64)
    requires
        a <= b,
        indexed(a, index) is Ok,
        indexed(b, index) is Ok,
    ensures
        indexed(a, index)->Ok_0.bits <= indexed(b, index)->Ok_0.bits,
{
    let one = one_bits();
    assert(whole(a).bits == a * one);
    assert(whole(b).bits == b * one);
    lemma_div_is_ordered(a * one * one, b * one * one, index.bits as int);
}

/// Paying a borrow back changes one token. Where the group has at least as much of
/// it in deposits and in borrows as the account, it still has afterwards. (The
/// amounts of the others are not kept exactly: the totals are set anew from native
/// amounts, rounded down.)
pub proof fn law_repayment_books(
    group: MangoGroup,
    margin: MarginAccount,
    token: int,
    quantity: u64,
)
    requires
        0 <= token < NUM_TOKENS,
        repaid(group, margin, token, quantity) is Ok,
        other_deposits(group, margin, token) >= 0,
        other_borrows(group, margin, token) >= 0,
    ensures
        only_token((group, margin), repaid(group, margin, token, quantity)->Ok_0, token),
        other_deposits(
            repaid(group, margin, token, quantity)->Ok_0.0,
            repaid(group, margin, token, quantity)->Ok_0.1,
            token,
        ) >= 0,
        other_borrows(
            repaid(group, margin, token, quantity)->Ok_0.0,
            repaid(group, margin, token, quantity)->Ok_0.1,
            token,
        ) >= 0,
{
    let index = group.indexes[token];
    let borrow = margin.native_borrow(index, token)->Ok_0;
    let deposit = margin.native_deposit(index, token)->Ok_0;
    let total_borrow = group.native_borrow(token)->Ok_0;
    let total_deposit = group.native_deposit(token)->Ok_0;
    let paid = repayment(quantity, borrow, deposit, margin.positions[token]);
    let all = (paid.from_position + paid.from_deposit) as u64;
    lemma_native_ordered(margin.borrows[token], group.total_borrows[token], index.borrow);
    lemma_native_ordered(margin.deposits[token], group.total_deposits[token], index.deposit);
    lemma_indexed_ordered((borrow - all) as u64, (total_borrow - all) as u64, index.borrow);
    let due = lesser(quantity, borrow);
    if margin.positions[token] < due && margin.positions[token] + deposit >= due {
        lemma_indexed_ordered(
            (deposit - paid.from_deposit) as u64,
            (total_deposit - paid.from_deposit) as u64,
            index.deposit,
        );
    }
}

/// A repayment is no more than asked for and no more than is borrowed. Each source
/// pays no more than it has, the deposit only where the position is used up, and
/// together they pay all that is due, or all they have.
pub proof fn law_repayment_amounts(quantity: u64, borrow: u64, deposit: u64, position: u64)
    ensures
        ({
            let paid = repayment(quantity, borrow, deposit, position);
            let all = paid.from_position + paid.from_deposit;
            &&& all <= quantity
            &&& all <= borrow
            &&& paid.from_position <= position
            &&& paid.from_deposit <= deposit
            &&& paid.from_deposit > 0 ==> paid.from_position == position
            &&& all == quantity || all == borrow || all == position + deposit
        }),
{
}

/// Where position and deposit cover a borrow, settling all of it leaves none.
pub proof fn law_repayment_clears(
    group: MangoGroup,
    margin: MarginAccount,
    token: int,
    quantity: u64,
)
    requires
        0 <= token < NUM_TOKENS,
        repaid(group, margin, token, quantity) is Ok,
        margin.native_borrow(group.indexes[token], token)->Ok_0 <= quantity,
        margin.native_borrow(group.indexes[token], token)->Ok_0 <= margin.positions[token]
            + margin.native_deposit(group.indexes[token], token)->Ok_0,
    ensures
        repaid(group, margin, token, quantity)->Ok_0.1.borrows[token] == whole(0),
{
    assert(0int / group.indexes[token].borrow.bits as int == 0) by (nonlinear_arith)
        requires
            group.indexes[token].borrow.bits > 0,
    ;
}

/// A withdrawal of what was just deposited, at the same index and with nothing in
/// the position, leaves the accounts exactly as they were.
pub proof fn law_withdrawal_undoes_deposit(
    group: MangoGroup,
    margin: MarginAccount,
    token: int,
    quantity: u64,
)
    requires
        0 <= token < NUM_TOKENS,
        margin.positions[token] == 0,
        credited(group, margin, token, quantity) is Ok,
    ensures
        debited(
            credited(group, margin, token, quantity)->Ok_0.0,
            credited(group, margin, token, quantity)->Ok_0.1,
            token,
            quantity,
        ) == Ok::<(MangoGroup, MarginAccount), Failure>((group, margin)),
{
    let (group2, margin2) = credited(group, margin, token, quantity)->Ok_0;
    let (group3, margin3) = debited(group2, margin2, token, quantity)->Ok_0;
    if quantity == 0 {
        assert(0int / group.indexes[token].deposit.bits as int == 0) by (nonlinear_arith)
            requires
                group.indexes[token].deposit.bits > 0,
        ;
    }
    assert(group3.total_deposits =~= group.total_deposits);
    assert(margin3.deposits =~= margin.deposits);
    assert(margin3.positions =~= margin.positions);
}

/// Settling a borrow that was just made, at indexes of one and with whole amounts
/// lent, leaves the accounts exactly as they were.
pub proof fn law_settling_undoes_borrow(
    group: MangoGroup,
    margin: MarginAccount,
    token: int,
    quantity: u64,
    owed: u64,
    total_owed: u64,
)
    requires
        0 <= token < NUM_TOKENS,
        group.indexes[token].borrow == whole(1),
        margin.borrows[token] == whole(owed),
        group.total_borrows[token] == whole(total_owed),
        margin.native_deposit(group.indexes[token], token) is Ok,
        group.native_deposit(token) is Ok,
        lent(group, margin, token, quantity) is Ok,
    ensures
        repaid(
            lent(group, margin, token, quantity)->Ok_0.0,
            lent(group, margin, token, quantity)->Ok_0.1,
            token,
            quantity,
        ) == Ok::<(MangoGroup, MarginAccount), Failure>((group, margin)),
{
    let one = one_bits();
    let (group2, margin2) = lent(group, margin, token, quantity)->Ok_0;
    let owes = (owed + quantity) as u64;
    let total_owes = (total_owed + quantity) as u64;
    law_index_one_is_exact(quantity);
    assert(whole(owed).bits == owed * one);
    assert(whole(total_owed).bits == total_owed * one);
    assert(whole(quantity).bits == quantity * one);
    assert(owed + quantity <= u64::MAX);
    assert(total_owed + quantity <= u64::MAX);
    assert(margin2.borrows[token] == whole(owes));
    assert(group2.total_borrows[token] == whole(total_owes));
    law_index_one_is_exact(owes);
    law_index_one_is_exact(total_owes);
    law_index_one_is_exact(owed);
    law_index_one_is_exact(total_owed);
    let (group3, margin3) = repaid(group2, margin2, token, quantity)->Ok_0;
    assert(group3.total_borrows =~= group.total_borrows);
    assert(margin3.borrows =~= margin.borrows);
    assert(margin3.positions =~= margin.positions);
}

/// An indexed amount that is converted to a native amount and back still fits.
pub(crate) proof fn lemma_indexed_back(amount: U64F64, index: U64F64)
    requires
        index.bits > 0,
        native(amount, index) is Ok,
    ensures
        indexed(native(amount, index)->Ok_0, index) is Ok,
{
    let one = one_bits();
    let t = amount.bits as int;
    let i = index.bits as int;
    let p = (t * i) / one;
    let q = p / one;
    assert(t * i >= 0) by (nonlinear_arith)
        requires
            t >= 0,
            i >= 0,
    ;
    assert(0 <= q * one <= p);
    assert(q <= u64::MAX);
    assert(whole(q as u64).bits == q * one);
    let n = q * one * one;
    assert(0 <= n <= t * i);
    lemma_div_is_ordered(n, t * i, i);
    assert((t * i) / i == t) by (nonlinear_arith)
        requires
            i > 0,
    ;
    assert(n / i >= 0) by (nonlinear_arith)
        requires
            n >= 0,
            i > 0,
    ;
}

/// Paying back where nothing is borrowed takes nothing: the margin account stays as
/// it is, whatever the quantity. The borrow index is not zero, and the native
/// amounts fit.
pub proof fn law_no_debt_nothing_taken(
    group: MangoGroup,
    margin: MarginAccount,
    token: int,
    quantity: u64,
)
    requires
        0 <= token < NUM_TOKENS,
        margin.borrows[token].bits == 0,
        group.indexes[token].borrow.bits > 0,
        margin.native_deposit(group.indexes[token], token) is Ok,
        group.native_deposit(token) is Ok,
        group.native_borrow(token) is Ok,
    ensures
        repaid(group, margin, token, quantity) matches Ok((_, after)) && after == margin,
        repaid(group, margin, token, quantity)->Ok_0.0.total_deposits == group.total_deposits,
{
    let index = group.indexes[token].borrow;
    assert(0int * index.bits == 0) by (nonlinear_arith);
    assert(margin.native_borrow(group.indexes[token], token) == Ok::<u64, Failure>(0));
    assert(0int / index.bits as int == 0) by (nonlinear_arith)
        requires
            index.bits > 0,
    ;
    assert(indexed(0, index) == Ok::<U64F64, Failure>(whole(0)));
    lemma_indexed_back(group.total_borrows[token], index);
    assert(margin.borrows[token] == whole(0));
    let after = repaid(group, margin, token, quantity)->Ok_0.1;
    assert(after.borrows =~= margin.borrows);
    assert(after.positions =~= margin.positions);
}

/// A request of the owner to settle a borrow where nothing is borrowed is granted,
/// and the margin account stays as it is.
pub proof fn law_no_debt_settled(
    program_id: Pubkey,
    accounts: Seq<AccountInfo>,
    token_index: usize,
    quantity: u64,
    indexes: MangoResult<[MangoIndex; NUM_TOKENS]>,
)
    requires
        accounts.len() >= 4,
        token_index < NUM_TOKENS,
        entered(program_id, accounts[0], accounts[1]) is Ok,
        owner_checked(accounts[1].margin_account->Ok_0, accounts[2]) is Ok,
        clock_read(accounts[3]) is Ok,
        indexes is Ok,
        accounts[1].margin_account->Ok_0.borrows[token_index as int].bits == 0,
        indexes->Ok_0[token_index as int].borrow.bits > 0,
        accounts[1].margin_account->Ok_0.native_deposit(
            indexes->Ok_0[token_index as int],
            token_index as int,
        ) is Ok,
        current_group(accounts, indexes).native_deposit(token_index as int) is Ok,
        current_group(accounts, indexes).native_borrow(token_index as int) is Ok,
    ensures
        borrow_settling(program_id, accounts, token_index, quantity, indexes) matches Ok(update)
            && update.invocation is None && update.mango_group is Some && update.margin_account
            == Some(accounts[1].margin_account->Ok_0),
{
    law_no_debt_nothing_taken(
        current_group(accounts, indexes),
        accounts[1].margin_account->Ok_0,
        token_index as int,
        quantity,
    );
}

/// Paying a borrow back keeps the deposits of a token covering its borrows. Left out
/// is that the position is empty while all deposits are lent: there the deposits may
/// end up one unit short, from rounding.
pub proof fn law_repayment_covered(
    group: MangoGroup,
    margin: MarginAccount,
    token: int,
    quantity: u64,
)
    requires
        0 <= token < NUM_TOKENS,
        repaid(group, margin, token, quantity) is Ok,
        group.deposits_cover_borrows(token) == Ok::<bool, Failure>(true),
        margin.positions[token] > 0 || group.native_deposit(token)->Ok_0 > group.native_borrow(
            token,
        )->Ok_0,
    ensures
        repaid(group, margin, token, quantity)->Ok_0.0.deposits_cover_borrows(token) == Ok::<
            bool,
            Failure,
        >(true),
{
    let index = group.indexes[token];
    let borrow = margin.native_borrow(index, token)->Ok_0;
    let deposit = margin.native_deposit(index, token)->Ok_0;
    let total_borrow = group.native_borrow(token)->Ok_0;
    let total_deposit = group.native_deposit(token)->Ok_0;
    let paid = repayment(quantity, borrow, deposit, margin.positions[token]);
    let all = (paid.from_position + paid.from_deposit) as u64;
    law_rounding_down((total_borrow - all) as u64, index.borrow);
    if margin.positions[token] < lesser(quantity, borrow) {
        law_rounding_down((total_deposit - paid.from_deposit) as u64, index.deposit);
    }
}

/// The account that stands for the owner in a request, for the instructions that
/// only the owner may give. An order to place is not among them: its owner account
/// has to sign, but is not compared with the owner of the margin account.
pub open spec fn owner_place(instruction: MangoInstruction) -> Option<int> {
    match instruction {
        MangoInstruction::Withdraw { .. } => Some(2),
        MangoInstruction::Borrow { .. } => Some(2),
        MangoInstruction::SettleBorrow { .. } => Some(2),
        MangoInstruction::SettleFunds => Some(1),
        MangoInstruction::CancelOrder { .. } => Some(1),
        MangoInstruction::CancelOrderByClientId { .. } => Some(1),
        _ => None,
    }
}

/// The place of the margin account in a request on one that has been set up.
pub open spec fn margin_place(instruction: MangoInstruction) -> Option<int> {
    match (instruction, instruction.margin_place()) {
        (MangoInstruction::InitMarginAccount, _) => None,
        (_, Some(place)) => Some(place as int),
        (_, None) => None,
    }
}

/// Of every token, the group has at least as much in deposits and in borrows as the
/// account.
pub open spec fn books_valid(group: MangoGroup, margin: MarginAccount) -> bool {
    forall|token: int|
        0 <= token < NUM_TOKENS ==> {
            &&& #[trigger] other_deposits(group, margin, token) >= 0
            &&& other_borrows(group, margin, token) >= 0
        }
}

proof fn lemma_books_kept(
    before: (MangoGroup, MarginAccount),
    after: (MangoGroup, MarginAccount),
)
    requires
        books_valid(before.0, before.1),
        others_kept(before, after),
    ensures
        books_valid(after.0, after.1),
{
    assert forall|token: int| 0 <= token < NUM_TOKENS implies {
        &&& #[trigger] other_deposits(after.0, after.1, token) >= 0
        &&& other_borrows(after.0, after.1, token) >= 0
    } by {
        assert(other_deposits(before.0, before.1, token) >= 0);
        assert(other_deposits(after.0, after.1, token) == other_deposits(
            before.0,
            before.1,
            token,
        ));
    }
}

proof fn lemma_repayment_books_kept(
    group: MangoGroup,
    margin: MarginAccount,
    token: int,
    quantity: u64,
)
    requires
        0 <= token < NUM_TOKENS,
        repaid(group, margin, token, quantity) is Ok,
        books_valid(group, margin),
    ensures
        books_valid(
            repaid(group, margin, token, quantity)->Ok_0.0,
            repaid(group, margin, token, quantity)->Ok_0.1,
        ),
{
    let after = repaid(group, margin, token, quantity)->Ok_0;
    assert(other_deposits(group, margin, token) >= 0);
    law_repayment_books(group, margin, token, quantity);
    assert forall|t: int| 0 <= t < NUM_TOKENS implies {
        &&& #[trigger] other_deposits(after.0, after.1, t) >= 0
        &&& other_borrows(after.0, after.1, t) >= 0
    } by {
        assert(other_deposits(group, margin, t) >= 0);
        if t != token {
            assert(after.1.positions[t] == margin.positions[t]);
        }
    }
}

proof fn lemma_funding_books(
    group: MangoGroup,
    margin: MarginAccount,
    side: Side,
    market_i: int,
    funding: Funding,
    vault: Pubkey,
)
    requires
        0 <= market_i < NUM_MARKETS,
        funded(group, margin, side, market_i, funding, vault) is Ok,
    ensures
        others_kept(
            (group, margin),
            funded(group, margin, side, market_i, funding, vault)->Ok_0,
        ),
{
}

/// The group of a request with its indexes up to date.
pub open spec fn current_group(
    accounts: Seq<AccountInfo>,
    indexes: MangoResult<[MangoIndex; NUM_TOKENS]>,
) -> MangoGroup {
    MangoGroup { indexes: indexes->Ok_0, ..accounts[0].mango_group->Ok_0 }
}

proof fn lemma_order_books(
    program_id: Pubkey,
    accounts: Seq<AccountInfo>,
    market_i: usize,
    order: NewOrder,
    indexes: MangoResult<[MangoIndex; NUM_TOKENS]>,
)
    requires
        order_placing(program_id, accounts, market_i, order, indexes) is Ok,
    ensures
        ({
            let update = order_placing(program_id, accounts, market_i, order, indexes)->Ok_0;
            others_kept(
                (current_group(accounts, indexes), accounts[2].margin_account->Ok_0),
                (update.mango_group->0, update.margin_account->0),
            )
        }),
{
    let group = current_group(accounts, indexes);
    let margin = accounts[2].margin_account->Ok_0;
    let needs = funding(
        margin,
        market_loaded(accounts[5], group.dex_program_id)->Ok_0,
        accounts.subrange(13, 13 + NUM_MARKETS),
        market_i,
        order,
    )->Ok_0;
    lemma_funding_books(group, margin, order.side, market_i as int, needs, accounts[7].key);
}

/// Every request on a margin account keeps the books valid: one that is done, and
/// with it a deposit once its tokens are moved, and what a liquidation or a
/// settlement starts from.
pub proof fn law_books_kept(
    program_id: Pubkey,
    accounts: Seq<AccountInfo>,
    instruction: MangoInstruction,
    indexes: MangoResult<[MangoIndex; NUM_TOKENS]>,
)
    requires
        margin_place(instruction) is Some,
        processed(program_id, accounts, Some(instruction), indexes) is Ok,
        books_valid(
            accounts[0].mango_group->Ok_0,
            accounts[margin_place(instruction)->0].margin_account->Ok_0,
        ),
    ensures
        ({
            let margin = accounts[margin_place(instruction)->0].margin_account->Ok_0;
            match processed(program_id, accounts, Some(instruction), indexes)->Ok_0 {
                ProgressView::Done(update) => books_valid(
                    update.mango_group->0,
                    match update.margin_account {
                        Some(after) => after,
                        None => margin,
                    },
                ),
                ProgressView::Deposit(_, pending) => deposit_made(pending, Ok(())) matches Ok(
                    update,
                ) ==> books_valid(update.mango_group->0, update.margin_account->0),
                ProgressView::Liquidate(state) => books_valid(
                    state.mango_group,
                    state.margin_account,
                ),
                ProgressView::SettleFunds(state) => books_valid(
                    state.mango_group,
                    state.margin_account,
                ),
            }
        }),
{
    let group = current_group(accounts, indexes);
    let margin = accounts[margin_place(instruction)->0].margin_account->Ok_0;
    let before = (group, margin);
    lemma_books_kept((accounts[0].mango_group->Ok_0, margin), before);
    match instruction {
        MangoInstruction::Deposit { quantity } => {
            let pending = deposit_asked(program_id, accounts, quantity, indexes)->Ok_0.1;
            lemma_position_in_range(group.tokens@, accounts[3].key, 0);
            let token = pending.token_index as int;
            if credited(group, margin, token, quantity) is Ok {
                law_deposit_books(group, margin, token, quantity);
                lemma_books_kept(before, credited(group, margin, token, quantity)->Ok_0);
            }
        },
        MangoInstruction::Withdraw { token_index, quantity } => {
            let token = token_index as int;
            law_withdrawal_books(group, margin, token, quantity);
            lemma_books_kept(before, debited(group, margin, token, quantity)->Ok_0);
        },
        MangoInstruction::Borrow { token_index, quantity } => {
            let token = token_index as int;
            law_borrow_books(group, margin, token, quantity);
            lemma_books_kept(before, lent(group, margin, token, quantity)->Ok_0);
        },
        MangoInstruction::SettleBorrow { token_index, quantity } => {
            lemma_repayment_books_kept(group, margin, token_index as int, quantity);
        },
        MangoInstruction::PlaceOrder { market_i, order } => {
            let update = order_placing(program_id, accounts, market_i, order, indexes)->Ok_0;
            lemma_order_books(program_id, accounts, market_i, order, indexes);
            lemma_books_kept(before, (update.mango_group->0, update.margin_account->0));
        },
        _ => {},
    }
}

proof fn lemma_position_in_range(keys: Seq<Pubkey>, key: Pubkey, from: int)
    requires
        0 <= from,
        keys.len() <= usize::MAX,
    ensures
        position(keys, key, from) matches Some(i) ==> i < keys.len(),
    decreases keys.len() - from,
{
    if from < keys.len() {
        lemma_position_in_range(keys, key, from + 1);
    }
}

/// A request on a margin account gets anywhere only where the group and the margin
/// account have been set up, the group belongs to the program, and the margin
/// account to the group.
pub proof fn law_accounts_belong(
    program_id: Pubkey,
    accounts: Seq<AccountInfo>,
    instruction: MangoInstruction,
    indexes: MangoResult<[MangoIndex; NUM_TOKENS]>,
)
    requires
        margin_place(instruction) is Some,
        processed(program_id, accounts, Some(instruction), indexes) is Ok,
    ensures
        entered(program_id, accounts[0], accounts[margin_place(instruction)->0]) is Ok,
        accounts[0].owner == program_id,
        accounts[0].mango_group matches Ok(group) && group.account_flags == GROUP_FLAGS,
        accounts[margin_place(instruction)->0].margin_account matches Ok(margin)
            && margin.account_flags == MARGIN_FLAGS && margin.mango_group == accounts[0].key,
{
}

/// Only the owner of a margin account withdraws from it, borrows, settles borrows
/// or funds, or cancels orders.
pub proof fn law_owner_only(
    program_id: Pubkey,
    accounts: Seq<AccountInfo>,
    instruction: MangoInstruction,
    indexes: MangoResult<[MangoIndex; NUM_TOKENS]>,
)
    requires
        owner_place(instruction) is Some,
        processed(program_id, accounts, Some(instruction), indexes) is Ok,
    ensures
        accounts[owner_place(instruction)->0].is_signer,
        accounts[margin_place(instruction)->0].margin_account matches Ok(margin) && margin.owner
            == accounts[owner_place(instruction)->0].key,
{
}

/// Anyone may deposit: whether the account of the depositor signed makes no
/// difference here, nor whether it is that of the owner.
pub proof fn law_anyone_deposits(
    program_id: Pubkey,
    accounts: Seq<AccountInfo>,
    quantity: u64,
    indexes: MangoResult<[MangoIndex; NUM_TOKENS]>,
    other: AccountInfo,
)
    requires
        accounts.len() >= 8,
    ensures
        deposit_asked(program_id, accounts, quantity, indexes) is Ok <==> deposit_asked(
            program_id,
            accounts.update(2, other),
            quantity,
            indexes,
        ) is Ok,
        deposit_asked(program_id, accounts, quantity, indexes)->Ok_0.1 == deposit_asked(
            program_id,
            accounts.update(2, other),
            quantity,
            indexes,
        )->Ok_0.1,
{
}

/// A request that is done on a margin account keeps what the group and the margin
/// account were set up with: flags, keys, owner and collateral ratios.
pub proof fn law_terms_kept(
    program_id: Pubkey,
    accounts: Seq<AccountInfo>,
    instruction: MangoInstruction,
    indexes: MangoResult<[MangoIndex; NUM_TOKENS]>,
    update: UpdateView,
)
    requires
        margin_place(instruction) is Some,
        processed(program_id, accounts, Some(instruction), indexes) == Ok::<ProgressView, Failure>(
            ProgressView::Done(update),
        ),
    ensures
        update.mango_group matches Some(after) && same_terms(accounts[0].mango_group->Ok_0, after),
        update.margin_account matches Some(after) ==> same_identity(
            accounts[margin_place(instruction)->0].margin_account->Ok_0,
            after,
        ),
{
}

/// A granted withdrawal pays exactly the quantity out of the vault of the token,
/// which is no more than position and deposit hold. Afterwards the account reaches
/// the initial collateral ratio, and the deposits of the token cover its borrows.
pub proof fn law_withdrawal_safe(
    program_id: Pubkey,
    accounts: Seq<AccountInfo>,
    token_index: usize,
    quantity: u64,
    indexes: MangoResult<[MangoIndex; NUM_TOKENS]>,
)
    requires
        withdrawal(program_id, accounts, token_index, quantity, indexes) is Ok,
    ensures
        ({
            let update = withdrawal(program_id, accounts, token_index, quantity, indexes)->Ok_0;
            let before = MangoGroup {
                indexes: indexes->Ok_0,
                ..accounts[0].mango_group->Ok_0
            };
            let margin = accounts[1].margin_account->Ok_0;
            let group = update.mango_group->0;
            let after = update.margin_account->0;
            &&& token_index < NUM_TOKENS
            &&& available(before, margin, token_index as int) matches Ok(most) && quantity <= most
            &&& update.invocation matches Some(invocation) && invocation.instruction
                == transfer_instruction(
                before.vaults[token_index as int],
                accounts[3].key,
                accounts[5].key,
                quantity,
            )
            &&& token_prices(
                before,
                accounts.subrange(8 + 2 * NUM_MARKETS, 8 + 2 * NUM_MARKETS + NUM_TOKENS),
                accounts.subrange(8 + NUM_MARKETS, 8 + 2 * NUM_MARKETS),
            ) matches Ok(prices) && after.collateral_ratio(
                group,
                prices,
                accounts.subrange(8, 8 + NUM_MARKETS),
            ) matches Ok(ratio) && ratio.bits >= group.init_coll_ratio.bits
            &&& group.deposits_cover_borrows(token_index as int) == Ok::<bool, Failure>(true)
        }),
{
}

/// After a granted borrow the account reaches the initial collateral ratio, and
/// the deposits of the token cover its borrows.
pub proof fn law_borrow_safe(
    program_id: Pubkey,
    accounts: Seq<AccountInfo>,
    token_index: usize,
    quantity: u64,
    indexes: MangoResult<[MangoIndex; NUM_TOKENS]>,
)
    requires
        borrowing(program_id, accounts, token_index, quantity, indexes) is Ok,
    ensures
        ({
            let update = borrowing(program_id, accounts, token_index, quantity, indexes)->Ok_0;
            let group = update.mango_group->0;
            let after = update.margin_account->0;
            &&& token_index < NUM_TOKENS
            &&& token_prices(
                group,
                accounts.subrange(4 + 2 * NUM_MARKETS, 4 + 2 * NUM_MARKETS + NUM_TOKENS),
                accounts.subrange(4 + NUM_MARKETS, 4 + 2 * NUM_MARKETS),
            ) matches Ok(prices) && after.collateral_ratio(
                group,
                prices,
                accounts.subrange(4, 4 + NUM_MARKETS),
            ) matches Ok(ratio) && ratio.bits >= group.init_coll_ratio.bits
            &&& group.deposits_cover_borrows(token_index as int) == Ok::<bool, Failure>(true)
        }),
{
}

/// After an order is placed the account reaches the initial collateral ratio.
pub proof fn law_order_safe(
    program_id: Pubkey,
    accounts: Seq<AccountInfo>,
    market_i: usize,
    order: NewOrder,
    indexes: MangoResult<[MangoIndex; NUM_TOKENS]>,
)
    requires
        order_placing(program_id, accounts, market_i, order, indexes) is Ok,
    ensures
        ({
            let update = order_placing(program_id, accounts, market_i, order, indexes)->Ok_0;
            let group = update.mango_group->0;
            let after = update.margin_account->0;
            &&& market_i < NUM_MARKETS
            &&& token_prices(
                group,
                accounts.subrange(13 + 2 * NUM_MARKETS, 13 + 2 * NUM_MARKETS + NUM_TOKENS),
                accounts.subrange(13 + NUM_MARKETS, 13 + 2 * NUM_MARKETS),
            ) matches Ok(prices) && after.collateral_ratio(
                group,
                prices,
                accounts.subrange(13, 13 + NUM_MARKETS),
            ) matches Ok(ratio) && ratio.bits >= group.init_coll_ratio.bits
        }),
{
}

/// Once an order is funded, the position and what is free on the exchange cover
/// it: a bid in quote tokens, an ask in base tokens. No more is borrowed than was
/// lacking, and nothing where nothing was. After a borrow the deposits of the token
/// cover its borrows.
pub proof fn law_order_funded(
    group: MangoGroup,
    margin: MarginAccount,
    orders: OpenOrders,
    order: NewOrder,
    market: MarketState,
    market_i: int,
    vault: Pubkey,
)
    requires
        0 <= market_i < NUM_MARKETS,
        order_totals(order, market) is Ok,
        funds(margin, orders, market_i) is Ok,
        funded(
            group,
            margin,
            order.side,
            market_i,
            funding_of(order_totals(order, market)->Ok_0, funds(margin, orders, market_i)->Ok_0),
            vault,
        ) is Ok,
    ensures
        ({
            let after = funded(
                group,
                margin,
                order.side,
                market_i,
                funding_of(
                    order_totals(order, market)->Ok_0,
                    funds(margin, orders, market_i)->Ok_0,
                ),
                vault,
            )->Ok_0;
            let (token, total, free) = match order.side {
                Side::Bid => (
                    NUM_MARKETS as int,
                    order.limit_price * order.max_qty * market.pc_lot_size,
                    orders.native_pc_free,
                ),
                Side::Ask => (
                    market_i,
                    order.max_qty * market.coin_lot_size,
                    orders.native_coin_free,
                ),
            };
            let had = margin.positions[token] + free;
            let has = after.1.positions[token] + free;
            &&& has == if total > had {
                total
            } else {
                had
            }
            &&& total <= had ==> after == (group, margin)
            &&& total > had ==> after.0.deposits_cover_borrows(token) == Ok::<bool, Failure>(true)
            &&& only_token((group, margin), after, token)
            &&& others_kept((group, margin), after)
            &&& group.vaults[token] == vault
        }),
{
}

/// A funding from what an order needs and what there is for it.
pub open spec fn funding_of(totals: (u64, u64), avail: (u64, u64)) -> Funding {
    Funding {
        quote_total: totals.0,
        base_total: totals.1,
        quote_avail: avail.0,
        base_avail: avail.1,
    }
}

/// Settling a market moves what leaves the open orders into the positions: of each
/// token, position and free funds together stay the same. No other position, and
/// no deposit or borrow, changes.
pub proof fn law_settlement_conserves(
    state: Settlement,
    accounts: Seq<AccountInfo>,
    reply: MangoResult<()>,
    after: MangoResult<OpenOrders>,
)
    requires
        state.market < NUM_MARKETS,
        market_settled(state, accounts, reply, after) is Ok,
    ensures
        ({
            let market = state.market as int;
            let quote = NUM_MARKETS as int;
            let next = market_settled(state, accounts, reply, after)->Ok_0;
            let old = accounts[8 + market].open_orders->Ok_0;
            let new = after->Ok_0;
            &&& next.mango_group == state.mango_group
            &&& next.margin_account == (MarginAccount {
                positions: next.margin_account.positions,
                ..state.margin_account
            })
            &&& next.margin_account.positions[market] + new.native_coin_free
                == state.margin_account.positions[market] + old.native_coin_free
            &&& next.margin_account.positions[quote] + new.native_pc_free
                == state.margin_account.positions[quote] + old.native_pc_free
            &&& forall|t: int|
                0 <= t < NUM_TOKENS && t != market && t != quote
                    ==> #[trigger] next.margin_account.positions[t]
                    == state.margin_account.positions[t]
        }),
{
}

/// A market is settled only where it has free funds, and every market before it
/// that is passed over has none.
pub proof fn law_settlement_skips(margin: MarginAccount, accounts: Seq<AccountInfo>, from: int)
    requires
        0 <= from,
        next_market(margin, accounts, from) is Ok,
    ensures
        ({
            let market = next_market(margin, accounts, from)->Ok_0;
            &&& market < NUM_MARKETS ==> from <= market && !nothing_free(
                accounts[8 + market].open_orders->Ok_0,
            )
            &&& forall|m: int|
                #![trigger accounts[8 + m]]
                from <= m < market ==> nothing_free(accounts[8 + m].open_orders->Ok_0)
        }),
    decreases NUM_MARKETS - from,
{
    if from < NUM_MARKETS && nothing_free(orders_before(margin, accounts, from)->Ok_0) {
        law_settlement_skips(margin, accounts, from + 1);
    }
}

/// A market is settled only into the vaults of the group: base tokens go to the
/// vault of the base token, quote tokens to that of the quote token.
pub proof fn law_settlement_vaults(state: Settlement, accounts: Seq<AccountInfo>)
    requires
        settlement_next(state, accounts) matches Ok(SettlementStepView::Settle(_, _)),
    ensures
        settlement_next(state, accounts)->Ok_0 matches SettlementStepView::Settle(invocation, at)
            && at.market < NUM_MARKETS && invocation.instruction.accounts[5] == writable(
            state.mango_group.vaults[at.market as int],
        ) && invocation.instruction.accounts[6] == writable(
            state.mango_group.vaults[NUM_MARKETS as int],
        ),
{
    lemma_passed_over(state.margin_account, accounts, Seq::empty(), state.market as int);
}

/// Where a settlement ends. `accounts` are those of the request, each open orders
/// account as it is when the turn of its market comes; `replies` and `after` are,
/// by market, the reply to settling it and what reading its open orders then gives.
pub open spec fn settlement_ended(
    state: Settlement,
    accounts: Seq<AccountInfo>,
    replies: Seq<MangoResult<()>>,
    after: Seq<MangoResult<OpenOrders>>,
) -> Result<UpdateView, Failure>
    decreases NUM_MARKETS - state.market,
{
    match settlement_next(state, accounts) {
        Err(e) => Err(e),
        Ok(SettlementStepView::Done(update)) => Ok(update),
        Ok(SettlementStepView::Settle(_, at)) => if at.market < state.market || at.market
            >= NUM_MARKETS {
            Err(Failure::Aborted)
        } else {
            match market_settled(
                at,
                accounts,
                replies[at.market as int],
                after[at.market as int],
            ) {
                Err(e) => Err(e),
                Ok(next) => settlement_ended(next, accounts, replies, after),
            }
        },
    }
}

/// The base tokens that leave the open orders on a market. Where nothing is free,
/// the market is passed over.
pub open spec fn base_left(
    accounts: Seq<AccountInfo>,
    after: Seq<MangoResult<OpenOrders>>,
    market: int,
) -> int {
    let before = accounts[8 + market].open_orders->Ok_0;
    if nothing_free(before) {
        0
    } else {
        before.native_coin_free - after[market]->Ok_0.native_coin_free
    }
}

/// The quote tokens that leave the open orders on a market.
pub open spec fn quote_left(
    accounts: Seq<AccountInfo>,
    after: Seq<MangoResult<OpenOrders>>,
    market: int,
) -> int {
    let before = accounts[8 + market].open_orders->Ok_0;
    if nothing_free(before) {
        0
    } else {
        before.native_pc_free - after[market]->Ok_0.native_pc_free
    }
}

/// The quote tokens that leave the open orders on all markets from `from` on.
pub open spec fn all_quote_left(
    accounts: Seq<AccountInfo>,
    after: Seq<MangoResult<OpenOrders>>,
    from: int,
) -> int
    decreases NUM_MARKETS - from,
{
    if from < 0 || from >= NUM_MARKETS {
        0
    } else {
        quote_left(accounts, after, from) + all_quote_left(accounts, after, from + 1)
    }
}

proof fn lemma_passed_over(
    margin: MarginAccount,
    accounts: Seq<AccountInfo>,
    after: Seq<MangoResult<OpenOrders>>,
    from: int,
)
    requires
        0 <= from,
        next_market(margin, accounts, from) is Ok,
    ensures
        ({
            let market = next_market(margin, accounts, from)->Ok_0;
            &&& market <= NUM_MARKETS
            &&& from <= market || market == NUM_MARKETS
            &&& market < NUM_MARKETS ==> !nothing_free(
                orders_before(margin, accounts, market)->Ok_0,
            )
            &&& forall|m: int|
                from <= m <= market && m < NUM_MARKETS ==> #[trigger] orders_before(
                    margin,
                    accounts,
                    m,
                ) is Ok
            &&& forall|m: int|
                from <= m < market ==> nothing_free(
                    #[trigger] orders_before(margin, accounts, m)->Ok_0,
                )
            &&& all_quote_left(accounts, after, from) == all_quote_left(accounts, after, market)
        }),
    decreases NUM_MARKETS - from,
{
    if from < NUM_MARKETS && nothing_free(orders_before(margin, accounts, from)->Ok_0) {
        lemma_passed_over(margin, accounts, after, from + 1);
    }
}

/// A settlement that ends adds to the position in each base token what left the
/// open orders on its market, and to that in the quote token what left all of them.
/// Nothing else of the group or the margin account changes. The open orders are
/// those that the margin account records, and every market with free funds was
/// settled with success and did not gain.
pub proof fn law_settlement_ends(
    state: Settlement,
    accounts: Seq<AccountInfo>,
    replies: Seq<MangoResult<()>>,
    after: Seq<MangoResult<OpenOrders>>,
)
    requires
        settlement_ended(state, accounts, replies, after) is Ok,
    ensures
        ({
            let update = settlement_ended(state, accounts, replies, after)->Ok_0;
            let margin = update.margin_account->0;
            let quote = NUM_MARKETS as int;
            &&& update == stored(state.mango_group, margin)
            &&& margin == (MarginAccount { positions: margin.positions, ..state.margin_account })
            &&& forall|m: int|
                #![trigger margin.positions[m]]
                0 <= m < NUM_MARKETS ==> margin.positions[m] == state.margin_account.positions[m]
                    + (if m < state.market {
                    0
                } else {
                    base_left(accounts, after, m)
                })
            &&& margin.positions[quote] == state.margin_account.positions[quote] + all_quote_left(
                accounts,
                after,
                state.market as int,
            )
            &&& forall|m: int|
                #![trigger accounts[8 + m]]
                state.market <= m < NUM_MARKETS ==> {
                    &&& accounts[8 + m].key == state.margin_account.open_orders[m]
                    &&& accounts[8 + m].open_orders matches Ok(before) && (!nothing_free(before)
                        ==> replies[m] is Ok && after[m] is Ok && base_left(accounts, after, m) >= 0
                        && quote_left(accounts, after, m) >= 0)
                }
        }),
    decreases NUM_MARKETS - state.market,
{
    let from = state.market as int;
    let margin = state.margin_account;
    lemma_passed_over(margin, accounts, after, from);
    assert forall|m: int| #![trigger accounts[8 + m]]
        from <= m <= next_market(margin, accounts, from)->Ok_0 && m
            < NUM_MARKETS implies accounts[8 + m].key == margin.open_orders[m] && accounts[8
        + m].open_orders is Ok by {
        assert(orders_before(margin, accounts, m) is Ok);
    }
    assert forall|m: int| #![trigger accounts[8 + m]]
        from <= m < next_market(margin, accounts, from)->Ok_0 implies nothing_free(
        accounts[8 + m].open_orders->Ok_0,
    ) by {
        assert(nothing_free(orders_before(margin, accounts, m)->Ok_0));
    }
    if let SettlementStepView::Settle(_, at) = settlement_next(state, accounts)->Ok_0 {
        let market = at.market as int;
        let next = market_settled(at, accounts, replies[market], after[market])->Ok_0;
        law_settlement_conserves(at, accounts, replies[market], after[market]);
        law_settlement_ends(next, accounts, replies, after);
        assert(all_quote_left(accounts, after, market) == quote_left(accounts, after, market)
            + all_quote_left(accounts, after, market + 1));
    }
}

proof fn lemma_all_quote_left(
    accounts: Seq<AccountInfo>,
    after: Seq<MangoResult<OpenOrders>>,
    from: int,
)
    requires
        0 <= from,
        forall|m: int|
            from <= m < NUM_MARKETS ==> #[trigger] quote_left(accounts, after, m) >= 0,
    ensures
        all_quote_left(accounts, after, from) >= 0,
    decreases NUM_MARKETS - from,
{
    if from < NUM_MARKETS {
        lemma_all_quote_left(accounts, after, from + 1);
    }
}

/// Whether nothing stands in the way of settling a market: its open orders are
/// those that the margin account records and can be read, and where they have free
/// funds, the vaults are those of the group, settling succeeds, no free funds are
/// gained, and the position in the base token fits.
pub open spec fn can_settle(
    state: Settlement,
    accounts: Seq<AccountInfo>,
    replies: Seq<MangoResult<()>>,
    after: Seq<MangoResult<OpenOrders>>,
    market: int,
) -> bool {
    &&& accounts[8 + market].key == state.margin_account.open_orders[market]
    &&& accounts[8 + market].open_orders matches Ok(before) && (!nothing_free(before) ==> {
        &&& group_vaults(state.mango_group, accounts, market)
        &&& replies[market] is Ok
        &&& after[market] is Ok
        &&& base_left(accounts, after, market) >= 0
        &&& quote_left(accounts, after, market) >= 0
        &&& state.margin_account.positions[market] + base_left(accounts, after, market)
            <= u64::MAX
    })
}

proof fn lemma_next_market_found(state: Settlement, accounts: Seq<AccountInfo>, from: int)
    requires
        0 <= from,
        forall|m: int|
            from <= m < NUM_MARKETS ==> #[trigger] orders_before(
                state.margin_account,
                accounts,
                m,
            ) is Ok,
    ensures
        next_market(state.margin_account, accounts, from) is Ok,
    decreases NUM_MARKETS - from,
{
    if from < NUM_MARKETS {
        lemma_next_market_found(state, accounts, from + 1);
    }
}

/// A settlement succeeds where nothing stands in the way of settling each market
/// and the position in the quote token fits.
pub proof fn law_settlement_succeeds(
    state: Settlement,
    accounts: Seq<AccountInfo>,
    replies: Seq<MangoResult<()>>,
    after: Seq<MangoResult<OpenOrders>>,
)
    requires
        forall|m: int|
            state.market <= m < NUM_MARKETS ==> #[trigger] can_settle(
                state,
                accounts,
                replies,
                after,
                m,
            ),
        state.margin_account.positions[NUM_MARKETS as int] + all_quote_left(
            accounts,
            after,
            state.market as int,
        ) <= u64::MAX,
    ensures
        settlement_ended(state, accounts, replies, after) is Ok,
    decreases NUM_MARKETS - state.market,
{
    let from = state.market as int;
    let margin = state.margin_account;
    assert forall|m: int| from <= m < NUM_MARKETS implies #[trigger] orders_before(
        margin,
        accounts,
        m,
    ) is Ok by {
        assert(can_settle(state, accounts, replies, after, m));
    }
    lemma_next_market_found(state, accounts, from);
    lemma_passed_over(margin, accounts, after, from);
    let market = next_market(margin, accounts, from)->Ok_0;
    if market < NUM_MARKETS {
        assert(can_settle(state, accounts, replies, after, market));
        assert forall|m: int| market + 1 <= m < NUM_MARKETS implies #[trigger] quote_left(
            accounts,
            after,
            m,
        ) >= 0 by {
            assert(can_settle(state, accounts, replies, after, m));
        }
        lemma_all_quote_left(accounts, after, market + 1);
        assert(all_quote_left(accounts, after, market) == quote_left(accounts, after, market)
            + all_quote_left(accounts, after, market + 1));
        let at = Settlement { market: market as usize, ..state };
        assert(market_settled(at, accounts, replies[market], after[market]) is Ok);
        let next = market_settled(at, accounts, replies[market], after[market])->Ok_0;
        law_settlement_conserves(at, accounts, replies[market], after[market]);
        assert forall|m: int| next.market <= m < NUM_MARKETS implies #[trigger] can_settle(
            next,
            accounts,
            replies,
            after,
            m,
        ) by {
            assert(can_settle(state, accounts, replies, after, m));
            assert(next.margin_account.positions[m] == margin.positions[m]);
        }
        law_settlement_succeeds(next, accounts, replies, after);
    }
}

/// Settling again, right after a settlement that left nothing free, makes no call
/// and keeps the margin account. `again` are the accounts of the first request with
/// what it stored, and `again_indexes` the indexes at the time of the second.
pub proof fn law_settling_again(
    program_id: Pubkey,
    accounts: Seq<AccountInfo>,
    indexes: MangoResult<[MangoIndex; NUM_TOKENS]>,
    replies: Seq<MangoResult<()>>,
    after: Seq<MangoResult<OpenOrders>>,
    again: Seq<AccountInfo>,
    again_indexes: MangoResult<[MangoIndex; NUM_TOKENS]>,
)
    requires
        settlement_asked(program_id, accounts, indexes) is Ok,
        settlement_ended(
            settlement_asked(program_id, accounts, indexes)->Ok_0,
            accounts,
            replies,
            after,
        ) is Ok,
        again.len() == accounts.len(),
        forall|i: int|
            #![trigger again[i]]
            0 <= i < accounts.len() ==> again[i].key == accounts[i].key && again[i].owner
                == accounts[i].owner && again[i].is_signer == accounts[i].is_signer,
        ({
            let update = settlement_ended(
                settlement_asked(program_id, accounts, indexes)->Ok_0,
                accounts,
                replies,
                after,
            )->Ok_0;
            &&& again[0].mango_group == Ok::<MangoGroup, MangoError>(update.mango_group->0)
            &&& again[2].margin_account == Ok::<MarginAccount, MangoError>(
                update.margin_account->0,
            )
        }),
        forall|m: int|
            #![trigger again[8 + m]]
            0 <= m < NUM_MARKETS ==> (again[8 + m].open_orders matches Ok(orders) && nothing_free(
                orders,
            )),
        clock_read(again[3]) is Ok,
        again_indexes is Ok,
    ensures
        settlement_asked(program_id, again, again_indexes) matches Ok(state) && settlement_next(
            state,
            again,
        ) == Ok::<SettlementStepView, Failure>(
            SettlementStepView::Done(
                stored(current_group(again, again_indexes), again[2].margin_account->Ok_0),
            ),
        ),
{
    let first = settlement_asked(program_id, accounts, indexes)->Ok_0;
    law_settlement_ends(first, accounts, replies, after);
    let state = settlement_asked(program_id, again, again_indexes)->Ok_0;
    assert(again[0].key == accounts[0].key);
    assert(again[1].key == accounts[1].key);
    let margin = state.margin_account;
    assert forall|m: int| 0 <= m < NUM_MARKETS implies #[trigger] orders_before(
        margin,
        again,
        m,
    ) is Ok && nothing_free(orders_before(margin, again, m)->Ok_0) by {
        assert(accounts[8 + m].key == first.margin_account.open_orders[m]);
        assert(again[8 + m].key == accounts[8 + m].key);
    }
    lemma_next_market_found(state, again, 0);
    lemma_passed_over(margin, again, after, 0);
}

/// A liquidation starts only on an account with liabilities whose collateral ratio
/// is below the maintenance ratio, for deposits that bring it to the initial ratio.
/// The liquidator signed.
pub proof fn law_liquidation_warranted(
    program_id: Pubkey,
    accounts: Seq<AccountInfo>,
    quantities: [u64; NUM_TOKENS],
    indexes: MangoResult<[MangoIndex; NUM_TOKENS]>,
)
    requires
        liquidation_asked(program_id, accounts, quantities, indexes) is Ok,
    ensures
        ({
            let state = liquidation_asked(program_id, accounts, quantities, indexes)->Ok_0;
            let group = state.mango_group;
            let open_orders = accounts.subrange(5, 5 + NUM_MARKETS);
            let prices = token_prices(
                group,
                accounts.subrange(
                    5 + 2 * NUM_MARKETS + 2 * NUM_TOKENS,
                    5 + 2 * NUM_MARKETS + 3 * NUM_TOKENS,
                ),
                accounts.subrange(5 + NUM_MARKETS, 5 + 2 * NUM_MARKETS),
            )->Ok_0;
            let assets = state.margin_account.assets(group, prices, open_orders)->Ok_0;
            let liabs = state.margin_account.liabs(group, prices)->Ok_0;
            let offered = offered_value(prices, quantities, NUM_TOKENS as nat)->Ok_0;
            &&& accounts[1].is_signer
            &&& liabs.bits > 0
            &&& state.margin_account.collateral_ratio(group, prices, open_orders) matches Ok(ratio)
                && ratio.bits < group.maint_coll_ratio.bits
            &&& sum(assets, offered) matches Some(total) && quotient(total, liabs) matches Some(
                ratio,
            ) && ratio.bits >= group.init_coll_ratio.bits
        }),
{
}

/// Where a liquidation ends when every transfer succeeds.
pub open spec fn liquidated(state: Liquidation, accounts: Seq<AccountInfo>) -> Result<
    UpdateView,
    Failure,
>
    decreases NUM_TOKENS - state.token,
{
    match liquidation_next(state, accounts) {
        LiquidationStepView::Done(update) => Ok(update),
        LiquidationStepView::Transfer(_, paying) => if paying.token < state.token
            || paying.token >= NUM_TOKENS {
            Err(Failure::Aborted)
        } else {
            match liquidation_paid(paying, Ok(())) {
                Err(e) => Err(e),
                Ok(next) => liquidated(next, accounts),
            }
        },
    }
}

pub(crate) proof fn lemma_next_deposit(quantities: [u64; NUM_TOKENS], from: int)
    requires
        0 <= from,
    ensures
        next_deposit(quantities, from) >= from || next_deposit(quantities, from) == NUM_TOKENS,
        next_deposit(quantities, from) <= NUM_TOKENS,
        forall|t: int|
            from <= t < next_deposit(quantities, from) ==> #[trigger] quantities[t] == 0,
        next_deposit(quantities, from) < NUM_TOKENS ==> quantities[next_deposit(quantities, from)]
            != 0,
    decreases NUM_TOKENS - from,
{
    if from < NUM_TOKENS && quantities[from] == 0 {
        lemma_next_deposit(quantities, from + 1);
    }
}

/// A liquidation that ends makes the liquidator the owner and credits every token
/// that was still to be paid: the account and the group gain the indexed amount of
/// its quantity. Positions, borrows and what the accounts were set up with, but for
/// the owner, stay the same.
pub proof fn law_liquidation_credits(state: Liquidation, accounts: Seq<AccountInfo>)
    requires
        liquidated(state, accounts) is Ok,
    ensures
        ({
            let update = liquidated(state, accounts)->Ok_0;
            let group = update.mango_group->0;
            let margin = update.margin_account->0;
            &&& update.mango_group is Some
            &&& update.margin_account is Some
            &&& margin.owner == accounts[1].key
            &&& margin == (MarginAccount {
                owner: margin.owner,
                deposits: margin.deposits,
                ..state.margin_account
            })
            &&& group == (MangoGroup { total_deposits: group.total_deposits, ..state.mango_group })
            &&& others_kept((state.mango_group, state.margin_account), (group, margin))
            &&& forall|t: int|
                #![trigger margin.deposits[t]]
                0 <= t < NUM_TOKENS ==> margin.deposits[t].bits
                    - state.margin_account.deposits[t].bits == (if t < state.token
                    || state.deposit_quantities[t] == 0 {
                    0
                } else {
                    indexed(
                        state.deposit_quantities[t],
                        state.mango_group.indexes[t].deposit,
                    )->Ok_0.bits as int
                })
        }),
    decreases NUM_TOKENS - state.token,
{
    lemma_next_deposit(state.deposit_quantities, state.token as int);
    if let LiquidationStepView::Transfer(_, paying) = liquidation_next(state, accounts) {
        let next = liquidation_paid(paying, Ok(()))->Ok_0;
        law_liquidation_credits(next, accounts);
        let update = liquidated(state, accounts)->Ok_0;
        let before = (state.mango_group, state.margin_account);
        let between = (next.mango_group, next.margin_account);
        let after = (update.mango_group->0, update.margin_account->0);
        assert forall|token: int| 0 <= token < NUM_TOKENS implies {
            &&& #[trigger] other_deposits(after.0, after.1, token) == other_deposits(
                before.0,
                before.1,
                token,
            )
            &&& other_borrows(after.0, after.1, token) == other_borrows(before.0, before.1, token)
        } by {
            assert(other_deposits(after.0, after.1, token) == other_deposits(
                between.0,
                between.1,
                token,
            ));
        }
    }
}

/// A group that was set up is accepted by later requests, and cannot be set up
/// again.
pub proof fn law_group_set_up_once(
    program_id: Pubkey,
    accounts: Seq<AccountInfo>,
    signer_nonce: u64,
    maint_coll_ratio: U64F64,
    init_coll_ratio: U64F64,
    acc: AccountInfo,
    again: Seq<AccountInfo>,
    other_nonce: u64,
    other_maint: U64F64,
    other_init: U64F64,
)
    requires
        group_init(program_id, accounts, signer_nonce, maint_coll_ratio, init_coll_ratio) is Ok,
        acc.owner == program_id,
        acc.mango_group == Ok::<MangoGroup, MangoError>(
            group_init(
                program_id,
                accounts,
                signer_nonce,
                maint_coll_ratio,
                init_coll_ratio,
            )->Ok_0.mango_group->0,
        ),
        again.len() > 0,
        again[0] == acc,
    ensures
        MangoGroup::loaded(acc, program_id) is Ok,
        group_init(program_id, again, other_nonce, other_maint, other_init) is Err,
{
}

/// A margin account that was set up is accepted by later requests of its group and
/// its owner, and cannot be set up again.
pub proof fn law_margin_set_up_once(
    program_id: Pubkey,
    accounts: Seq<AccountInfo>,
    acc: AccountInfo,
    again: Seq<AccountInfo>,
)
    requires
        margin_init(program_id, accounts) is Ok,
        acc.margin_account == Ok::<MarginAccount, MangoError>(
            margin_init(program_id, accounts)->Ok_0.margin_account->0,
        ),
        again.len() > 1,
        again[1] == acc,
    ensures
        MarginAccount::loaded(acc, accounts[0].key) is Ok,
        owner_checked(acc.margin_account->Ok_0, accounts[2]) is Ok,
        margin_init(program_id, again) is Err,
{
}

/// A new margin account holds nothing and owes nothing.
pub proof fn law_new_margin_empty(program_id: Pubkey, accounts: Seq<AccountInfo>, token: int)
    requires
        margin_init(program_id, accounts) is Ok,
        0 <= token < NUM_TOKENS,
    ensures
        ({
            let margin = margin_init(program_id, accounts)->Ok_0.margin_account->0;
            &&& margin.deposits[token].bits == 0
            &&& margin.borrows[token].bits == 0
            &&& margin.positions[token] == 0
        }),
{
}

/// There is a price for every token, and that of the quote token is one.
pub proof fn law_quote_price_is_one(
    group: MangoGroup,
    mints: Seq<AccountInfo>,
    oracles: Seq<AccountInfo>,
)
    requires
        token_prices(group, mints, oracles) is Ok,
    ensures
        token_prices(group, mints, oracles)->Ok_0.len() == NUM_TOKENS,
        token_prices(group, mints, oracles)->Ok_0[NUM_MARKETS as int] == whole(1),
{
    let quote_adj = quote_scale(group, mints)->Ok_0;
    reveal_with_fuel(market_prices, 3);
    assert(market_prices(group, mints, oracles, quote_adj, NUM_MARKETS as nat)->Ok_0.len()
        == NUM_MARKETS);
}

} // verus!
