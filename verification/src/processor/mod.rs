//! The instructions of the program.

use vstd::prelude::*;

use crate::error::{check_assert, or_answer, or_refuse, refused, unmet};
use crate::error::{Check, Failure, MangoResult};
use crate::fixed_point::U64F64;
use crate::instruction::{transfer, transfer_instruction, SignerSeeds};
use crate::instruction::{Invocation, InvocationView};
use crate::state::{AccountInfo, MangoGroup, MangoIndex, MarginAccount, Pubkey};
use crate::state::{NUM_MARKETS, NUM_TOKENS};
use crate::sysvar::{clock_read, read_clock};
use crate::token::token_program_id;
use crate::valuation::{check_open_orders, open_orders_checked};

pub mod borrow;
pub mod deposit;
pub mod init;
pub mod liquidate;
pub mod order;
pub mod process;
pub mod settle;
pub mod withdraw;

verus! {

/// Carries out the instructions of the program.
pub struct Processor {}

/// What a granted request leads to. First the invocation is made, and where it
/// fails the request fails with its error. Then the new contents of the group and
/// of the margin account are stored.
#[derive(PartialEq, Eq, Debug)]
pub struct Update {
    pub invocation: Option<Invocation>,
    pub mango_group: Option<MangoGroup>,
    pub margin_account: Option<MarginAccount>,
}

/// What an update says.
#[verifier::ext_equal]
pub struct UpdateView {
    pub invocation: Option<InvocationView>,
    pub mango_group: Option<MangoGroup>,
    pub margin_account: Option<MarginAccount>,
}

impl View for Update {
    type V = UpdateView;

    open spec fn view(&self) -> UpdateView {
        UpdateView {
            invocation: match self.invocation {
                Some(invocation) => Some(invocation@),
                None => None,
            },
            mango_group: self.mango_group,
            margin_account: self.margin_account,
        }
    }
}

/// What the outcome of a request says.
pub open spec fn outcome(r: Result<Update, Failure>) -> Result<UpdateView, Failure> {
    match r {
        Ok(update) => Ok(update@),
        Err(e) => Err(e),
    }
}

/// An update of the group and the margin account without an invocation.
pub open spec fn stored(group: MangoGroup, margin: MarginAccount) -> UpdateView {
    UpdateView { invocation: None, mango_group: Some(group), margin_account: Some(margin) }
}

/// An update of the group and the margin account after an invocation.
pub open spec fn invoked(
    group: MangoGroup,
    margin: MarginAccount,
    invocation: InvocationView,
) -> UpdateView {
    UpdateView {
        invocation: Some(invocation),
        mango_group: Some(group),
        margin_account: Some(margin),
    }
}

/// The group and the margin account of a request.
pub open spec fn entered(
    program_id: Pubkey,
    group_acc: AccountInfo,
    margin_acc: AccountInfo,
) -> Result<(MangoGroup, MarginAccount), Failure> {
    match MangoGroup::loaded(group_acc, program_id) {
        Err(e) => Err(e),
        Ok(group) => match MarginAccount::loaded(margin_acc, group_acc.key) {
            Err(e) => Err(e),
            Ok(margin) => Ok((group, margin)),
        },
    }
}

pub(crate) fn enter(
    program_id: &Pubkey,
    group_acc: &AccountInfo,
    margin_acc: &AccountInfo,
) -> (r: Result<(MangoGroup, MarginAccount), Failure>)
    ensures
        r == entered(*program_id, *group_acc, *margin_acc),
{
    let group = MangoGroup::load_checked(group_acc, program_id)?;
    let margin = MarginAccount::load_checked(margin_acc, &group_acc.key)?;
    Ok((group, margin))
}

/// What bringing the indexes of a group up to date gives. The clock can be read,
/// and `indexes` are those that interest up to its time leads to.
pub open spec fn accrued(
    group: MangoGroup,
    clock_acc: AccountInfo,
    indexes: MangoResult<[MangoIndex; NUM_TOKENS]>,
) -> Result<MangoGroup, Failure> {
    match clock_read(clock_acc) {
        Err(e) => Err(e),
        Ok(_) => match refused(indexes) {
            Err(e) => Err(e),
            Ok(indexes) => Ok(MangoGroup { indexes, ..group }),
        },
    }
}

pub(crate) fn accrue(
    group: MangoGroup,
    clock_acc: &AccountInfo,
    indexes: MangoResult<[MangoIndex; NUM_TOKENS]>,
) -> (r: Result<MangoGroup, Failure>)
    ensures
        r == accrued(group, *clock_acc, indexes),
{
    read_clock(clock_acc)?;
    let mut group = group;
    group.indexes = or_refuse(indexes)?;
    Ok(group)
}

/// Whether the owner of the margin account asks.
pub open spec fn owner_checked(margin: MarginAccount, owner: AccountInfo) -> Result<(), Failure> {
    if !owner.is_signer {
        Err(unmet(Check::OwnerSigned))
    } else if margin.owner != owner.key {
        Err(unmet(Check::OwnerKey))
    } else {
        Ok(())
    }
}

pub(crate) fn check_owner(margin: &MarginAccount, owner: &AccountInfo) -> (r: Result<
    (),
    Failure,
>)
    ensures
        r == owner_checked(*margin, *owner),
{
    check_assert(owner.is_signer, Check::OwnerSigned)?;
    check_assert(margin.owner == owner.key, Check::OwnerKey)
}

/// The outcome of checking the first `n` open orders accounts: each is the one
/// that the margin account records, and passes its own check.
pub open spec fn orders_checked(
    margin: MarginAccount,
    open_orders: Seq<AccountInfo>,
    owner: Pubkey,
    n: nat,
) -> Result<(), Failure>
    decreases n,
{
    if n == 0 {
        Ok(())
    } else {
        match orders_checked(margin, open_orders, owner, (n - 1) as nat) {
            Err(e) => Err(e),
            Ok(_) => if open_orders[n - 1].key != margin.open_orders[n - 1] {
                Err(unmet(Check::OpenOrdersKey))
            } else {
                open_orders_checked(open_orders[n - 1], owner)
            },
        }
    }
}

proof fn lemma_orders_checked_fail(
    margin: MarginAccount,
    open_orders: Seq<AccountInfo>,
    owner: Pubkey,
    k: nat,
    n: nat,
)
    requires
        k <= n,
        orders_checked(margin, open_orders, owner, k) is Err,
    ensures
        orders_checked(margin, open_orders, owner, n) == orders_checked(
            margin,
            open_orders,
            owner,
            k,
        ),
    decreases n,
{
    if k < n {
        lemma_orders_checked_fail(margin, open_orders, owner, k, (n - 1) as nat);
    }
}

/// Checks all open orders accounts.
pub(crate) fn check_all_open_orders(
    margin: &MarginAccount,
    open_orders: &[AccountInfo],
    owner: &Pubkey,
) -> (r: Result<(), Failure>)
    requires
        open_orders@.len() >= NUM_MARKETS,
    ensures
        r == orders_checked(*margin, open_orders@, *owner, NUM_MARKETS as nat),
{
    let mut i: usize = 0;
    while i < NUM_MARKETS
        invariant
            i <= NUM_MARKETS <= open_orders@.len(),
            orders_checked(*margin, open_orders@, *owner, i as nat) is Ok,
        decreases NUM_MARKETS - i,
    {
        let next = match check_assert(
            open_orders[i].key == margin.open_orders[i],
            Check::OpenOrdersKey,
        ) {
            Ok(_) => check_open_orders(&open_orders[i], owner),
            Err(e) => Err(e),
        };
        proof {
            if next is Err {
                lemma_orders_checked_fail(
                    *margin,
                    open_orders@,
                    *owner,
                    (i + 1) as nat,
                    NUM_MARKETS as nat,
                );
            }
        }
        next?;
        i += 1;
    }
    Ok(())
}

/// Whether the account reaches the initial collateral ratio of the group.
pub open spec fn collateral_checked(
    group: MangoGroup,
    margin: MarginAccount,
    prices: Seq<U64F64>,
    open_orders: Seq<AccountInfo>,
) -> Result<(), Failure> {
    match margin.collateral_ratio(group, prices, open_orders) {
        Err(e) => Err(e),
        Ok(ratio) => if ratio.bits >= group.init_coll_ratio.bits {
            Ok(())
        } else {
            Err(unmet(Check::CollateralRatio))
        },
    }
}

pub(crate) fn check_collateral(
    group: &MangoGroup,
    margin: &MarginAccount,
    prices: &[U64F64; NUM_TOKENS],
    open_orders: &[AccountInfo],
) -> (r: Result<(), Failure>)
    requires
        open_orders@.len() >= NUM_MARKETS,
    ensures
        r == collateral_checked(*group, *margin, prices@, open_orders@),
{
    let ratio = margin.get_collateral_ratio(group, prices, open_orders)?;
    check_assert(ratio.bits >= group.init_coll_ratio.bits, Check::CollateralRatio)
}

/// Whether the deposits of a token cover its borrows.
pub open spec fn coverage_checked(group: MangoGroup, token: int) -> Result<(), Failure> {
    match group.deposits_cover_borrows(token) {
        Err(e) => Err(e),
        Ok(covered) => if covered {
            Ok(())
        } else {
            Err(unmet(Check::DepositsCoverBorrows))
        },
    }
}

pub(crate) fn check_coverage(group: &MangoGroup, token: usize) -> (r: Result<(), Failure>)
    requires
        token < NUM_TOKENS,
    ensures
        r == coverage_checked(*group, token as int),
{
    check_assert(group.has_valid_deposits_borrows(token)?, Check::DepositsCoverBorrows)
}

/// The invocation that moves tokens.
pub open spec fn transfer_invocation(
    source: Pubkey,
    destination: Pubkey,
    authority: Pubkey,
    amount: u64,
    token_prog: Pubkey,
    signer_seeds: Option<SignerSeeds>,
) -> InvocationView {
    InvocationView {
        instruction: transfer_instruction(source, destination, authority, amount),
        accounts: seq![source, destination, authority, token_prog],
        signer_seeds,
    }
}

pub(crate) fn invoke_transfer(
    source: Pubkey,
    destination: Pubkey,
    authority: Pubkey,
    amount: u64,
    token_prog: Pubkey,
    signer_seeds: Option<SignerSeeds>,
) -> (r: Result<Invocation, Failure>)
    ensures
        r is Ok,
        r->Ok_0@ == transfer_invocation(
            source,
            destination,
            authority,
            amount,
            token_prog,
            signer_seeds,
        ),
{
    let instruction = or_answer(
        transfer(&token_program_id(), &source, &destination, &authority, amount),
    )?;
    let accounts: Vec<Pubkey> = vec![source, destination, authority, token_prog];
    Ok(Invocation { instruction, accounts, signer_seeds })
}

} // verus!
