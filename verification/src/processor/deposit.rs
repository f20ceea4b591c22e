//! Depositing tokens into a margin account.

use vstd::prelude::*;

use crate::error::{check_assert, or_abort, or_refuse, refused, unmet};
use crate::error::{Check, Failure, MangoResult};
use crate::fixed_point::sum;
use crate::instruction::{Invocation, InvocationView};
use crate::processor::{accrue, accrued, enter, entered, invoke_transfer, outcome, stored};
use crate::processor::{transfer_invocation, Processor, Update, UpdateView};
use crate::state::{indexed, position, to_indexed, AccountInfo, MangoGroup, MangoIndex};
use crate::state::{MarginAccount, Pubkey, NUM_TOKENS};

verus! {

/// A deposit whose tokens are on their way to the vault.
#[derive(Clone, Copy, PartialEq, Eq, Debug)]
pub struct PendingDeposit {
    pub mango_group: MangoGroup,
    pub margin_account: MarginAccount,
    pub token_index: usize,
    pub quantity: u64,
}

/// A pending deposit with what its invocation says.
pub open spec fn pending_view(r: Result<(Invocation, PendingDeposit), Failure>) -> Result<
    (InvocationView, PendingDeposit),
    Failure,
> {
    match r {
        Ok((invocation, pending)) => Ok((invocation@, pending)),
        Err(e) => Err(e),
    }
}

/// What a request to deposit leads to. Its accounts are: the group, the margin
/// account, the owner of the tokens, the mint, the token account to take from, the
/// vault, the token program and the clock. Anyone may deposit.
///
/// The mint is that of a token of the group, and the vault is that of the token.
/// The tokens are to go to the vault.
pub open spec fn deposit_asked(
    program_id: Pubkey,
    accounts: Seq<AccountInfo>,
    quantity: u64,
    indexes: MangoResult<[MangoIndex; NUM_TOKENS]>,
) -> Result<(InvocationView, PendingDeposit), Failure> {
    if accounts.len() < 8 {
        Err(Failure::Aborted)
    } else {
        match entered(program_id, accounts[0], accounts[1]) {
            Err(e) => Err(e),
            Ok((group, margin)) => match position(group.tokens@, accounts[3].key, 0) {
                None => Err(Failure::Aborted),
                Some(token_index) => if group.vaults[token_index as int] != accounts[5].key {
                    Err(unmet(Check::VaultKey))
                } else {
                    match accrued(group, accounts[7], indexes) {
                        Err(e) => Err(e),
                        Ok(group) => Ok(
                            (
                                transfer_invocation(
                                    accounts[4].key,
                                    accounts[5].key,
                                    accounts[2].key,
                                    quantity,
                                    accounts[6].key,
                                    None,
                                ),
                                PendingDeposit {
                                    mango_group: group,
                                    margin_account: margin,
                                    token_index,
                                    quantity,
                                },
                            ),
                        ),
                    }
                },
            },
        }
    }
}

/// The accounts with a native amount of a token deposited.
pub open spec fn credited(
    group: MangoGroup,
    margin: MarginAccount,
    token: int,
    quantity: u64,
) -> Result<(MangoGroup, MarginAccount), Failure> {
    match indexed(quantity, group.indexes[token].deposit) {
        Err(e) => Err(e),
        Ok(amount) => match (
            sum(margin.deposits[token], amount),
            sum(group.total_deposits[token], amount),
        ) {
            (Some(deposit), Some(total)) => Ok(
                (group.with_total_deposit(token, total), margin.with_deposit(token, deposit)),
            ),
            _ => Err(Failure::Aborted),
        },
    }
}

/// The outcome of a deposit, given the reply to its invocation.
pub open spec fn deposit_made(pending: PendingDeposit, reply: MangoResult<()>) -> Result<
    UpdateView,
    Failure,
> {
    match refused(reply) {
        Err(e) => Err(e),
        Ok(_) => match credited(
            pending.mango_group,
            pending.margin_account,
            pending.token_index as int,
            pending.quantity,
        ) {
            Err(e) => Err(e),
            Ok((group, margin)) => Ok(stored(group, margin)),
        },
    }
}

impl PendingDeposit {
    /// The token is one of the group.
    pub open spec fn wf(self) -> bool {
        self.token_index < NUM_TOKENS
    }

    /// Credits the deposit once its tokens have been moved.
    pub fn finish(self, reply: MangoResult<()>) -> (r: Result<Update, Failure>)
        requires
            self.wf(),
        ensures
            outcome(r) == deposit_made(self, reply),
    {
        or_refuse(reply)?;
        let mut group = self.mango_group;
        let mut margin = self.margin_account;
        let token = self.token_index;
        let deposit = to_indexed(self.quantity, group.indexes[token].deposit)?;
        margin.deposits[token] = or_abort(margin.deposits[token].checked_add(deposit))?;
        group.total_deposits[token] = or_abort(group.total_deposits[token].checked_add(deposit))?;
        Ok(Update { invocation: None, mango_group: Some(group), margin_account: Some(margin) })
    }
}

impl Processor {
    /// Checks a deposit and gives the invocation that moves its tokens.
    pub fn deposit(
        program_id: &Pubkey,
        accounts: &[AccountInfo],
        quantity: u64,
        indexes: MangoResult<[MangoIndex; NUM_TOKENS]>,
    ) -> (r: Result<(Invocation, PendingDeposit), Failure>)
        ensures
            pending_view(r) == deposit_asked(*program_id, accounts@, quantity, indexes),
            r matches Ok((_, pending)) ==> pending.wf(),
    {
        if accounts.len() < 8 {
            return Err(Failure::Aborted);
        }
        let vault_acc = &accounts[5];
        let (group, margin) = enter(program_id, &accounts[0], &accounts[1])?;
        let token_index = or_abort(group.get_token_index(&accounts[3].key))?;
        check_assert(group.vaults[token_index] == vault_acc.key, Check::VaultKey)?;
        let group = accrue(group, &accounts[7], indexes)?;
        let invocation = invoke_transfer(
            accounts[4].key,
            vault_acc.key,
            accounts[2].key,
            quantity,
            accounts[6].key,
            None,
        )?;
        Ok(
            (
                invocation,
                PendingDeposit {
                    mango_group: group,
                    margin_account: margin,
                    token_index,
                    quantity,
                },
            ),
        )
    }
}

} // verus!
