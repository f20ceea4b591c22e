//! Withdrawing tokens from a margin account.

use vstd::prelude::*;
use vstd::slice::slice_subrange;

use crate::error::{check_assert, or_abort, unmet};
use crate::error::{Check, Failure, MangoResult};
use crate::fixed_point::difference;
use crate::instruction::{gen_signer_seeds, SignerSeeds};
use crate::prices::{get_prices, token_prices};
use crate::processor::{accrue, accrued, check_all_open_orders, check_collateral, check_coverage};
use crate::processor::{check_owner, collateral_checked, coverage_checked, enter, entered};
use crate::processor::{invoke_transfer, invoked, orders_checked, outcome, owner_checked};
use crate::processor::{transfer_invocation, Processor, Update, UpdateView};
use crate::state::{indexed, to_indexed, AccountInfo, MangoGroup, MangoIndex, MarginAccount};
use crate::state::{Pubkey, NUM_MARKETS, NUM_TOKENS};

verus! {

/// The native amount of a token that can be withdrawn: the position and the
/// deposit.
pub open spec fn available(group: MangoGroup, margin: MarginAccount, token: int) -> Result<
    u64,
    Failure,
> {
    match margin.native_deposit(group.indexes[token], token) {
        Err(e) => Err(e),
        Ok(deposit) => if deposit + margin.positions[token] <= u64::MAX {
            Ok((deposit + margin.positions[token]) as u64)
        } else {
            Err(Failure::Aborted)
        },
    }
}

fn to_available(group: &MangoGroup, margin: &MarginAccount, token: usize) -> (r: Result<
    u64,
    Failure,
>)
    requires
        token < NUM_TOKENS,
    ensures
        r == available(*group, *margin, token as int),
{
    let deposit = margin.get_native_deposit(&group.indexes[token], token)?;
    or_abort(deposit.checked_add(margin.positions[token]))
}

/// The accounts after a withdrawal: it is taken from the position, and what the
/// position lacks from the deposit.
pub open spec fn debited(
    group: MangoGroup,
    margin: MarginAccount,
    token: int,
    quantity: u64,
) -> Result<(MangoGroup, MarginAccount), Failure> {
    let position = margin.positions[token];
    if position >= quantity {
        Ok((group, margin.with_position(token, (position - quantity) as u64)))
    } else {
        match indexed((quantity - position) as u64, group.indexes[token].deposit) {
            Err(e) => Err(e),
            Ok(amount) => match (
                difference(margin.deposits[token], amount),
                difference(group.total_deposits[token], amount),
            ) {
                (Some(deposit), Some(total)) => Ok(
                    (
                        group.with_total_deposit(token, total),
                        margin.with_position(token, 0).with_deposit(token, deposit),
                    ),
                ),
                _ => Err(Failure::Aborted),
            },
        }
    }
}

fn debit(group: MangoGroup, margin: MarginAccount, token: usize, quantity: u64) -> (r: Result<
    (MangoGroup, MarginAccount),
    Failure,
>)
    requires
        token < NUM_TOKENS,
    ensures
        r == debited(group, margin, token as int, quantity),
{
    let mut group = group;
    let mut margin = margin;
    let position = margin.positions[token];
    if position >= quantity {
        margin.positions[token] = position - quantity;
    } else {
        margin.positions[token] = 0;
        let withdrew = to_indexed(quantity - position, group.indexes[token].deposit)?;
        margin.deposits[token] = or_abort(margin.deposits[token].checked_sub(withdrew))?;
        group.total_deposits[token] = or_abort(group.total_deposits[token].checked_sub(withdrew))?;
    }
    Ok((group, margin))
}

/// The accounts after a withdrawal that is granted. Position and deposit suffice.
/// Afterwards the account reaches the initial collateral ratio, and the deposits
/// of the token cover its borrows.
pub open spec fn withdrawn(
    group: MangoGroup,
    margin: MarginAccount,
    open_orders: Seq<AccountInfo>,
    oracles: Seq<AccountInfo>,
    mints: Seq<AccountInfo>,
    token: int,
    quantity: u64,
) -> Result<(MangoGroup, MarginAccount), Failure> {
    match available(group, margin, token) {
        Err(e) => Err(e),
        Ok(available) => if available < quantity {
            Err(unmet(Check::Available))
        } else {
            match token_prices(group, mints, oracles) {
                Err(e) => Err(e),
                Ok(prices) => match debited(group, margin, token, quantity) {
                    Err(e) => Err(e),
                    Ok((group, margin)) => match collateral_checked(
                        group,
                        margin,
                        prices,
                        open_orders,
                    ) {
                        Err(e) => Err(e),
                        Ok(_) => match coverage_checked(group, token) {
                            Err(e) => Err(e),
                            Ok(_) => Ok((group, margin)),
                        },
                    },
                },
            }
        },
    }
}

/// The outcome of a request to withdraw. Its accounts are: the group, the margin
/// account, the owner, the token account to pay to, the vault, the signer of the
/// group, the token program, the clock, the open orders, the oracles and the
/// mints.
///
/// The owner asks, the open orders are those of the account and owned by the
/// signer, and the vault is that of the token. The tokens go out of the vault,
/// signed for the group.
pub open spec fn withdrawal(
    program_id: Pubkey,
    accounts: Seq<AccountInfo>,
    token_index: usize,
    quantity: u64,
    indexes: MangoResult<[MangoIndex; NUM_TOKENS]>,
) -> Result<UpdateView, Failure> {
    if accounts.len() < 8 + 2 * NUM_MARKETS + NUM_TOKENS {
        Err(Failure::Aborted)
    } else {
        let vault = accounts[4].key;
        let signer = accounts[5].key;
        let open_orders = accounts.subrange(8, 8 + NUM_MARKETS);
        let oracles = accounts.subrange(8 + NUM_MARKETS, 8 + 2 * NUM_MARKETS);
        let mints = accounts.subrange(8 + 2 * NUM_MARKETS, 8 + 2 * NUM_MARKETS + NUM_TOKENS);
        match entered(program_id, accounts[0], accounts[1]) {
            Err(e) => Err(e),
            Ok((group, margin)) => match owner_checked(margin, accounts[2]) {
                Err(e) => Err(e),
                Ok(_) => match orders_checked(margin, open_orders, signer, NUM_MARKETS as nat) {
                    Err(e) => Err(e),
                    Ok(_) => if token_index >= NUM_TOKENS {
                        Err(Failure::Aborted)
                    } else if group.vaults[token_index as int] != vault {
                        Err(unmet(Check::VaultKey))
                    } else {
                        match accrued(group, accounts[7], indexes) {
                            Err(e) => Err(e),
                            Ok(group) => match withdrawn(
                                group,
                                margin,
                                open_orders,
                                oracles,
                                mints,
                                token_index as int,
                                quantity,
                            ) {
                                Err(e) => Err(e),
                                Ok((group, margin)) => Ok(
                                    invoked(
                                        group,
                                        margin,
                                        transfer_invocation(
                                            vault,
                                            accounts[3].key,
                                            signer,
                                            quantity,
                                            accounts[6].key,
                                            Some(
                                                SignerSeeds {
                                                    key: accounts[0].key,
                                                    nonce: group.signer_nonce,
                                                },
                                            ),
                                        ),
                                    ),
                                ),
                            },
                        }
                    },
                },
            },
        }
    }
}

impl Processor {
    /// Withdraws tokens.
    pub fn withdraw(
        program_id: &Pubkey,
        accounts: &[AccountInfo],
        token_index: usize,
        quantity: u64,
        indexes: MangoResult<[MangoIndex; NUM_TOKENS]>,
    ) -> (r: Result<Update, Failure>)
        ensures
            outcome(r) == withdrawal(*program_id, accounts@, token_index, quantity, indexes),
    {
        if accounts.len() < 8 + 2 * NUM_MARKETS + NUM_TOKENS {
            return Err(Failure::Aborted);
        }
        let open_orders_accs = slice_subrange(accounts, 8, 8 + NUM_MARKETS);
        let oracle_accs = slice_subrange(accounts, 8 + NUM_MARKETS, 8 + 2 * NUM_MARKETS);
        let mint_accs = slice_subrange(
            accounts,
            8 + 2 * NUM_MARKETS,
            8 + 2 * NUM_MARKETS + NUM_TOKENS,
        );
        let mango_group_acc = &accounts[0];
        let vault_acc = &accounts[4];
        let signer_acc = &accounts[5];

        let (group, margin) = enter(program_id, mango_group_acc, &accounts[1])?;
        check_owner(&margin, &accounts[2])?;
        check_all_open_orders(&margin, open_orders_accs, &signer_acc.key)?;
        if token_index >= NUM_TOKENS {
            return Err(Failure::Aborted);
        }
        check_assert(group.vaults[token_index] == vault_acc.key, Check::VaultKey)?;
        let group = accrue(group, &accounts[7], indexes)?;

        let available = to_available(&group, &margin, token_index)?;
        check_assert(available >= quantity, Check::Available)?;
        let prices = get_prices(&group, mint_accs, oracle_accs)?;
        let (group, margin) = debit(group, margin, token_index, quantity)?;
        check_collateral(&group, &margin, &prices, open_orders_accs)?;
        check_coverage(&group, token_index)?;

        let seeds = gen_signer_seeds(&group.signer_nonce, &mango_group_acc.key);
        let invocation = invoke_transfer(
            vault_acc.key,
            accounts[3].key,
            signer_acc.key,
            quantity,
            accounts[6].key,
            Some(seeds),
        )?;
        Ok(
            Update {
                invocation: Some(invocation),
                mango_group: Some(group),
                margin_account: Some(margin),
            },
        )
    }
}

} // verus!
