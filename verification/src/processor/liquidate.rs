//! Taking over a margin account that is short of collateral.

use vstd::prelude::*;
use vstd::slice::slice_subrange;

use crate::error::{check_assert, or_abort, or_refuse, present, refused, unmet};
use crate::error::{Check, Failure, MangoResult};
use crate::fixed_point::{product, quotient, sum, whole, U64F64};
use crate::instruction::{Invocation, InvocationView};
use crate::prices::{get_prices, token_prices};
use crate::processor::{accrue, accrued, check_all_open_orders, enter, entered, invoke_transfer};
use crate::processor::{orders_checked, stored, transfer_invocation};
use crate::processor::{Processor, Update, UpdateView};
use crate::state::{indexed, to_indexed, AccountInfo, MangoGroup, MangoIndex, MarginAccount};
use crate::state::{Pubkey, NUM_MARKETS, NUM_TOKENS};

verus! {

/// Number of accounts of a request to liquidate.
pub const LIQUIDATE_ACCOUNTS: usize = 5 + 2 * NUM_MARKETS + 3 * NUM_TOKENS;

/// A liquidation in progress: the deposits of the tokens before `token` have been
/// made.
#[derive(Clone, Copy, PartialEq, Eq, Debug)]
pub struct Liquidation {
    pub mango_group: MangoGroup,
    pub margin_account: MarginAccount,
    pub deposit_quantities: [u64; NUM_TOKENS],
    pub token: usize,
}

/// What a liquidation goes on with.
#[derive(PartialEq, Eq, Debug)]
pub enum LiquidationStep {
    /// The invocation that moves the deposit of the next token to its vault. Its
    /// reply is wanted before the liquidation goes on.
    Transfer(Invocation, Liquidation),
    /// All deposits are made.
    Done(Update),
}

/// What a step says.
pub enum LiquidationStepView {
    Transfer(InvocationView, Liquidation),
    Done(UpdateView),
}

impl View for LiquidationStep {
    type V = LiquidationStepView;

    open spec fn view(&self) -> LiquidationStepView {
        match *self {
            LiquidationStep::Transfer(invocation, state) => LiquidationStepView::Transfer(
                invocation@,
                state,
            ),
            LiquidationStep::Done(update) => LiquidationStepView::Done(update@),
        }
    }
}

/// A step that was taken, with what it says.
pub open spec fn liquidation_step_view(r: Result<LiquidationStep, Failure>) -> Result<
    LiquidationStepView,
    Failure,
> {
    match r {
        Ok(step) => Ok(step@),
        Err(e) => Err(e),
    }
}

/// The value of the first `n` offered deposits.
pub open spec fn offered_value(
    prices: Seq<U64F64>,
    quantities: [u64; NUM_TOKENS],
    n: nat,
) -> Result<U64F64, Failure>
    decreases n,
{
    if n == 0 {
        Ok(whole(0))
    } else {
        match offered_value(prices, quantities, (n - 1) as nat) {
            Err(e) => Err(e),
            Ok(before) => match product(prices[n - 1], whole(quantities[n - 1])) {
                None => Err(Failure::Aborted),
                Some(value) => present(sum(before, value)),
            },
        }
    }
}

proof fn lemma_offered_value_fail(
    prices: Seq<U64F64>,
    quantities: [u64; NUM_TOKENS],
    k: nat,
    n: nat,
)
    requires
        k <= n,
        offered_value(prices, quantities, k) is Err,
    ensures
        offered_value(prices, quantities, n) == offered_value(prices, quantities, k),
    decreases n,
{
    if k < n {
        lemma_offered_value_fail(prices, quantities, k, (n - 1) as nat);
    }
}

fn to_offered_value(prices: &[U64F64; NUM_TOKENS], quantities: &[u64; NUM_TOKENS]) -> (r: Result<
    U64F64,
    Failure,
>)
    ensures
        r == offered_value(prices@, *quantities, NUM_TOKENS as nat),
{
    let mut total = U64F64::from_num(0);
    let mut i: usize = 0;
    while i < NUM_TOKENS
        invariant
            i <= NUM_TOKENS,
            offered_value(prices@, *quantities, i as nat) == Ok::<U64F64, Failure>(total),
        decreases NUM_TOKENS - i,
    {
        let next = match prices[i].checked_mul(U64F64::from_num(quantities[i])) {
            Some(value) => or_abort(total.checked_add(value)),
            None => Err(Failure::Aborted),
        };
        proof {
            if next is Err {
                lemma_offered_value_fail(
                    prices@,
                    *quantities,
                    (i + 1) as nat,
                    NUM_TOKENS as nat,
                );
            }
        }
        total = next?;
        i += 1;
    }
    Ok(total)
}

/// Whether an account may be taken over for the offered deposits: it has
/// liabilities, its collateral ratio is below the maintenance ratio, and with the
/// deposits it reaches the initial ratio.
pub open spec fn takeover_checked(
    group: MangoGroup,
    margin: MarginAccount,
    prices: Seq<U64F64>,
    open_orders: Seq<AccountInfo>,
    quantities: [u64; NUM_TOKENS],
) -> Result<(), Failure> {
    match margin.assets(group, prices, open_orders) {
        Err(e) => Err(e),
        Ok(assets) => match margin.liabs(group, prices) {
            Err(e) => Err(e),
            Ok(liabs) => if liabs.bits == 0 {
                Err(unmet(Check::HasLiabilities))
            } else {
                match quotient(assets, liabs) {
                    None => Err(Failure::Aborted),
                    Some(ratio) => if ratio.bits >= group.maint_coll_ratio.bits {
                        Err(unmet(Check::BelowMaintenance))
                    } else {
                        restored_checked(group, prices, assets, liabs, quantities)
                    },
                }
            },
        },
    }
}

/// Whether the offered deposits restore the initial collateral ratio.
pub open spec fn restored_checked(
    group: MangoGroup,
    prices: Seq<U64F64>,
    assets: U64F64,
    liabs: U64F64,
    quantities: [u64; NUM_TOKENS],
) -> Result<(), Failure> {
    match offered_value(prices, quantities, NUM_TOKENS as nat) {
        Err(e) => Err(e),
        Ok(offered) => match sum(assets, offered) {
            None => Err(Failure::Aborted),
            Some(total) => match quotient(total, liabs) {
                None => Err(Failure::Aborted),
                Some(ratio) => if ratio.bits < group.init_coll_ratio.bits {
                    Err(unmet(Check::RestoresCollateral))
                } else {
                    Ok(())
                },
            },
        },
    }
}

fn check_takeover(
    group: &MangoGroup,
    margin: &MarginAccount,
    prices: &[U64F64; NUM_TOKENS],
    open_orders: &[AccountInfo],
    quantities: &[u64; NUM_TOKENS],
) -> (r: Result<(), Failure>)
    requires
        open_orders@.len() >= NUM_MARKETS,
    ensures
        r == takeover_checked(*group, *margin, prices@, open_orders@, *quantities),
{
    let assets = margin.get_assets_val(group, prices, open_orders)?;
    let liabs = margin.get_liabs_val(group, prices)?;
    check_assert(liabs.bits > 0, Check::HasLiabilities)?;
    let ratio = or_abort(assets.checked_div(liabs))?;
    check_assert(ratio.bits < group.maint_coll_ratio.bits, Check::BelowMaintenance)?;
    let offered = to_offered_value(prices, quantities)?;
    let total = or_abort(assets.checked_add(offered))?;
    let new_ratio = or_abort(total.checked_div(liabs))?;
    check_assert(new_ratio.bits >= group.init_coll_ratio.bits, Check::RestoresCollateral)
}

/// What a request to liquidate leads to. Its accounts are: the group, the
/// liquidator, the margin account, the token program, the clock, the open orders,
/// the oracles, the vaults, the token accounts of the liquidator and the mints.
///
/// The liquidator signed, the open orders are those of the account and owned by
/// it, and the account may be taken over.
pub open spec fn liquidation_asked(
    program_id: Pubkey,
    accounts: Seq<AccountInfo>,
    deposit_quantities: [u64; NUM_TOKENS],
    indexes: MangoResult<[MangoIndex; NUM_TOKENS]>,
) -> Result<Liquidation, Failure> {
    if accounts.len() < LIQUIDATE_ACCOUNTS {
        Err(Failure::Aborted)
    } else if !accounts[1].is_signer {
        Err(unmet(Check::LiqorSigned))
    } else {
        let open_orders = accounts.subrange(5, 5 + NUM_MARKETS);
        let oracles = accounts.subrange(5 + NUM_MARKETS, 5 + 2 * NUM_MARKETS);
        let mints = accounts.subrange(
            5 + 2 * NUM_MARKETS + 2 * NUM_TOKENS,
            5 + 2 * NUM_MARKETS + 3 * NUM_TOKENS,
        );
        match entered(program_id, accounts[0], accounts[2]) {
            Err(e) => Err(e),
            Ok((group, margin)) => match accrued(group, accounts[4], indexes) {
                Err(e) => Err(e),
                Ok(group) => match orders_checked(
                    margin,
                    open_orders,
                    accounts[2].key,
                    NUM_MARKETS as nat,
                ) {
                    Err(e) => Err(e),
                    Ok(_) => match token_prices(group, mints, oracles) {
                        Err(e) => Err(e),
                        Ok(prices) => match takeover_checked(
                            group,
                            margin,
                            prices,
                            open_orders,
                            deposit_quantities,
                        ) {
                            Err(e) => Err(e),
                            Ok(_) => Ok(
                                Liquidation {
                                    mango_group: group,
                                    margin_account: margin,
                                    deposit_quantities,
                                    token: 0,
                                },
                            ),
                        },
                    },
                },
            },
        }
    }
}

/// The first token at or after `from` with a quantity to deposit, or the number of
/// tokens.
pub open spec fn next_deposit(quantities: [u64; NUM_TOKENS], from: int) -> int
    decreases NUM_TOKENS - from,
{
    if from < 0 || from >= NUM_TOKENS {
        NUM_TOKENS as int
    } else if quantities[from] != 0 {
        from
    } else {
        next_deposit(quantities, from + 1)
    }
}

/// What a liquidation goes on with: the transfer of the next deposit from the
/// liquidator to the vault, or, where none is left, the accounts with the
/// liquidator as the new owner.
pub open spec fn liquidation_next(state: Liquidation, accounts: Seq<AccountInfo>) -> LiquidationStepView {
    let token = next_deposit(state.deposit_quantities, state.token as int);
    if token < NUM_TOKENS {
        LiquidationStepView::Transfer(
            transfer_invocation(
                accounts[5 + 2 * NUM_MARKETS + NUM_TOKENS + token].key,
                accounts[5 + 2 * NUM_MARKETS + token].key,
                accounts[1].key,
                state.deposit_quantities[token],
                accounts[3].key,
                None,
            ),
            Liquidation { token: token as usize, ..state },
        )
    } else {
        LiquidationStepView::Done(
            stored(
                state.mango_group,
                MarginAccount { owner: accounts[1].key, ..state.margin_account },
            ),
        )
    }
}

/// The liquidation after the reply to the transfer of a deposit. The deposit is
/// credited to the margin account and to the group.
pub open spec fn liquidation_paid(state: Liquidation, reply: MangoResult<()>) -> Result<
    Liquidation,
    Failure,
> {
    let token = state.token as int;
    match refused(reply) {
        Err(e) => Err(e),
        Ok(_) => match indexed(
            state.deposit_quantities[token],
            state.mango_group.indexes[token].deposit,
        ) {
            Err(e) => Err(e),
            Ok(amount) => match state.margin_account.deposit_added(token, amount) {
                Err(e) => Err(e),
                Ok(margin_account) => match state.mango_group.deposit_added(token, amount) {
                    Err(e) => Err(e),
                    Ok(mango_group) => Ok(
                        Liquidation {
                            mango_group,
                            margin_account,
                            deposit_quantities: state.deposit_quantities,
                            token: (token + 1) as usize,
                        },
                    ),
                },
            },
        },
    }
}

impl Liquidation {
    /// Finds what the liquidation goes on with.
    pub fn next(self, accounts: &[AccountInfo]) -> (r: Result<LiquidationStep, Failure>)
        requires
            accounts@.len() >= LIQUIDATE_ACCOUNTS,
        ensures
            liquidation_step_view(r) == Ok::<LiquidationStepView, Failure>(
                liquidation_next(self, accounts@),
            ),
            r matches Ok(LiquidationStep::Transfer(_, state)) ==> state.token < NUM_TOKENS,
    {
        let mut token = self.token;
        while token < NUM_TOKENS && self.deposit_quantities[token] == 0
            invariant
                next_deposit(self.deposit_quantities, self.token as int) == next_deposit(
                    self.deposit_quantities,
                    token as int,
                ),
            decreases NUM_TOKENS - token,
        {
            token += 1;
        }
        if token < NUM_TOKENS {
            let invocation = invoke_transfer(
                accounts[5 + 2 * NUM_MARKETS + NUM_TOKENS + token].key,
                accounts[5 + 2 * NUM_MARKETS + token].key,
                accounts[1].key,
                self.deposit_quantities[token],
                accounts[3].key,
                None,
            )?;
            Ok(LiquidationStep::Transfer(invocation, Liquidation { token, ..self }))
        } else {
            let mut margin = self.margin_account;
            margin.owner = accounts[1].key;
            Ok(
                LiquidationStep::Done(
                    Update {
                        invocation: None,
                        mango_group: Some(self.mango_group),
                        margin_account: Some(margin),
                    },
                ),
            )
        }
    }

    /// Credits the deposit whose transfer was replied to.
    pub fn paid(self, reply: MangoResult<()>) -> (r: Result<Liquidation, Failure>)
        requires
            self.token < NUM_TOKENS,
        ensures
            r == liquidation_paid(self, reply),
    {
        or_refuse(reply)?;
        let token = self.token;
        let quantity = self.deposit_quantities[token];
        let deposit = to_indexed(quantity, self.mango_group.indexes[token].deposit)?;
        let margin_account = self.margin_account.checked_add_deposit(token, deposit)?;
        let mango_group = self.mango_group.checked_add_deposit(token, deposit)?;
        Ok(
            Liquidation {
                mango_group,
                margin_account,
                deposit_quantities: self.deposit_quantities,
                token: token + 1,
            },
        )
    }
}

impl Processor {
    /// Checks a liquidation and starts it.
    pub fn liquidate(
        program_id: &Pubkey,
        accounts: &[AccountInfo],
        deposit_quantities: [u64; NUM_TOKENS],
        indexes: MangoResult<[MangoIndex; NUM_TOKENS]>,
    ) -> (r: Result<Liquidation, Failure>)
        ensures
            r == liquidation_asked(*program_id, accounts@, deposit_quantities, indexes),
    {
        if accounts.len() < LIQUIDATE_ACCOUNTS {
            return Err(Failure::Aborted);
        }
        let open_orders_accs = slice_subrange(accounts, 5, 5 + NUM_MARKETS);
        let oracle_accs = slice_subrange(accounts, 5 + NUM_MARKETS, 5 + 2 * NUM_MARKETS);
        let mint_accs = slice_subrange(
            accounts,
            5 + 2 * NUM_MARKETS + 2 * NUM_TOKENS,
            5 + 2 * NUM_MARKETS + 3 * NUM_TOKENS,
        );

        check_assert(accounts[1].is_signer, Check::LiqorSigned)?;
        let (group, margin) = enter(program_id, &accounts[0], &accounts[2])?;
        let group = accrue(group, &accounts[4], indexes)?;
        check_all_open_orders(&margin, open_orders_accs, &accounts[2].key)?;
        let prices = get_prices(&group, mint_accs, oracle_accs)?;
        check_takeover(&group, &margin, &prices, open_orders_accs, &deposit_quantities)?;
        Ok(
            Liquidation {
                mango_group: group,
                margin_account: margin,
                deposit_quantities,
                token: 0,
            },
        )
    }
}

} // verus!
