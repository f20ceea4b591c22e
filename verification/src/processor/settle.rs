//! Moving funds that are free on the exchange into the positions.

use vstd::prelude::*;

use crate::dex::{pack_settle_funds, settle_funds_data};
use crate::error::{check_assert, or_abort, or_refuse, refused, unmet};
use crate::error::{Check, Failure, MangoResult};
use crate::instruction::{gen_signer_seeds, readonly, readonly_signer, writable, AccountMeta};
use crate::instruction::{Instruction, InstructionView, Invocation, InvocationView, SignerSeeds};
use crate::processor::{accrue, accrued, check_owner, enter, entered, owner_checked, stored};
use crate::processor::{Processor, Update, UpdateView};
use crate::state::{AccountInfo, MangoGroup, MangoIndex, MarginAccount, OpenOrders, Pubkey};
use crate::state::{NUM_MARKETS, NUM_TOKENS};

verus! {

/// Number of accounts of a request to settle funds.
pub const SETTLE_ACCOUNTS: usize = 8 + 4 * NUM_MARKETS + NUM_TOKENS;

/// A settlement in progress: the markets before `market` have been settled.
#[derive(Clone, Copy, PartialEq, Eq, Debug)]
pub struct Settlement {
    pub mango_group: MangoGroup,
    pub margin_account: MarginAccount,
    pub market: usize,
}

/// What a settlement goes on with.
#[derive(PartialEq, Eq, Debug)]
pub enum SettlementStep {
    /// The invocation that settles the next market. Its reply, and the open orders
    /// account as it then is, are wanted before the settlement goes on.
    Settle(Invocation, Settlement),
    /// All markets are settled.
    Done(Update),
}

/// What a step says.
pub enum SettlementStepView {
    Settle(InvocationView, Settlement),
    Done(UpdateView),
}

impl View for SettlementStep {
    type V = SettlementStepView;

    open spec fn view(&self) -> SettlementStepView {
        match *self {
            SettlementStep::Settle(invocation, state) => SettlementStepView::Settle(
                invocation@,
                state,
            ),
            SettlementStep::Done(update) => SettlementStepView::Done(update@),
        }
    }
}

/// A step that was taken, with what it says.
pub open spec fn settlement_step_view(r: Result<SettlementStep, Failure>) -> Result<
    SettlementStepView,
    Failure,
> {
    match r {
        Ok(step) => Ok(step@),
        Err(e) => Err(e),
    }
}

/// What a request to settle funds leads to. Its accounts are: the group, the
/// owner, the margin account, the clock, the exchange, the signer of the group,
/// the signer of the exchange, the token program, the open orders, the markets,
/// the base and the quote vaults of the exchange and the vaults of the group. The
/// owner asks.
pub open spec fn settlement_asked(
    program_id: Pubkey,
    accounts: Seq<AccountInfo>,
    indexes: MangoResult<[MangoIndex; NUM_TOKENS]>,
) -> Result<Settlement, Failure> {
    if accounts.len() < SETTLE_ACCOUNTS {
        Err(Failure::Aborted)
    } else {
        match entered(program_id, accounts[0], accounts[2]) {
            Err(e) => Err(e),
            Ok((group, margin)) => match accrued(group, accounts[3], indexes) {
                Err(e) => Err(e),
                Ok(group) => match owner_checked(margin, accounts[1]) {
                    Err(e) => Err(e),
                    Ok(_) => Ok(
                        Settlement { mango_group: group, margin_account: margin, market: 0 },
                    ),
                },
            },
        }
    }
}

/// The open orders on a market before it is settled. Their account is the one that
/// the margin account records.
pub open spec fn orders_before(
    margin: MarginAccount,
    accounts: Seq<AccountInfo>,
    market: int,
) -> Result<OpenOrders, Failure> {
    if margin.open_orders[market] != accounts[8 + market].key {
        Err(unmet(Check::OpenOrdersKey))
    } else {
        refused(accounts[8 + market].open_orders)
    }
}

fn read_orders_before(margin: &MarginAccount, accounts: &[AccountInfo], market: usize) -> (r:
    Result<OpenOrders, Failure>)
    requires
        market < NUM_MARKETS,
        accounts@.len() >= SETTLE_ACCOUNTS,
    ensures
        r == orders_before(*margin, accounts@, market as int),
{
    check_assert(margin.open_orders[market] == accounts[8 + market].key, Check::OpenOrdersKey)?;
    or_refuse(accounts[8 + market].open_orders)
}

/// Whether open orders have nothing free.
pub open spec fn nothing_free(orders: OpenOrders) -> bool {
    orders.native_coin_free == 0 && orders.native_pc_free == 0
}

/// The first market at or after `from` with funds to settle, or the number of
/// markets, or the failure of a market before it.
pub open spec fn next_market(
    margin: MarginAccount,
    accounts: Seq<AccountInfo>,
    from: int,
) -> Result<int, Failure>
    decreases NUM_MARKETS - from,
{
    if from < 0 || from >= NUM_MARKETS {
        Ok(NUM_MARKETS as int)
    } else {
        match orders_before(margin, accounts, from) {
            Err(e) => Err(e),
            Ok(orders) => if nothing_free(orders) {
                next_market(margin, accounts, from + 1)
            } else {
                Ok(from)
            },
        }
    }
}

/// Whether the vault accounts of a request are those that the group records for
/// the base token of a market and for the quote token.
pub open spec fn group_vaults(group: MangoGroup, accounts: Seq<AccountInfo>, market: int) -> bool {
    &&& accounts[8 + 4 * NUM_MARKETS + market].key == group.vaults[market]
    &&& accounts[8 + 4 * NUM_MARKETS + NUM_MARKETS].key == group.vaults[NUM_MARKETS as int]
}

/// The invocation that settles a market, from the accounts of the request. Base
/// tokens go to the vault account at the place of the token, quote tokens to that
/// at the place of the quote token.
pub open spec fn settle_invocation(
    accounts: Seq<AccountInfo>,
    market: int,
    nonce: u64,
) -> InvocationView {
    let open_orders = accounts[8 + market].key;
    let spot_market = accounts[8 + NUM_MARKETS + market].key;
    let dex_base = accounts[8 + 2 * NUM_MARKETS + market].key;
    let dex_quote = accounts[8 + 3 * NUM_MARKETS + market].key;
    let base_vault = accounts[8 + 4 * NUM_MARKETS + market].key;
    let quote_vault = accounts[8 + 4 * NUM_MARKETS + NUM_MARKETS].key;
    InvocationView {
        instruction: InstructionView {
            program_id: accounts[4].key,
            accounts: seq![
                writable(spot_market),
                writable(open_orders),
                readonly_signer(accounts[5].key),
                writable(dex_base),
                writable(dex_quote),
                writable(base_vault),
                writable(quote_vault),
                readonly(accounts[6].key),
                readonly(accounts[7].key),
            ],
            data: settle_funds_data(),
        },
        accounts: seq![
            accounts[4].key,
            spot_market,
            open_orders,
            accounts[5].key,
            dex_base,
            dex_quote,
            base_vault,
            quote_vault,
            accounts[6].key,
            accounts[7].key,
        ],
        signer_seeds: Some(SignerSeeds { key: accounts[0].key, nonce }),
    }
}

fn invoke_settle(accounts: &[AccountInfo], market: usize, nonce: u64) -> (r: Invocation)
    requires
        market < NUM_MARKETS,
        accounts@.len() >= SETTLE_ACCOUNTS,
    ensures
        r@ == settle_invocation(accounts@, market as int, nonce),
{
    let open_orders = accounts[8 + market].key;
    let spot_market = accounts[8 + NUM_MARKETS + market].key;
    let dex_base = accounts[8 + 2 * NUM_MARKETS + market].key;
    let dex_quote = accounts[8 + 3 * NUM_MARKETS + market].key;
    let base_vault = accounts[8 + 4 * NUM_MARKETS + market].key;
    let quote_vault = accounts[8 + 4 * NUM_MARKETS + NUM_MARKETS].key;
    let metas: Vec<AccountMeta> = vec![
        AccountMeta::new(spot_market),
        AccountMeta::new(open_orders),
        AccountMeta::new_readonly(accounts[5].key, true),
        AccountMeta::new(dex_base),
        AccountMeta::new(dex_quote),
        AccountMeta::new(base_vault),
        AccountMeta::new(quote_vault),
        AccountMeta::new_readonly(accounts[6].key, false),
        AccountMeta::new_readonly(accounts[7].key, false),
    ];
    let infos: Vec<Pubkey> = vec![
        accounts[4].key,
        spot_market,
        open_orders,
        accounts[5].key,
        dex_base,
        dex_quote,
        base_vault,
        quote_vault,
        accounts[6].key,
        accounts[7].key,
    ];
    let instruction = Instruction {
        program_id: accounts[4].key,
        accounts: metas,
        data: pack_settle_funds(),
    };
    Invocation {
        instruction,
        accounts: infos,
        signer_seeds: Some(gen_signer_seeds(&nonce, &accounts[0].key)),
    }
}

/// What a settlement goes on with: the invocation for the next market with funds
/// to settle, or, where none is left, the accounts to store. A market is settled
/// only into the vaults of the group.
pub open spec fn settlement_next(state: Settlement, accounts: Seq<AccountInfo>) -> Result<
    SettlementStepView,
    Failure,
> {
    match next_market(state.margin_account, accounts, state.market as int) {
        Err(e) => Err(e),
        Ok(market) => if market >= NUM_MARKETS {
            Ok(SettlementStepView::Done(stored(state.mango_group, state.margin_account)))
        } else if !group_vaults(state.mango_group, accounts, market) {
            Err(unmet(Check::VaultKey))
        } else {
            Ok(
                SettlementStepView::Settle(
                    settle_invocation(accounts, market, state.mango_group.signer_nonce),
                    Settlement { market: market as usize, ..state },
                ),
            )
        },
    }
}

/// The margin account with what left the open orders added to its positions: base
/// tokens to that of the token, then quote tokens to that of the quote token.
pub open spec fn proceeds_added(
    margin: MarginAccount,
    before: OpenOrders,
    after: OpenOrders,
    market: int,
) -> Result<MarginAccount, Failure> {
    if after.native_coin_free > before.native_coin_free {
        Err(unmet(Check::BaseNotIncreased))
    } else if after.native_pc_free > before.native_pc_free {
        Err(unmet(Check::QuoteNotIncreased))
    } else {
        let base = margin.positions[market] + before.native_coin_free - after.native_coin_free;
        let quote = margin.positions[NUM_MARKETS as int] + before.native_pc_free
            - after.native_pc_free;
        if base > u64::MAX || quote > u64::MAX {
            Err(Failure::Aborted)
        } else {
            Ok(
                margin.with_position(market, base as u64).with_position(
                    NUM_MARKETS as int,
                    quote as u64,
                ),
            )
        }
    }
}

fn add_proceeds(
    margin: MarginAccount,
    before: &OpenOrders,
    after: &OpenOrders,
    market: usize,
) -> (r: Result<MarginAccount, Failure>)
    requires
        market < NUM_MARKETS,
    ensures
        r == proceeds_added(margin, *before, *after, market as int),
{
    let mut margin = margin;
    check_assert(after.native_coin_free <= before.native_coin_free, Check::BaseNotIncreased)?;
    check_assert(after.native_pc_free <= before.native_pc_free, Check::QuoteNotIncreased)?;
    let base = before.native_coin_free - after.native_coin_free;
    let quote = before.native_pc_free - after.native_pc_free;
    margin.positions[market] = or_abort(margin.positions[market].checked_add(base))?;
    margin.positions[NUM_MARKETS] = or_abort(margin.positions[NUM_MARKETS].checked_add(quote))?;
    Ok(margin)
}

/// The settlement after a market was settled, from the accounts of the request as
/// they were, the reply, and what reading the open orders then gives.
pub open spec fn market_settled(
    state: Settlement,
    accounts: Seq<AccountInfo>,
    reply: MangoResult<()>,
    after: MangoResult<OpenOrders>,
) -> Result<Settlement, Failure> {
    let market = state.market as int;
    match orders_before(state.margin_account, accounts, market) {
        Err(e) => Err(e),
        Ok(before) => match refused(reply) {
            Err(e) => Err(e),
            Ok(_) => match refused(after) {
                Err(e) => Err(e),
                Ok(after) => match proceeds_added(state.margin_account, before, after, market) {
                    Err(e) => Err(e),
                    Ok(margin_account) => Ok(
                        Settlement {
                            mango_group: state.mango_group,
                            margin_account,
                            market: (market + 1) as usize,
                        },
                    ),
                },
            },
        },
    }
}

impl Settlement {
    /// Finds what the settlement goes on with.
    pub fn next(self, accounts: &[AccountInfo]) -> (r: Result<SettlementStep, Failure>)
        requires
            accounts@.len() >= SETTLE_ACCOUNTS,
        ensures
            settlement_step_view(r) == settlement_next(self, accounts@),
            r matches Ok(SettlementStep::Settle(_, state)) ==> state.market < NUM_MARKETS,
    {
        let mut market = self.market;
        while market < NUM_MARKETS
            invariant
                accounts@.len() >= SETTLE_ACCOUNTS,
                next_market(self.margin_account, accounts@, self.market as int) == next_market(
                    self.margin_account,
                    accounts@,
                    market as int,
                ),
            decreases NUM_MARKETS - market,
        {
            let orders = read_orders_before(&self.margin_account, accounts, market)?;
            if orders.native_coin_free != 0 || orders.native_pc_free != 0 {
                check_assert(
                    accounts[8 + 4 * NUM_MARKETS + market].key == self.mango_group.vaults[market],
                    Check::VaultKey,
                )?;
                check_assert(
                    accounts[8 + 4 * NUM_MARKETS + NUM_MARKETS].key
                        == self.mango_group.vaults[NUM_MARKETS],
                    Check::VaultKey,
                )?;
                let invocation = invoke_settle(accounts, market, self.mango_group.signer_nonce);
                return Ok(SettlementStep::Settle(invocation, Settlement { market, ..self }));
            }
            market += 1;
        }
        Ok(
            SettlementStep::Done(
                Update {
                    invocation: None,
                    mango_group: Some(self.mango_group),
                    margin_account: Some(self.margin_account),
                },
            ),
        )
    }

    /// Adds what settling a market brought to the positions.
    pub fn settled(
        self,
        accounts: &[AccountInfo],
        reply: MangoResult<()>,
        after: MangoResult<OpenOrders>,
    ) -> (r: Result<Settlement, Failure>)
        requires
            self.market < NUM_MARKETS,
            accounts@.len() >= SETTLE_ACCOUNTS,
        ensures
            r == market_settled(self, accounts@, reply, after),
    {
        let before = read_orders_before(&self.margin_account, accounts, self.market)?;
        or_refuse(reply)?;
        let after = or_refuse(after)?;
        let margin_account = add_proceeds(self.margin_account, &before, &after, self.market)?;
        Ok(
            Settlement {
                mango_group: self.mango_group,
                margin_account,
                market: self.market + 1,
            },
        )
    }
}

impl Processor {
    /// Checks a settlement and starts it.
    pub fn settle_funds(
        program_id: &Pubkey,
        accounts: &[AccountInfo],
        indexes: MangoResult<[MangoIndex; NUM_TOKENS]>,
    ) -> (r: Result<Settlement, Failure>)
        ensures
            r == settlement_asked(*program_id, accounts@, indexes),
    {
        if accounts.len() < SETTLE_ACCOUNTS {
            return Err(Failure::Aborted);
        }
        let (group, margin) = enter(program_id, &accounts[0], &accounts[2])?;
        let group = accrue(group, &accounts[3], indexes)?;
        check_owner(&margin, &accounts[1])?;
        Ok(Settlement { mango_group: group, margin_account: margin, market: 0 })
    }
}

} // verus!
