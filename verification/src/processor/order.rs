//! Placing and cancelling orders on the exchange.

use vstd::prelude::*;
use vstd::slice::slice_subrange;

use crate::dex::{new_order_data, pack_new_order, NewOrder, Side};
use crate::error::{check_assert, or_abort, or_refuse, refused, unmet};
use crate::error::{Check, Failure, MangoResult};
use crate::instruction::{gen_signer_seeds, readonly, readonly_signer, writable, AccountMeta};
use crate::instruction::{Instruction, InstructionView, Invocation, InvocationView, SignerSeeds};
use crate::prices::{get_prices, token_prices};
use crate::processor::borrow::borrowed_unchecked;
use crate::processor::{accrue, accrued, check_collateral, check_owner, collateral_checked, enter};
use crate::processor::{entered, invoked, outcome, owner_checked, Processor, Update, UpdateView};
use crate::state::{load_market_state, market_loaded, position, AccountInfo, MangoGroup};
use crate::state::{MangoIndex, MarginAccount, MarketState, OpenOrders, Pubkey, NUM_MARKETS};
use crate::state::NUM_TOKENS;

verus! {

/// What an order needs and what there is for it, in native amounts.
#[derive(Clone, Copy, PartialEq, Eq, Debug)]
pub struct Funding {
    /// The quote tokens that a bid pays at most.
    pub quote_total: u64,
    /// The base tokens that an ask gives at most.
    pub base_total: u64,
    /// The quote tokens in the position and free on the exchange.
    pub quote_avail: u64,
    /// The base tokens in the position and free on the exchange.
    pub base_avail: u64,
}

/// The native amounts of a whole order, quote and base, where they fit 64 bits.
pub open spec fn order_totals(order: NewOrder, market: MarketState) -> Result<
    (u64, u64),
    Failure,
> {
    let quote_lots = order.limit_price * order.max_qty;
    let quote_total = quote_lots * market.pc_lot_size;
    let base_total = order.max_qty * market.coin_lot_size;
    if quote_lots > u64::MAX || quote_total > u64::MAX || base_total > u64::MAX {
        Err(Failure::Aborted)
    } else {
        Ok((quote_total as u64, base_total as u64))
    }
}

fn to_order_totals(order: &NewOrder, market: &MarketState) -> (r: Result<(u64, u64), Failure>)
    ensures
        r == order_totals(*order, *market),
{
    let quote_lots = or_abort(order.limit_price.checked_mul(order.max_qty))?;
    let quote_total = or_abort(quote_lots.checked_mul(market.pc_lot_size))?;
    let base_total = or_abort(order.max_qty.checked_mul(market.coin_lot_size))?;
    Ok((quote_total, base_total))
}

/// What there is for an order: the positions, and what is free in the open orders
/// of the market.
pub open spec fn funds(margin: MarginAccount, orders: OpenOrders, market_i: int) -> Result<
    (u64, u64),
    Failure,
> {
    let quote = orders.native_pc_free + margin.positions[NUM_MARKETS as int];
    let base = orders.native_coin_free + margin.positions[market_i];
    if quote > u64::MAX || base > u64::MAX {
        Err(Failure::Aborted)
    } else {
        Ok((quote as u64, base as u64))
    }
}

fn to_funds(margin: &MarginAccount, orders: &OpenOrders, market_i: usize) -> (r: Result<
    (u64, u64),
    Failure,
>)
    requires
        market_i < NUM_MARKETS,
    ensures
        r == funds(*margin, *orders, market_i as int),
{
    let quote = or_abort(orders.native_pc_free.checked_add(margin.positions[NUM_MARKETS]))?;
    let base = or_abort(orders.native_coin_free.checked_add(margin.positions[market_i]))?;
    Ok((quote, base))
}

/// The funding of an order on a market. The open orders account is that of the
/// margin account.
pub open spec fn funding(
    margin: MarginAccount,
    market: MarketState,
    open_orders: Seq<AccountInfo>,
    market_i: usize,
    order: NewOrder,
) -> Result<Funding, Failure> {
    match order_totals(order, market) {
        Err(e) => Err(e),
        Ok((quote_total, base_total)) => if market_i >= NUM_MARKETS {
            Err(Failure::Aborted)
        } else {
            match refused(open_orders[market_i as int].open_orders) {
                Err(e) => Err(e),
                Ok(orders) => if open_orders[market_i as int].key
                    != margin.open_orders[market_i as int] {
                    Err(unmet(Check::OpenOrdersKey))
                } else {
                    match funds(margin, orders, market_i as int) {
                        Err(e) => Err(e),
                        Ok((quote_avail, base_avail)) => Ok(
                            Funding { quote_total, base_total, quote_avail, base_avail },
                        ),
                    }
                },
            }
        },
    }
}

fn to_funding(
    margin: &MarginAccount,
    market: &MarketState,
    open_orders: &[AccountInfo],
    market_i: usize,
    order: &NewOrder,
) -> (r: Result<Funding, Failure>)
    requires
        open_orders@.len() >= NUM_MARKETS,
    ensures
        r == funding(*margin, *market, open_orders@, market_i, *order),
        r is Ok ==> market_i < NUM_MARKETS,
{
    let (quote_total, base_total) = to_order_totals(order, market)?;
    if market_i >= NUM_MARKETS {
        return Err(Failure::Aborted);
    }
    let orders = or_refuse(open_orders[market_i].open_orders)?;
    check_assert(
        open_orders[market_i].key == margin.open_orders[market_i],
        Check::OpenOrdersKey,
    )?;
    let (quote_avail, base_avail) = to_funds(margin, &orders, market_i)?;
    Ok(Funding { quote_total, base_total, quote_avail, base_avail })
}

/// The accounts with what an order lacks borrowed: quote tokens for a bid, base
/// tokens for an ask. The order is paid from the vault of that token.
pub open spec fn funded(
    group: MangoGroup,
    margin: MarginAccount,
    side: Side,
    market_i: int,
    funding: Funding,
    vault: Pubkey,
) -> Result<(MangoGroup, MarginAccount), Failure> {
    let (token, total, avail) = match side {
        Side::Bid => (NUM_MARKETS as int, funding.quote_total, funding.quote_avail),
        Side::Ask => (market_i, funding.base_total, funding.base_avail),
    };
    if group.vaults[token] != vault {
        Err(unmet(Check::VaultKey))
    } else if total > avail {
        borrowed_unchecked(group, margin, token, (total - avail) as u64)
    } else {
        Ok((group, margin))
    }
}

fn fund(
    group: MangoGroup,
    margin: MarginAccount,
    side: Side,
    market_i: usize,
    funding: &Funding,
    vault: &Pubkey,
) -> (r: Result<(MangoGroup, MarginAccount), Failure>)
    requires
        market_i < NUM_MARKETS,
    ensures
        r == funded(group, margin, side, market_i as int, *funding, *vault),
{
    match side {
        Side::Bid => {
            check_assert(group.vaults[NUM_MARKETS] == *vault, Check::VaultKey)?;
            if funding.quote_total > funding.quote_avail {
                Processor::borrow_unchecked(
                    group,
                    margin,
                    NUM_MARKETS,
                    funding.quote_total - funding.quote_avail,
                )
            } else {
                Ok((group, margin))
            }
        },
        Side::Ask => {
            check_assert(group.vaults[market_i] == *vault, Check::VaultKey)?;
            if funding.base_total > funding.base_avail {
                Processor::borrow_unchecked(
                    group,
                    margin,
                    market_i,
                    funding.base_total - funding.base_avail,
                )
            } else {
                Ok((group, margin))
            }
        },
    }
}

/// The invocation that places an order, from the accounts of the request.
pub open spec fn place_order_invocation(
    accounts: Seq<AccountInfo>,
    open_orders: Pubkey,
    order: NewOrder,
    nonce: u64,
) -> InvocationView {
    InvocationView {
        instruction: InstructionView {
            program_id: accounts[4].key,
            accounts: seq![
                writable(accounts[5].key),
                writable(open_orders),
                writable(accounts[6].key),
                writable(accounts[7].key),
                readonly_signer(accounts[8].key),
                writable(accounts[9].key),
                writable(accounts[10].key),
                writable(accounts[11].key),
                readonly(accounts[12].key),
            ],
            data: new_order_data(order),
        },
        accounts: seq![
            accounts[4].key,
            accounts[5].key,
            open_orders,
            accounts[6].key,
            accounts[7].key,
            accounts[8].key,
            accounts[9].key,
            accounts[10].key,
            accounts[11].key,
            accounts[12].key,
        ],
        signer_seeds: Some(SignerSeeds { key: accounts[0].key, nonce }),
    }
}

fn invoke_place_order(
    accounts: &[AccountInfo],
    open_orders: Pubkey,
    order: &NewOrder,
    nonce: u64,
) -> (r: Invocation)
    requires
        accounts@.len() >= 13,
        order.wf(),
    ensures
        r@ == place_order_invocation(accounts@, open_orders, *order, nonce),
{
    let metas: Vec<AccountMeta> = vec![
        AccountMeta::new(accounts[5].key),
        AccountMeta::new(open_orders),
        AccountMeta::new(accounts[6].key),
        AccountMeta::new(accounts[7].key),
        AccountMeta::new_readonly(accounts[8].key, true),
        AccountMeta::new(accounts[9].key),
        AccountMeta::new(accounts[10].key),
        AccountMeta::new(accounts[11].key),
        AccountMeta::new_readonly(accounts[12].key, false),
    ];
    let infos: Vec<Pubkey> = vec![
        accounts[4].key,
        accounts[5].key,
        open_orders,
        accounts[6].key,
        accounts[7].key,
        accounts[8].key,
        accounts[9].key,
        accounts[10].key,
        accounts[11].key,
        accounts[12].key,
    ];
    let instruction = Instruction {
        program_id: accounts[4].key,
        accounts: metas,
        data: pack_new_order(order),
    };
    Invocation {
        instruction,
        accounts: infos,
        signer_seeds: Some(gen_signer_seeds(&nonce, &accounts[0].key)),
    }
}

/// The outcome of a request to place an order. Its accounts are: the group, the
/// owner, the margin account, the clock, the exchange, the market, its request
/// queue, the vault to pay from, the signer of the group, the base and the quote
/// vault of the exchange, the token program, the rent, the open orders, the
/// oracles and the mints.
///
/// The owner account signed. What the order lacks is borrowed. Afterwards the
/// account reaches the initial collateral ratio. The order is sent to the
/// exchange, signed for the group.
pub open spec fn order_placing(
    program_id: Pubkey,
    accounts: Seq<AccountInfo>,
    market_i: usize,
    order: NewOrder,
    indexes: MangoResult<[MangoIndex; NUM_TOKENS]>,
) -> Result<UpdateView, Failure> {
    if accounts.len() < 13 + 2 * NUM_MARKETS + NUM_TOKENS {
        Err(Failure::Aborted)
    } else if !accounts[1].is_signer {
        Err(unmet(Check::OwnerSigned))
    } else {
        let open_orders = accounts.subrange(13, 13 + NUM_MARKETS);
        let oracles = accounts.subrange(13 + NUM_MARKETS, 13 + 2 * NUM_MARKETS);
        let mints = accounts.subrange(13 + 2 * NUM_MARKETS, 13 + 2 * NUM_MARKETS + NUM_TOKENS);
        match entered(program_id, accounts[0], accounts[2]) {
            Err(e) => Err(e),
            Ok((group, margin)) => match accrued(group, accounts[3], indexes) {
                Err(e) => Err(e),
                Ok(group) => match market_loaded(accounts[5], group.dex_program_id) {
                    Err(e) => Err(e),
                    Ok(market) => match funding(margin, market, open_orders, market_i, order) {
                        Err(e) => Err(e),
                        Ok(funding) => match funded(
                            group,
                            margin,
                            order.side,
                            market_i as int,
                            funding,
                            accounts[7].key,
                        ) {
                            Err(e) => Err(e),
                            Ok((group, margin)) => match token_prices(group, mints, oracles) {
                                Err(e) => Err(e),
                                Ok(prices) => match collateral_checked(
                                    group,
                                    margin,
                                    prices,
                                    open_orders,
                                ) {
                                    Err(e) => Err(e),
                                    Ok(_) => Ok(
                                        invoked(
                                            group,
                                            margin,
                                            place_order_invocation(
                                                accounts,
                                                open_orders[market_i as int].key,
                                                order,
                                                group.signer_nonce,
                                            ),
                                        ),
                                    ),
                                },
                            },
                        },
                    },
                },
            },
        }
    }
}

/// The invocation that cancels an order, from the accounts of the request.
pub open spec fn cancel_order_invocation(
    accounts: Seq<AccountInfo>,
    data: Seq<u8>,
    nonce: u64,
) -> InvocationView {
    InvocationView {
        instruction: InstructionView {
            program_id: accounts[4].key,
            accounts: seq![
                readonly(accounts[5].key),
                writable(accounts[6].key),
                writable(accounts[7].key),
                readonly_signer(accounts[8].key),
            ],
            data,
        },
        accounts: seq![
            accounts[4].key,
            accounts[5].key,
            accounts[6].key,
            accounts[7].key,
            accounts[8].key,
        ],
        signer_seeds: Some(SignerSeeds { key: accounts[0].key, nonce }),
    }
}

/// The outcome of a request to cancel an order. Its accounts are: the group, the
/// owner, the margin account, the clock, the exchange, the market, the open
/// orders, the request queue and the signer of the group.
///
/// The owner asks, the market is one of the group, and the open orders are those
/// of the account on it. The data is sent to the exchange, signed for the group.
/// The margin account stays as it is.
pub open spec fn order_cancelling(
    program_id: Pubkey,
    accounts: Seq<AccountInfo>,
    data: Seq<u8>,
    indexes: MangoResult<[MangoIndex; NUM_TOKENS]>,
) -> Result<UpdateView, Failure> {
    if accounts.len() < 9 {
        Err(Failure::Aborted)
    } else {
        match entered(program_id, accounts[0], accounts[2]) {
            Err(e) => Err(e),
            Ok((group, margin)) => match accrued(group, accounts[3], indexes) {
                Err(e) => Err(e),
                Ok(group) => match owner_checked(margin, accounts[1]) {
                    Err(e) => Err(e),
                    Ok(_) => match position(group.spot_markets@, accounts[5].key, 0) {
                        None => Err(Failure::Aborted),
                        Some(market_i) => if margin.open_orders[market_i as int]
                            != accounts[6].key {
                            Err(unmet(Check::OpenOrdersKey))
                        } else {
                            Ok(
                                UpdateView {
                                    invocation: Some(
                                        cancel_order_invocation(
                                            accounts,
                                            data,
                                            group.signer_nonce,
                                        ),
                                    ),
                                    mango_group: Some(group),
                                    margin_account: None,
                                },
                            )
                        },
                    },
                },
            },
        }
    }
}

impl Processor {
    /// Places an order.
    pub fn place_order(
        program_id: &Pubkey,
        accounts: &[AccountInfo],
        market_i: usize,
        order: &NewOrder,
        indexes: MangoResult<[MangoIndex; NUM_TOKENS]>,
    ) -> (r: Result<Update, Failure>)
        requires
            order.wf(),
        ensures
            outcome(r) == order_placing(*program_id, accounts@, market_i, *order, indexes),
    {
        if accounts.len() < 13 + 2 * NUM_MARKETS + NUM_TOKENS {
            return Err(Failure::Aborted);
        }
        let open_orders_accs = slice_subrange(accounts, 13, 13 + NUM_MARKETS);
        let oracle_accs = slice_subrange(accounts, 13 + NUM_MARKETS, 13 + 2 * NUM_MARKETS);
        let mint_accs = slice_subrange(
            accounts,
            13 + 2 * NUM_MARKETS,
            13 + 2 * NUM_MARKETS + NUM_TOKENS,
        );

        check_assert(accounts[1].is_signer, Check::OwnerSigned)?;
        let (group, margin) = enter(program_id, &accounts[0], &accounts[2])?;
        let group = accrue(group, &accounts[3], indexes)?;
        let market = load_market_state(&accounts[5], &group.dex_program_id)?;
        let funding = to_funding(&margin, &market, open_orders_accs, market_i, order)?;
        let (group, margin) = fund(
            group,
            margin,
            order.side,
            market_i,
            &funding,
            &accounts[7].key,
        )?;

        let prices = get_prices(&group, mint_accs, oracle_accs)?;
        check_collateral(&group, &margin, &prices, open_orders_accs)?;
        let invocation = invoke_place_order(
            accounts,
            open_orders_accs[market_i].key,
            order,
            group.signer_nonce,
        );
        Ok(
            Update {
                invocation: Some(invocation),
                mango_group: Some(group),
                margin_account: Some(margin),
            },
        )
    }

    /// Cancels an order, with the data of an instruction to the exchange.
    pub fn cancel_order(
        program_id: &Pubkey,
        accounts: &[AccountInfo],
        data: Vec<u8>,
        indexes: MangoResult<[MangoIndex; NUM_TOKENS]>,
    ) -> (r: Result<Update, Failure>)
        ensures
            outcome(r) == order_cancelling(*program_id, accounts@, data@, indexes),
    {
        if accounts.len() < 9 {
            return Err(Failure::Aborted);
        }
        let (group, margin) = enter(program_id, &accounts[0], &accounts[2])?;
        let group = accrue(group, &accounts[3], indexes)?;
        check_owner(&margin, &accounts[1])?;
        let market_i = or_abort(group.get_market_index(&accounts[5].key))?;
        check_assert(margin.open_orders[market_i] == accounts[6].key, Check::OpenOrdersKey)?;

        let metas: Vec<AccountMeta> = vec![
            AccountMeta::new_readonly(accounts[5].key, false),
            AccountMeta::new(accounts[6].key),
            AccountMeta::new(accounts[7].key),
            AccountMeta::new_readonly(accounts[8].key, true),
        ];
        let infos: Vec<Pubkey> = vec![
            accounts[4].key,
            accounts[5].key,
            accounts[6].key,
            accounts[7].key,
            accounts[8].key,
        ];
        let instruction = Instruction { program_id: accounts[4].key, accounts: metas, data };
        let seeds = gen_signer_seeds(&group.signer_nonce, &accounts[0].key);
        let invocation = Invocation { instruction, accounts: infos, signer_seeds: Some(seeds) };
        Ok(
            Update {
                invocation: Some(invocation),
                mango_group: Some(group),
                margin_account: None,
            },
        )
    }
}

} // verus!
