//! What each request is answered with: why it is refused, and what a granted one
//! stores and sends.

use vstd::prelude::*;

use crate::bytes::{le_bytes, le_value};
use crate::dex::{cancel_order_data, new_order_data, settle_funds_data, CancelOrder, NewOrder};
use crate::dex::Side;
use crate::error::{Check, Failure, MangoError, MangoResult, INVALID_INSTRUCTION_DATA};
use crate::fixed_point::{one_bits, whole, U64F64};
use crate::instruction::{transfer_instruction, AccountMeta, Invocation, InvocationView};
use crate::instruction::SignerSeeds;
use crate::laws::access::{clock_failure, collateral_failure, coverage_failure, failure_of, first};
use crate::laws::access::{group_failure, law_collateral, law_covered, law_entrance};
use crate::laws::access::{law_first_place, law_markets_looked_at, law_new_group_looked_at};
use crate::laws::access::{law_new_margin_looked_at, law_new_orders_looked_at};
use crate::laws::access::{law_orders_looked_at, law_owner, law_up_to_date, law_vaults_looked_at};
use crate::laws::access::{margin_failure, market_failure, new_group_failure};
use crate::laws::access::{new_margin_failure, new_orders_failure, orders_failure};
use crate::laws::access::{owner_failure, stops_unless, unless, unread, vault_failure};
use crate::laws::balances::{borrow_made, larger, law_available, law_borrow_adds};
use crate::laws::balances::{law_order_borrows, law_repayment_takes, law_withdrawal_takes};
use crate::laws::balances::{order_cost, order_fits, order_means, paying_token, smaller};
use crate::laws::{current_group, lemma_next_deposit, only_token};
use crate::laws::value::{assets_worth, covered_at, fits, law_assets_valued, law_liabs_valued};
use crate::laws::value::{law_offer_valued, lemma_quotient_fits, lemma_reaches, liabs_worth};
use crate::laws::value::{law_steps, offer_worth};
use crate::prices::{prices_view, token_prices};
use crate::processor::borrow::{borrow_settling, borrowed_unchecked, borrowing, lent, repaid};
use crate::processor::deposit::{credited, deposit_asked, deposit_made, pending_view};
use crate::processor::deposit::PendingDeposit;
use crate::processor::init::{group_init, margin_init};
use crate::processor::liquidate::{liquidation_asked, liquidation_next, Liquidation};
use crate::processor::liquidate::{liquidation_step_view, takeover_checked, LiquidationStep};
use crate::processor::liquidate::LiquidationStepView;
use crate::processor::order::{funding, order_cancelling, order_placing};
use crate::processor::process::{processed, progress_view, MangoInstruction, Progress};
use crate::processor::process::ProgressView;
use crate::processor::settle::{market_settled, next_market, proceeds_added, settlement_asked};
use crate::processor::settle::{orders_before, settlement_next, settlement_step_view, Settlement};
use crate::processor::settle::{SettlementStep, SettlementStepView};
use crate::processor::withdraw::{available, debited, withdrawal};
use crate::processor::{outcome, Update, UpdateView};
use crate::state::{indexed, native, position, AccountInfo, MangoGroup, MangoIndex};
use crate::state::{MarginAccount, MarketState, OpenOrders, Pubkey, NUM_MARKETS, NUM_TOKENS};

verus! {

/// How an instruction uses an account.
pub open spec fn used(pubkey: Pubkey, is_signer: bool, is_writable: bool) -> AccountMeta {
    AccountMeta { pubkey, is_signer, is_writable }
}

/// The invocation that moves tokens by an authority.
pub open spec fn moves(
    source: Pubkey,
    destination: Pubkey,
    authority: Pubkey,
    amount: u64,
    token_prog: Pubkey,
    signer_seeds: Option<SignerSeeds>,
) -> InvocationView {
    InvocationView {
        instruction: transfer_instruction(source, destination, authority, amount),
        accounts: seq![source, destination, authority, token_prog],
        signer_seeds,
    }
}

/// What a request stores and sends.
pub open spec fn leads_to(
    group: MangoGroup,
    margin: MarginAccount,
    invocation: Option<InvocationView>,
) -> UpdateView {
    UpdateView { invocation, mango_group: Some(group), margin_account: Some(margin) }
}

/// A request to withdraw is refused for the first of its conditions that does not
/// hold. A granted one stores the accounts with the quantity taken out, and sends
/// exactly the quantity from the vault of the token to the token account of the
/// request, signed for the group.
#[verifier::rlimit(50)]
pub proof fn law_withdrawal_answer(
    program_id: Pubkey,
    accounts: Seq<AccountInfo>,
    token_index: usize,
    quantity: u64,
    indexes: MangoResult<[MangoIndex; NUM_TOKENS]>,
)
    requires
        accounts.len() >= 15,
    ensures
        ({
            let r = withdrawal(program_id, accounts, token_index, quantity, indexes);
            let margin = accounts[1].margin_account->Ok_0;
            let group = current_group(accounts, indexes);
            let token = token_index as int;
            let funds = available(group, margin, token);
            let prices = token_prices(
                group,
                accounts.subrange(12, 15),
                accounts.subrange(10, 12),
            );
            let (group2, margin2) = debited(group, margin, token, quantity)->Ok_0;
            let why = first(
                group_failure(program_id, accounts[0]),
                first(
                    margin_failure(accounts[0].key, accounts[1]),
                    first(
                        owner_failure(margin, accounts[2]),
                        first(
                            orders_failure(margin, accounts[8], 0, accounts[5].key),
                            first(
                                orders_failure(margin, accounts[9], 1, accounts[5].key),
                                first(
                                    stops_unless(token_index < NUM_TOKENS),
                                    first(
                                        unless(
                                            group.vaults[token] == accounts[4].key,
                                            Check::VaultKey,
                                        ),
                                        first(clock_failure(accounts[7]), unread(indexes)),
                                    ),
                                ),
                            ),
                        ),
                    ),
                ),
            );
            let why_not = first(
                failure_of(funds),
                first(
                    unless(quantity <= funds->Ok_0, Check::Available),
                    first(
                        failure_of(prices),
                        first(
                            failure_of(debited(group, margin, token, quantity)),
                            first(
                                collateral_failure(
                                    group2,
                                    margin2,
                                    prices->Ok_0,
                                    accounts.subrange(8, 10),
                                ),
                                coverage_failure(group2, token),
                            ),
                        ),
                    ),
                ),
            );
            &&& failure_of(r) == first(why, why_not)
            &&& r matches Ok(update) ==> update == leads_to(
                group2,
                margin2,
                Some(
                    moves(
                        accounts[4].key,
                        accounts[3].key,
                        accounts[5].key,
                        quantity,
                        accounts[6].key,
                        Some(SignerSeeds { key: accounts[0].key, nonce: group.signer_nonce }),
                    ),
                ),
            )
        }),
{
    let margin = accounts[1].margin_account->Ok_0;
    let group = current_group(accounts, indexes);
    let token = token_index as int;
    let open_orders = accounts.subrange(8, 10);
    law_entrance(program_id, accounts[0], accounts[1]);
    law_owner(margin, accounts[2]);
    law_orders_looked_at(margin, open_orders, accounts[5].key);
    assert(open_orders[0] == accounts[8] && open_orders[1] == accounts[9]);
    law_up_to_date(accounts[0].mango_group->Ok_0, accounts[7], indexes);
    let prices = token_prices(group, accounts.subrange(12, 15), accounts.subrange(10, 12));
    let (group2, margin2) = debited(group, margin, token, quantity)->Ok_0;
    law_collateral(group2, margin2, prices->Ok_0, open_orders);
    if token_index < NUM_TOKENS {
        law_covered(group2, token);
    }
}

/// A request to deposit is refused for the first of its conditions that does not
/// hold. A granted one asks for exactly the quantity to be moved from the token
/// account of the request to the vault of the token with the mint, by the account of
/// the depositor, and keeps in mind what is to be credited.
#[verifier::rlimit(50)]
pub proof fn law_deposit_answer(
    program_id: Pubkey,
    accounts: Seq<AccountInfo>,
    quantity: u64,
    indexes: MangoResult<[MangoIndex; NUM_TOKENS]>,
)
    requires
        accounts.len() >= 8,
    ensures
        ({
            let r = deposit_asked(program_id, accounts, quantity, indexes);
            let group = current_group(accounts, indexes);
            let margin = accounts[1].margin_account->Ok_0;
            let place = position(group.tokens@, accounts[3].key, 0);
            let why = first(
                group_failure(program_id, accounts[0]),
                first(
                    margin_failure(accounts[0].key, accounts[1]),
                    first(
                        stops_unless(place is Some),
                        first(
                            unless(
                                group.vaults[place->0 as int] == accounts[5].key,
                                Check::VaultKey,
                            ),
                            first(clock_failure(accounts[7]), unread(indexes)),
                        ),
                    ),
                ),
            );
            &&& failure_of(r) == why
            &&& r matches Ok((invocation, pending)) ==> {
                &&& invocation == moves(
                    accounts[4].key,
                    accounts[5].key,
                    accounts[2].key,
                    quantity,
                    accounts[6].key,
                    None,
                )
                &&& pending.mango_group == group
                &&& pending.margin_account == margin
                &&& pending.quantity == quantity
                &&& Some(pending.token_index) == place
                &&& pending.token_index < NUM_TOKENS
                &&& group.tokens[pending.token_index as int] == accounts[3].key
                &&& group.vaults[pending.token_index as int] == accounts[5].key
            }
        }),
{
    let group = current_group(accounts, indexes);
    law_entrance(program_id, accounts[0], accounts[1]);
    law_up_to_date(accounts[0].mango_group->Ok_0, accounts[7], indexes);
    law_first_place(group.tokens@, accounts[3].key, 0);
}

/// A deposit is credited once its tokens are moved, and fails with the error of the
/// transfer otherwise.
pub proof fn law_deposit_finished(pending: PendingDeposit, reply: MangoResult<()>)
    ensures
        ({
            let r = deposit_made(pending, reply);
            let after = credited(
                pending.mango_group,
                pending.margin_account,
                pending.token_index as int,
                pending.quantity,
            );
            &&& failure_of(r) == first(unread(reply), failure_of(after))
            &&& r matches Ok(update) ==> update == leads_to(after->Ok_0.0, after->Ok_0.1, None)
        }),
{
}

/// A request to borrow is refused for the first of its conditions that does not
/// hold. A granted one stores the accounts with the quantity borrowed, and sends
/// nothing.
#[verifier::rlimit(50)]
pub proof fn law_borrow_answer(
    program_id: Pubkey,
    accounts: Seq<AccountInfo>,
    token_index: usize,
    quantity: u64,
    indexes: MangoResult<[MangoIndex; NUM_TOKENS]>,
)
    requires
        accounts.len() >= 11,
    ensures
        ({
            let r = borrowing(program_id, accounts, token_index, quantity, indexes);
            let margin = accounts[1].margin_account->Ok_0;
            let group = current_group(accounts, indexes);
            let token = token_index as int;
            let after = lent(group, margin, token, quantity);
            let (group2, margin2) = after->Ok_0;
            let prices = token_prices(
                group2,
                accounts.subrange(8, 11),
                accounts.subrange(6, 8),
            );
            let why = first(
                group_failure(program_id, accounts[0]),
                first(
                    margin_failure(accounts[0].key, accounts[1]),
                    first(
                        owner_failure(margin, accounts[2]),
                        first(
                            orders_failure(margin, accounts[4], 0, group.signer_key),
                            first(
                                orders_failure(margin, accounts[5], 1, group.signer_key),
                                first(
                                    clock_failure(accounts[3]),
                                    first(
                                        unread(indexes),
                                        stops_unless(token_index < NUM_TOKENS),
                                    ),
                                ),
                            ),
                        ),
                    ),
                ),
            );
            let why_not = first(
                failure_of(after),
                first(
                    failure_of(prices),
                    first(
                        collateral_failure(
                            group2,
                            margin2,
                            prices->Ok_0,
                            accounts.subrange(4, 6),
                        ),
                        coverage_failure(group2, token),
                    ),
                ),
            );
            &&& failure_of(r) == first(why, why_not)
            &&& r matches Ok(update) ==> update == leads_to(group2, margin2, None)
        }),
{
    let margin = accounts[1].margin_account->Ok_0;
    let group = current_group(accounts, indexes);
    let token = token_index as int;
    let open_orders = accounts.subrange(4, 6);
    law_entrance(program_id, accounts[0], accounts[1]);
    law_owner(margin, accounts[2]);
    law_orders_looked_at(margin, open_orders, group.signer_key);
    assert(open_orders[0] == accounts[4] && open_orders[1] == accounts[5]);
    law_up_to_date(accounts[0].mango_group->Ok_0, accounts[3], indexes);
    let (group2, margin2) = lent(group, margin, token, quantity)->Ok_0;
    let prices = token_prices(group2, accounts.subrange(8, 11), accounts.subrange(6, 8));
    law_collateral(group2, margin2, prices->Ok_0, open_orders);
    if token_index < NUM_TOKENS {
        law_covered(group2, token);
    }
}

/// A request to settle a borrow is refused for the first of its conditions that does
/// not hold. A granted one stores the accounts with the borrow paid back, and sends
/// nothing.
pub proof fn law_repayment_answer(
    program_id: Pubkey,
    accounts: Seq<AccountInfo>,
    token_index: usize,
    quantity: u64,
    indexes: MangoResult<[MangoIndex; NUM_TOKENS]>,
)
    requires
        accounts.len() >= 4,
    ensures
        ({
            let r = borrow_settling(program_id, accounts, token_index, quantity, indexes);
            let margin = accounts[1].margin_account->Ok_0;
            let group = current_group(accounts, indexes);
            let after = repaid(group, margin, token_index as int, quantity);
            let why = first(
                group_failure(program_id, accounts[0]),
                first(
                    margin_failure(accounts[0].key, accounts[1]),
                    first(
                        owner_failure(margin, accounts[2]),
                        first(
                            clock_failure(accounts[3]),
                            first(
                                unread(indexes),
                                first(stops_unless(token_index < NUM_TOKENS), failure_of(after)),
                            ),
                        ),
                    ),
                ),
            );
            &&& failure_of(r) == why
            &&& r matches Ok(update) ==> update == leads_to(after->Ok_0.0, after->Ok_0.1, None)
        }),
{
    law_entrance(program_id, accounts[0], accounts[1]);
    law_owner(accounts[1].margin_account->Ok_0, accounts[2]);
    law_up_to_date(accounts[0].mango_group->Ok_0, accounts[3], indexes);
}

/// The invocation that places an order: on the market and the open orders of the
/// request, out of the vault, with the signer of the group as the one that signs.
pub open spec fn order_sent(
    v: InvocationView,
    accounts: Seq<AccountInfo>,
    open_orders: Pubkey,
    order: NewOrder,
    nonce: u64,
) -> bool {
    let ins = v.instruction;
    &&& ins.program_id == accounts[4].key
    &&& ins.data == new_order_data(order)
    &&& ins.accounts.len() == 9
    &&& ins.accounts[0] == used(accounts[5].key, false, true)
    &&& ins.accounts[1] == used(open_orders, false, true)
    &&& ins.accounts[2] == used(accounts[6].key, false, true)
    &&& ins.accounts[3] == used(accounts[7].key, false, true)
    &&& ins.accounts[4] == used(accounts[8].key, true, false)
    &&& ins.accounts[5] == used(accounts[9].key, false, true)
    &&& ins.accounts[6] == used(accounts[10].key, false, true)
    &&& ins.accounts[7] == used(accounts[11].key, false, true)
    &&& ins.accounts[8] == used(accounts[12].key, false, false)
    &&& handed_over(v)
    &&& v.signer_seeds == Some(SignerSeeds { key: accounts[0].key, nonce })
}

/// The accounts that are handed over are the program, and then those that the
/// instruction uses, in order.
pub open spec fn handed_over(v: InvocationView) -> bool {
    &&& v.accounts.len() == v.instruction.accounts.len() + 1
    &&& v.accounts[0] == v.instruction.program_id
    &&& forall|i: int|
        0 <= i < v.instruction.accounts.len() ==> #[trigger] v.accounts[i + 1]
            == v.instruction.accounts[i].pubkey
}

/// A request to place an order is refused for the first of its conditions that does
/// not hold. A granted one borrows what the account lacks of the token that pays,
/// for the market of the order, and sends the order.
#[verifier::rlimit(100)]
pub proof fn law_order_answer(
    program_id: Pubkey,
    accounts: Seq<AccountInfo>,
    market_i: usize,
    order: NewOrder,
    indexes: MangoResult<[MangoIndex; NUM_TOKENS]>,
)
    requires
        accounts.len() >= 20,
    ensures
        ({
            let r = order_placing(program_id, accounts, market_i, order, indexes);
            let margin = accounts[2].margin_account->Ok_0;
            let group = current_group(accounts, indexes);
            let market = accounts[5].market->Ok_0;
            let open_orders = accounts.subrange(13, 15);
            let needs = funding(margin, market, open_orders, market_i, order);
            let token = paying_token(order, market_i);
            let lacking = larger(
                order_cost(order, market) - order_means(margin, open_orders, order, market_i),
                0,
            );
            let after = if lacking == 0 {
                Ok((group, margin))
            } else {
                borrowed_unchecked(group, margin, token, lacking as u64)
            };
            let (group2, margin2) = after->Ok_0;
            let prices = token_prices(
                group2,
                accounts.subrange(17, 20),
                accounts.subrange(15, 17),
            );
            let why = first(
                unless(accounts[1].is_signer, Check::OwnerSigned),
                first(
                    group_failure(program_id, accounts[0]),
                    first(
                        margin_failure(accounts[0].key, accounts[2]),
                        first(
                            clock_failure(accounts[3]),
                            first(
                                unread(indexes),
                                first(
                                    unless(
                                        accounts[5].owner == group.dex_program_id,
                                        Check::MarketProgram,
                                    ),
                                    first(unread(accounts[5].market), failure_of(needs)),
                                ),
                            ),
                        ),
                    ),
                ),
            );
            let why_not = first(
                unless(group.vaults[token] == accounts[7].key, Check::VaultKey),
                first(
                    failure_of(after),
                    first(
                        failure_of(prices),
                        collateral_failure(group2, margin2, prices->Ok_0, open_orders),
                    ),
                ),
            );
            &&& failure_of(r) == first(why, why_not)
            &&& r matches Ok(update) ==> {
                &&& market_i < NUM_MARKETS
                &&& update.mango_group == Some(group2)
                &&& update.margin_account == Some(margin2)
                &&& update.invocation matches Some(v) && order_sent(
                    v,
                    accounts,
                    accounts[13 + market_i].key,
                    order,
                    group.signer_nonce,
                )
            }
        }),
{
    let margin = accounts[2].margin_account->Ok_0;
    let group = current_group(accounts, indexes);
    let market = accounts[5].market->Ok_0;
    let open_orders = accounts.subrange(13, 15);
    law_entrance(program_id, accounts[0], accounts[2]);
    law_up_to_date(accounts[0].mango_group->Ok_0, accounts[3], indexes);
    law_order_borrows(group, margin, market, open_orders, market_i, order, accounts[7].key);
    let token = paying_token(order, market_i);
    let lacking = larger(
        order_cost(order, market) - order_means(margin, open_orders, order, market_i),
        0,
    );
    let after = if lacking == 0 {
        Ok((group, margin))
    } else {
        borrowed_unchecked(group, margin, token, lacking as u64)
    };
    let (group2, margin2) = after->Ok_0;
    let prices = token_prices(group2, accounts.subrange(17, 20), accounts.subrange(15, 17));
    law_collateral(group2, margin2, prices->Ok_0, open_orders);
}

/// Why the funding of an order cannot be told: amounts of the order do not fit, the
/// market is none of the group, or its open orders cannot be read or are not those
/// of the account.
pub proof fn law_funding_refused(
    margin: MarginAccount,
    market: MarketState,
    open_orders: Seq<AccountInfo>,
    market_i: usize,
    order: NewOrder,
)
    ensures
        ({
            let acc = open_orders[market_i as int];
            let r = funding(margin, market, open_orders, market_i, order);
            &&& failure_of(r) == first(
                stops_unless(
                    order.limit_price * order.max_qty <= u64::MAX && order.limit_price
                        * order.max_qty * market.pc_lot_size <= u64::MAX && order.max_qty
                        * market.coin_lot_size <= u64::MAX && market_i < NUM_MARKETS,
                ),
                first(
                    unread(acc.open_orders),
                    first(
                        unless(
                            acc.key == margin.open_orders[market_i as int],
                            Check::OpenOrdersKey,
                        ),
                        stops_unless(order_fits(margin, market, open_orders, market_i, order)),
                    ),
                ),
            )
        }),
{
}

/// A request to cancel an order is refused for the first of its conditions that does
/// not hold. A granted one sends the data to the exchange, for the market and the
/// open orders of the request, signed for the group. The margin account is not
/// stored.
pub proof fn law_cancelling_answer(
    program_id: Pubkey,
    accounts: Seq<AccountInfo>,
    data: Seq<u8>,
    indexes: MangoResult<[MangoIndex; NUM_TOKENS]>,
)
    requires
        accounts.len() >= 9,
    ensures
        ({
            let r = order_cancelling(program_id, accounts, data, indexes);
            let margin = accounts[2].margin_account->Ok_0;
            let group = current_group(accounts, indexes);
            let place = position(group.spot_markets@, accounts[5].key, 0);
            let why = first(
                group_failure(program_id, accounts[0]),
                first(
                    margin_failure(accounts[0].key, accounts[2]),
                    first(
                        clock_failure(accounts[3]),
                        first(
                            unread(indexes),
                            first(
                                owner_failure(margin, accounts[1]),
                                first(
                                    stops_unless(place is Some),
                                    unless(
                                        margin.open_orders[place->0 as int] == accounts[6].key,
                                        Check::OpenOrdersKey,
                                    ),
                                ),
                            ),
                        ),
                    ),
                ),
            );
            &&& failure_of(r) == why
            &&& r matches Ok(update) ==> {
                let v = update.invocation->0;
                let ins = v.instruction;
                &&& update.mango_group == Some(group)
                &&& update.margin_account is None
                &&& update.invocation is Some
                &&& ins.program_id == accounts[4].key
                &&& ins.data == data
                &&& ins.accounts.len() == 4
                &&& ins.accounts[0] == used(accounts[5].key, false, false)
                &&& ins.accounts[1] == used(accounts[6].key, false, true)
                &&& ins.accounts[2] == used(accounts[7].key, false, true)
                &&& ins.accounts[3] == used(accounts[8].key, true, false)
                &&& handed_over(v)
                &&& v.signer_seeds == Some(
                    SignerSeeds { key: accounts[0].key, nonce: group.signer_nonce },
                )
                &&& exists|i: int|
                    0 <= i < NUM_MARKETS && group.spot_markets[i] == accounts[5].key
                        && #[trigger] margin.open_orders[i] == accounts[6].key
            }
        }),
{
    let group = current_group(accounts, indexes);
    let margin = accounts[2].margin_account->Ok_0;
    law_entrance(program_id, accounts[0], accounts[2]);
    law_owner(margin, accounts[1]);
    law_up_to_date(accounts[0].mango_group->Ok_0, accounts[3], indexes);
    law_first_place(group.spot_markets@, accounts[5].key, 0);
    if order_cancelling(program_id, accounts, data, indexes) is Ok {
        let i = position(group.spot_markets@, accounts[5].key, 0)->0 as int;
        assert(margin.open_orders[i] == accounts[6].key);
    }
}

/// Why an account may not be taken over: its worth cannot be told, it owes nothing,
/// its assets are at least the maintenance ratio times its liabilities, or with the
/// offer they are still less than the initial ratio times its liabilities.
pub open spec fn takeover_failure(
    group: MangoGroup,
    margin: MarginAccount,
    prices: Seq<U64F64>,
    open_orders: Seq<AccountInfo>,
    quantities: [u64; NUM_TOKENS],
) -> Option<Failure> {
    let assets = assets_worth(group, margin, prices, open_orders);
    let liabs = liabs_worth(group, margin, prices);
    let offer = offer_worth(prices, quantities);
    let top = (u128::MAX + 1) * liabs;
    first(
        failure_of(margin.assets(group, prices, open_orders)),
        first(
            failure_of(margin.liabs(group, prices)),
            first(
                unless(liabs > 0, Check::HasLiabilities),
                first(
                    stops_unless(assets * one_bits() < top),
                    first(
                        unless(
                            assets * one_bits() < group.maint_coll_ratio.bits * liabs,
                            Check::BelowMaintenance,
                        ),
                        first(
                            stops_unless(
                                fits(offer) && fits(assets + offer) && (assets + offer)
                                    * one_bits() < top,
                            ),
                            unless(
                                group.init_coll_ratio.bits * liabs <= (assets + offer)
                                    * one_bits(),
                                Check::RestoresCollateral,
                            ),
                        ),
                    ),
                ),
            ),
        ),
    )
}

/// An account may be taken over exactly where it owes something, its assets are less
/// than the maintenance ratio times its liabilities, and with the offered deposits,
/// each at the price of its token, they are at least the initial ratio times its
/// liabilities.
pub proof fn law_takeover(
    group: MangoGroup,
    margin: MarginAccount,
    prices: Seq<U64F64>,
    open_orders: Seq<AccountInfo>,
    quantities: [u64; NUM_TOKENS],
)
    ensures
        failure_of(takeover_checked(group, margin, prices, open_orders, quantities))
            == takeover_failure(group, margin, prices, open_orders, quantities),
{
    law_assets_valued(margin, group, prices, open_orders);
    law_liabs_valued(margin, group, prices);
    law_offer_valued(prices, quantities);
    if margin.assets(group, prices, open_orders) is Ok && margin.liabs(group, prices) is Ok {
        let a = margin.assets(group, prices, open_orders)->Ok_0;
        let l = margin.liabs(group, prices)->Ok_0;
        let offer = offer_worth(prices, quantities);
        if l.bits > 0 {
            lemma_quotient_fits(a.bits * one_bits(), l.bits as int);
            law_steps(a, l);
            let ratio = (a.bits * one_bits()) / l.bits as int;
            if fits(ratio) {
                lemma_reaches(
                    ratio,
                    a.bits * one_bits(),
                    l.bits as int,
                    group.maint_coll_ratio.bits as int,
                );
            }
            if fits(a.bits + offer) {
                let total = U64F64 { bits: (a.bits + offer) as u128 };
                lemma_quotient_fits(total.bits * one_bits(), l.bits as int);
                law_steps(total, l);
                let ratio2 = (total.bits * one_bits()) / l.bits as int;
                if fits(ratio2) {
                    lemma_reaches(
                        ratio2,
                        total.bits * one_bits(),
                        l.bits as int,
                        group.init_coll_ratio.bits as int,
                    );
                }
            }
        }
    }
}

/// A request to liquidate is refused for the first of its conditions that does not
/// hold. A granted one starts with the first token, the accounts as they are and the
/// offered quantities.
#[verifier::rlimit(50)]
pub proof fn law_liquidation_answer(
    program_id: Pubkey,
    accounts: Seq<AccountInfo>,
    quantities: [u64; NUM_TOKENS],
    indexes: MangoResult<[MangoIndex; NUM_TOKENS]>,
)
    requires
        accounts.len() >= 18,
    ensures
        ({
            let r = liquidation_asked(program_id, accounts, quantities, indexes);
            let margin = accounts[2].margin_account->Ok_0;
            let group = current_group(accounts, indexes);
            let prices = token_prices(
                group,
                accounts.subrange(15, 18),
                accounts.subrange(7, 9),
            );
            let why = first(
                unless(accounts[1].is_signer, Check::LiqorSigned),
                first(
                    group_failure(program_id, accounts[0]),
                    first(
                        margin_failure(accounts[0].key, accounts[2]),
                        first(
                            clock_failure(accounts[4]),
                            first(
                                unread(indexes),
                                first(
                                    orders_failure(margin, accounts[5], 0, accounts[2].key),
                                    first(
                                        orders_failure(margin, accounts[6], 1, accounts[2].key),
                                        failure_of(prices),
                                    ),
                                ),
                            ),
                        ),
                    ),
                ),
            );
            &&& failure_of(r) == first(
                why,
                takeover_failure(
                    group,
                    margin,
                    prices->Ok_0,
                    accounts.subrange(5, 7),
                    quantities,
                ),
            )
            &&& r matches Ok(state) ==> state == (Liquidation {
                mango_group: group,
                margin_account: margin,
                deposit_quantities: quantities,
                token: 0,
            })
        }),
{
    let margin = accounts[2].margin_account->Ok_0;
    let group = current_group(accounts, indexes);
    let open_orders = accounts.subrange(5, 7);
    law_entrance(program_id, accounts[0], accounts[2]);
    law_up_to_date(accounts[0].mango_group->Ok_0, accounts[4], indexes);
    law_orders_looked_at(margin, open_orders, accounts[2].key);
    assert(open_orders[0] == accounts[5] && open_orders[1] == accounts[6]);
    let prices = token_prices(group, accounts.subrange(15, 18), accounts.subrange(7, 9));
    law_takeover(group, margin, prices->Ok_0, open_orders, quantities);
}

/// A liquidation goes on with the first token that is still to be paid: its whole
/// quantity is moved from the liquidator's account for it to the vault account for
/// it, by the liquidator. Tokens without a quantity are passed over. Where no token
/// is left, the liquidator becomes the owner, and nothing else changes.
pub proof fn law_liquidation_step(state: Liquidation, accounts: Seq<AccountInfo>)
    ensures
        ({
            let quantities = state.deposit_quantities;
            match liquidation_next(state, accounts) {
                LiquidationStepView::Transfer(v, paying) => {
                    let token = paying.token as int;
                    &&& state.token <= token < NUM_TOKENS
                    &&& quantities[token] > 0
                    &&& forall|t: int| state.token <= t < token ==> #[trigger] quantities[t] == 0
                    &&& paying == (Liquidation { token: paying.token, ..state })
                    &&& v == moves(
                        accounts[12 + token].key,
                        accounts[9 + token].key,
                        accounts[1].key,
                        quantities[token],
                        accounts[3].key,
                        None,
                    )
                },
                LiquidationStepView::Done(update) => {
                    &&& forall|t: int|
                        state.token <= t < NUM_TOKENS ==> #[trigger] quantities[t] == 0
                    &&& update == leads_to(
                        state.mango_group,
                        MarginAccount { owner: accounts[1].key, ..state.margin_account },
                        None,
                    )
                },
            }
        }),
{
    lemma_next_deposit(state.deposit_quantities, state.token as int);
}

/// A request to settle funds is refused for the first of its conditions that does
/// not hold. A granted one starts with the first market and the accounts as they
/// are.
pub proof fn law_settlement_answer(
    program_id: Pubkey,
    accounts: Seq<AccountInfo>,
    indexes: MangoResult<[MangoIndex; NUM_TOKENS]>,
)
    requires
        accounts.len() >= 19,
    ensures
        ({
            let r = settlement_asked(program_id, accounts, indexes);
            let margin = accounts[2].margin_account->Ok_0;
            let group = current_group(accounts, indexes);
            let why = first(
                group_failure(program_id, accounts[0]),
                first(
                    margin_failure(accounts[0].key, accounts[2]),
                    first(
                        clock_failure(accounts[3]),
                        first(unread(indexes), owner_failure(margin, accounts[1])),
                    ),
                ),
            );
            &&& failure_of(r) == why
            &&& r matches Ok(state) ==> state == (Settlement {
                mango_group: group,
                margin_account: margin,
                market: 0,
            })
        }),
{
    law_entrance(program_id, accounts[0], accounts[2]);
    law_owner(accounts[2].margin_account->Ok_0, accounts[1]);
    law_up_to_date(accounts[0].mango_group->Ok_0, accounts[3], indexes);
}

/// Why a settlement does not get past a market: its open orders account is not the
/// one that the margin account records for it, or cannot be read.
pub open spec fn unsettled_failure(
    margin: MarginAccount,
    accounts: Seq<AccountInfo>,
    market: int,
) -> Option<Failure> {
    first(
        unless(margin.open_orders[market] == accounts[8 + market].key, Check::OpenOrdersKey),
        unread(accounts[8 + market].open_orders),
    )
}

/// Whether the open orders on a market have free funds.
pub open spec fn has_free(accounts: Seq<AccountInfo>, market: int) -> bool {
    let orders = accounts[8 + market].open_orders->Ok_0;
    orders.native_coin_free > 0 || orders.native_pc_free > 0
}

/// The invocation that settles a market: for the market and the open orders of the
/// request at its place, into the vaults of the group, with the signer of the group
/// as the one that signs.
pub open spec fn settle_sent(
    v: InvocationView,
    accounts: Seq<AccountInfo>,
    group: MangoGroup,
    market: int,
) -> bool {
    let ins = v.instruction;
    &&& ins.program_id == accounts[4].key
    &&& ins.data == settle_funds_data()
    &&& ins.accounts.len() == 9
    &&& ins.accounts[0] == used(accounts[10 + market].key, false, true)
    &&& ins.accounts[1] == used(accounts[8 + market].key, false, true)
    &&& ins.accounts[2] == used(accounts[5].key, true, false)
    &&& ins.accounts[3] == used(accounts[12 + market].key, false, true)
    &&& ins.accounts[4] == used(accounts[14 + market].key, false, true)
    &&& ins.accounts[5] == used(group.vaults[market], false, true)
    &&& ins.accounts[6] == used(group.vaults[2], false, true)
    &&& ins.accounts[7] == used(accounts[6].key, false, false)
    &&& ins.accounts[8] == used(accounts[7].key, false, false)
    &&& handed_over(v)
    &&& v.signer_seeds == Some(SignerSeeds { key: accounts[0].key, nonce: group.signer_nonce })
}

/// A settlement goes on with the first market from the one in turn that has free
/// funds. Markets before it have none, and their open orders are those of the
/// account. Where the vaults are not those of the group it is refused. Where no
/// market has free funds, the accounts are stored as they are.
pub proof fn law_settlement_step(state: Settlement, accounts: Seq<AccountInfo>)
    ensures
        ({
            let margin = state.margin_account;
            let group = state.mango_group;
            match settlement_next(state, accounts) {
                Ok(SettlementStepView::Settle(v, at)) => {
                    let market = at.market as int;
                    &&& state.market <= market < NUM_MARKETS
                    &&& at == (Settlement { market: at.market, ..state })
                    &&& has_free(accounts, market)
                    &&& forall|m: int|
                        state.market <= m <= market ==> #[trigger] unsettled_failure(
                            margin,
                            accounts,
                            m,
                        ) is None
                    &&& forall|m: int|
                        state.market <= m < market ==> !#[trigger] has_free(accounts, m)
                    &&& settle_sent(v, accounts, group, market)
                    &&& accounts[16 + market].key == group.vaults[market]
                    &&& accounts[18].key == group.vaults[2]
                },
                Ok(SettlementStepView::Done(update)) => {
                    &&& forall|m: int|
                        state.market <= m < NUM_MARKETS ==> #[trigger] unsettled_failure(
                            margin,
                            accounts,
                            m,
                        ) is None
                    &&& forall|m: int|
                        state.market <= m < NUM_MARKETS ==> !#[trigger] has_free(accounts, m)
                    &&& update == leads_to(group, margin, None)
                },
                Err(e) => exists|market: int|
                    #![trigger unsettled_failure(margin, accounts, market)]
                    {
                        &&& state.market <= market < NUM_MARKETS
                        &&& forall|m: int|
                            state.market <= m < market ==> #[trigger] unsettled_failure(
                                margin,
                                accounts,
                                m,
                            ) is None && !has_free(accounts, m)
                        &&& first(
                            unsettled_failure(margin, accounts, market),
                            unless(
                                !has_free(accounts, market) || (accounts[16 + market].key
                                    == group.vaults[market] && accounts[18].key
                                    == group.vaults[2]),
                                Check::VaultKey,
                            ),
                        ) == Some(e)
                    },
            }
        }),
{
    lemma_settlement_scan(state, accounts, state.market as int);
}

proof fn lemma_settlement_scan(state: Settlement, accounts: Seq<AccountInfo>, from: int)
    requires
        0 <= from,
    ensures
        ({
            let margin = state.margin_account;
            match next_market(margin, accounts, from) {
                Ok(market) => {
                    &&& market <= NUM_MARKETS
                    &&& market < NUM_MARKETS ==> from <= market && has_free(accounts, market)
                        && unsettled_failure(margin, accounts, market) is None
                    &&& forall|m: int|
                        from <= m < market ==> #[trigger] unsettled_failure(
                            margin,
                            accounts,
                            m,
                        ) is None
                    &&& forall|m: int| from <= m < market ==> !#[trigger] has_free(accounts, m)
                },
                Err(e) => exists|market: int|
                    #![trigger unsettled_failure(margin, accounts, market)]
                    {
                        &&& from <= market < NUM_MARKETS
                        &&& forall|m: int|
                            from <= m < market ==> #[trigger] unsettled_failure(
                                margin,
                                accounts,
                                m,
                            ) is None && !has_free(accounts, m)
                        &&& unsettled_failure(margin, accounts, market) == Some(e)
                    },
            }
        }),
    decreases NUM_MARKETS - from,
{
    let margin = state.margin_account;
    if from < NUM_MARKETS {
        let f = unsettled_failure(margin, accounts, from);
        let h = has_free(accounts, from);
        assert(failure_of(orders_before(margin, accounts, from)) == f);
        if f is None && !h {
            lemma_settlement_scan(state, accounts, from + 1);
            if let Err(e) = next_market(margin, accounts, from + 1) {
                let market = choose|market: int|
                    #![trigger unsettled_failure(margin, accounts, market)]
                    {
                        &&& from + 1 <= market < NUM_MARKETS
                        &&& forall|m: int|
                            from + 1 <= m < market ==> #[trigger] unsettled_failure(
                                margin,
                                accounts,
                                m,
                            ) is None && !has_free(accounts, m)
                        &&& unsettled_failure(margin, accounts, market) == Some(e)
                    };
                assert(unsettled_failure(margin, accounts, market) == Some(e));
            }
        }
    }
}

/// A market that was settled adds what left its open orders to the positions, and
/// the next market is in turn. A failed call, and open orders that cannot be read
/// afterwards, fail the settlement with their error.
pub proof fn law_market_settled(
    state: Settlement,
    accounts: Seq<AccountInfo>,
    reply: MangoResult<()>,
    after: MangoResult<OpenOrders>,
)
    requires
        state.market < NUM_MARKETS,
    ensures
        ({
            let market = state.market as int;
            let r = market_settled(state, accounts, reply, after);
            let margin2 = proceeds_added(
                state.margin_account,
                accounts[8 + market].open_orders->Ok_0,
                after->Ok_0,
                market,
            );
            &&& failure_of(r) == first(
                unsettled_failure(state.margin_account, accounts, market),
                first(unread(reply), first(unread(after), failure_of(margin2))),
            )
            &&& r matches Ok(next) ==> next == (Settlement {
                mango_group: state.mango_group,
                margin_account: margin2->Ok_0,
                market: (market + 1) as usize,
            })
        }),
{
}

/// A request to set up a group is refused for the first of its conditions that does
/// not hold. A granted one stores a group with the keys of the request, each at its
/// place, indexes of one from the time of the clock, nothing deposited or lent, and
/// the terms that were asked for.
#[verifier::rlimit(50)]
pub proof fn law_new_group_answer(
    program_id: Pubkey,
    accounts: Seq<AccountInfo>,
    signer_nonce: u64,
    maint_coll_ratio: U64F64,
    init_coll_ratio: U64F64,
)
    requires
        accounts.len() >= 15,
    ensures
        ({
            let r = group_init(
                program_id,
                accounts,
                signer_nonce,
                maint_coll_ratio,
                init_coll_ratio,
            );
            let signer = accounts[3].key;
            let dex = accounts[4].key;
            let quote = accounts[7].key;
            let why = first(
                new_group_failure(program_id, accounts, signer_nonce),
                first(
                    vault_failure(accounts[5], accounts[8], signer),
                    first(
                        vault_failure(accounts[6], accounts[9], signer),
                        first(
                            vault_failure(accounts[7], accounts[10], signer),
                            first(
                                market_failure(accounts[11], dex, accounts[5].key, quote),
                                market_failure(accounts[12], dex, accounts[6].key, quote),
                            ),
                        ),
                    ),
                ),
            );
            &&& failure_of(r) == why
            &&& r matches Ok(update) ==> {
                let group = update.mango_group->0;
                let time = le_value(accounts[2].data->Ok_0@.subrange(32, 40)) as u64;
                &&& update.invocation is None
                &&& update.margin_account is None
                &&& update.mango_group is Some
                &&& group.account_flags == 3
                &&& forall|t: int|
                    #![trigger group.tokens[t]]
                    0 <= t < NUM_TOKENS ==> {
                        &&& group.tokens[t] == accounts[5 + t].key
                        &&& group.vaults[t] == accounts[8 + t].key
                        &&& group.indexes[t].last_update == time
                        &&& group.indexes[t].borrow.bits == one_bits()
                        &&& group.indexes[t].deposit.bits == one_bits()
                        &&& group.total_deposits[t].bits == 0
                        &&& group.total_borrows[t].bits == 0
                    }
                &&& forall|m: int|
                    #![trigger group.spot_markets[m]]
                    0 <= m < NUM_MARKETS ==> group.spot_markets[m] == accounts[11 + m].key
                        && group.oracles[m] == accounts[13 + m].key
                &&& group.signer_nonce == signer_nonce
                &&& group.signer_key == signer
                &&& group.dex_program_id == dex
                &&& group.maint_coll_ratio == maint_coll_ratio
                &&& group.init_coll_ratio == init_coll_ratio
            }
        }),
{
    let mints = accounts.subrange(5, 8);
    let vaults = accounts.subrange(8, 11);
    let markets = accounts.subrange(11, 13);
    law_new_group_looked_at(program_id, accounts, signer_nonce);
    law_vaults_looked_at(mints, vaults, accounts[3].key);
    law_markets_looked_at(markets, accounts[4].key, mints);
    assert(mints[0] == accounts[5] && mints[1] == accounts[6] && mints[2] == accounts[7]);
    assert(vaults[0] == accounts[8] && vaults[1] == accounts[9] && vaults[2] == accounts[10]);
    assert(markets[0] == accounts[11] && markets[1] == accounts[12]);
    assert(whole(1).bits == one_bits());
}

/// A request to set up a margin account is refused for the first of its conditions
/// that does not hold. A granted one stores an empty margin account of the group and
/// the owner, with the open orders accounts of the request.
#[verifier::rlimit(50)]
pub proof fn law_new_margin_answer(program_id: Pubkey, accounts: Seq<AccountInfo>)
    requires
        accounts.len() >= 6,
    ensures
        ({
            let r = margin_init(program_id, accounts);
            let dex = accounts[0].mango_group->Ok_0.dex_program_id;
            let why = first(
                group_failure(program_id, accounts[0]),
                first(
                    new_margin_failure(program_id, accounts),
                    first(
                        new_orders_failure(accounts[4], accounts[3], dex),
                        new_orders_failure(accounts[5], accounts[3], dex),
                    ),
                ),
            );
            &&& failure_of(r) == why
            &&& r matches Ok(update) ==> {
                let margin = update.margin_account->0;
                &&& update.invocation is None
                &&& update.mango_group is None
                &&& update.margin_account is Some
                &&& margin.account_flags == 5
                &&& margin.mango_group == accounts[0].key
                &&& margin.owner == accounts[2].key
                &&& forall|t: int|
                    #![trigger margin.positions[t]]
                    0 <= t < NUM_TOKENS ==> margin.positions[t] == 0 && margin.deposits[t].bits == 0
                        && margin.borrows[t].bits == 0
                &&& forall|m: int|
                    #![trigger margin.open_orders[m]]
                    0 <= m < NUM_MARKETS ==> margin.open_orders[m] == accounts[4 + m].key
            }
        }),
{
    let open_orders = accounts.subrange(4, 6);
    law_entrance(program_id, accounts[0], accounts[1]);
    law_new_margin_looked_at(program_id, accounts);
    if new_margin_failure(program_id, accounts) is None {
        law_new_orders_looked_at(
            open_orders,
            accounts[3],
            accounts[0].mango_group->Ok_0.dex_program_id,
        );
    }
    assert(open_orders[0] == accounts[4] && open_orders[1] == accounts[5]);
}

/// A request with too few accounts stops: each instruction has its number.
pub proof fn law_accounts_counted(
    program_id: Pubkey,
    accounts: Seq<AccountInfo>,
    instruction: MangoInstruction,
    indexes: MangoResult<[MangoIndex; NUM_TOKENS]>,
)
    requires
        accounts.len() < (match instruction {
            MangoInstruction::InitMangoGroup { .. } => 15int,
            MangoInstruction::InitMarginAccount => 6,
            MangoInstruction::Deposit { .. } => 8,
            MangoInstruction::Withdraw { .. } => 15,
            MangoInstruction::Borrow { .. } => 11,
            MangoInstruction::SettleBorrow { .. } => 4,
            MangoInstruction::Liquidate { .. } => 18,
            MangoInstruction::PlaceOrder { .. } => 20,
            MangoInstruction::SettleFunds => 19,
            MangoInstruction::CancelOrder { .. } => 9,
            MangoInstruction::CancelOrderByClientId { .. } => 9,
        }),
    ensures
        processed(program_id, accounts, Some(instruction), indexes) == Err::<
            ProgressView,
            Failure,
        >(Failure::Aborted),
{
}

/// The answer of a handler is that of the request: an update is done with, and a
/// failure is the request's.
pub open spec fn answers(
    r: Result<ProgressView, Failure>,
    handled: Result<UpdateView, Failure>,
) -> bool {
    match handled {
        Ok(update) => r == Ok::<ProgressView, Failure>(ProgressView::Done(update)),
        Err(e) => r == Err::<ProgressView, Failure>(e),
    }
}

/// Each instruction is answered by its own handler with its own arguments. Cancelling
/// by client id sends the eight bytes of the id. Without an instruction the request
/// is refused.
pub proof fn law_dispatch(
    program_id: Pubkey,
    accounts: Seq<AccountInfo>,
    indexes: MangoResult<[MangoIndex; NUM_TOKENS]>,
    token_index: usize,
    quantity: u64,
    nonce: u64,
    maint: U64F64,
    init: U64F64,
    quantities: [u64; NUM_TOKENS],
    order: NewOrder,
    cancel: CancelOrder,
)
    ensures
        processed(program_id, accounts, None, indexes) == Err::<ProgressView, Failure>(
            Failure::Refused(MangoError::ProgramError(INVALID_INSTRUCTION_DATA)),
        ),
        answers(
            processed(
                program_id,
                accounts,
                Some(
                    MangoInstruction::InitMangoGroup {
                        signer_nonce: nonce,
                        maint_coll_ratio: maint,
                        init_coll_ratio: init,
                    },
                ),
                indexes,
            ),
            group_init(program_id, accounts, nonce, maint, init),
        ),
        answers(
            processed(program_id, accounts, Some(MangoInstruction::InitMarginAccount), indexes),
            margin_init(program_id, accounts),
        ),
        answers(
            processed(
                program_id,
                accounts,
                Some(MangoInstruction::Withdraw { token_index, quantity }),
                indexes,
            ),
            withdrawal(program_id, accounts, token_index, quantity, indexes),
        ),
        answers(
            processed(
                program_id,
                accounts,
                Some(MangoInstruction::Borrow { token_index, quantity }),
                indexes,
            ),
            borrowing(program_id, accounts, token_index, quantity, indexes),
        ),
        answers(
            processed(
                program_id,
                accounts,
                Some(MangoInstruction::SettleBorrow { token_index, quantity }),
                indexes,
            ),
            borrow_settling(program_id, accounts, token_index, quantity, indexes),
        ),
        answers(
            processed(
                program_id,
                accounts,
                Some(MangoInstruction::PlaceOrder { market_i: token_index, order }),
                indexes,
            ),
            order_placing(program_id, accounts, token_index, order, indexes),
        ),
        answers(
            processed(
                program_id,
                accounts,
                Some(MangoInstruction::CancelOrder { instruction: cancel }),
                indexes,
            ),
            order_cancelling(program_id, accounts, cancel_order_data(cancel), indexes),
        ),
        answers(
            processed(
                program_id,
                accounts,
                Some(MangoInstruction::CancelOrderByClientId { client_id: quantity }),
                indexes,
            ),
            order_cancelling(program_id, accounts, le_bytes(quantity as nat, 8), indexes),
        ),
        ({
            let r = processed(
                program_id,
                accounts,
                Some(MangoInstruction::Deposit { quantity }),
                indexes,
            );
            match deposit_asked(program_id, accounts, quantity, indexes) {
                Ok((v, pending)) => r == Ok::<ProgressView, Failure>(
                    ProgressView::Deposit(v, pending),
                ),
                Err(e) => r == Err::<ProgressView, Failure>(e),
            }
        }),
        ({
            let r = processed(
                program_id,
                accounts,
                Some(MangoInstruction::Liquidate { deposit_quantities: quantities }),
                indexes,
            );
            match liquidation_asked(program_id, accounts, quantities, indexes) {
                Ok(state) => r == Ok::<ProgressView, Failure>(ProgressView::Liquidate(state)),
                Err(e) => r == Err::<ProgressView, Failure>(e),
            }
        }),
        ({
            let r = processed(
                program_id,
                accounts,
                Some(MangoInstruction::SettleFunds),
                indexes,
            );
            match settlement_asked(program_id, accounts, indexes) {
                Ok(state) => r == Ok::<ProgressView, Failure>(ProgressView::SettleFunds(state)),
                Err(e) => r == Err::<ProgressView, Failure>(e),
            }
        }),
{
}

/// What an update, an invocation or an instruction says is what it holds, field by
/// field.
pub proof fn law_views(update: Update, progress: Progress)
    ensures
        update@.mango_group == update.mango_group,
        update@.margin_account == update.margin_account,
        update.invocation is None <==> update@.invocation is None,
        update.invocation matches Some(v) ==> {
            &&& update@.invocation->0.instruction.program_id == v.instruction.program_id
            &&& update@.invocation->0.instruction.accounts == v.instruction.accounts@
            &&& update@.invocation->0.instruction.data == v.instruction.data@
            &&& update@.invocation->0.accounts == v.accounts@
            &&& update@.invocation->0.signer_seeds == v.signer_seeds
        },
        progress matches Progress::Done(u) ==> progress@ == ProgressView::Done(u@),
        progress matches Progress::Deposit(v, pending) ==> progress@ == ProgressView::Deposit(
            v@,
            pending,
        ),
        progress matches Progress::Liquidate(state) ==> progress@ == ProgressView::Liquidate(state),
        progress matches Progress::SettleFunds(state) ==> progress@ == ProgressView::SettleFunds(
            state,
        ),
{
}

/// What is shown of a result is the result: a success with what it says, a failure as
/// it is.
pub proof fn law_results_shown(
    done: Result<Update, Failure>,
    progress: Result<Progress, Failure>,
    pending: Result<(Invocation, PendingDeposit), Failure>,
    paying: Result<LiquidationStep, Failure>,
    settling: Result<SettlementStep, Failure>,
    prices: Result<[U64F64; NUM_TOKENS], Failure>,
)
    ensures
        failure_of(outcome(done)) == failure_of(done),
        done matches Ok(update) ==> outcome(done)->Ok_0 == update@,
        failure_of(progress_view(progress)) == failure_of(progress),
        progress matches Ok(p) ==> progress_view(progress)->Ok_0 == p@,
        failure_of(pending_view(pending)) == failure_of(pending),
        pending matches Ok((v, rest)) ==> pending_view(pending)->Ok_0 == (v@, rest),
        failure_of(liquidation_step_view(paying)) == failure_of(paying),
        paying matches Ok(LiquidationStep::Transfer(v, state)) ==> liquidation_step_view(
            paying,
        )->Ok_0 == LiquidationStepView::Transfer(v@, state),
        paying matches Ok(LiquidationStep::Done(update)) ==> liquidation_step_view(paying)->Ok_0
            == LiquidationStepView::Done(update@),
        failure_of(settlement_step_view(settling)) == failure_of(settling),
        settling matches Ok(SettlementStep::Settle(v, state)) ==> settlement_step_view(
            settling,
        )->Ok_0 == SettlementStepView::Settle(v@, state),
        settling matches Ok(SettlementStep::Done(update)) ==> settlement_step_view(settling)->Ok_0
            == SettlementStepView::Done(update@),
        failure_of(prices_view(prices)) == failure_of(prices),
        prices matches Ok(p) ==> prices_view(prices)->Ok_0 == p@,
{
}

/// Where an instruction has a place for a clock, the request gets anywhere only with
/// a clock there, and what it stores of the group has the indexes for its time. The
/// others are those that set an account up, and take no indexes.
pub proof fn law_clock_place(
    program_id: Pubkey,
    accounts: Seq<AccountInfo>,
    instruction: MangoInstruction,
    indexes: MangoResult<[MangoIndex; NUM_TOKENS]>,
    other_indexes: MangoResult<[MangoIndex; NUM_TOKENS]>,
)
    ensures
        processed(program_id, accounts, Some(instruction), indexes) is Ok ==> (
        instruction.clock_place() matches Some(place) ==> place < accounts.len() && clock_failure(
            accounts[place as int],
        ) is None && indexes is Ok),
        instruction.clock_place() is None ==> processed(
            program_id,
            accounts,
            Some(instruction),
            indexes,
        ) == processed(program_id, accounts, Some(instruction), other_indexes),
        instruction.clock_place() is None <==> instruction is InitMangoGroup
            || instruction is InitMarginAccount,
        instruction.margin_place() is None <==> instruction is InitMangoGroup,
        instruction is InitMarginAccount ==> instruction.margin_place() == Some(1usize),
{
    if let Some(place) = instruction.clock_place() {
        if place < accounts.len() {
            law_up_to_date(accounts[0].mango_group->Ok_0, accounts[place as int], indexes);
        }
    }
}

/// A granted withdrawal lowers position and native deposit of the account together by
/// the quantity that is paid out, or, from rounding, by one less, at any index. The
/// deposit falls by the indexed amount of what the position lacks, and that of the
/// group by the same. The assets that are left are at least the initial ratio times
/// the liabilities.
pub proof fn law_withdrawal_granted(
    program_id: Pubkey,
    accounts: Seq<AccountInfo>,
    token_index: usize,
    quantity: u64,
    indexes: MangoResult<[MangoIndex; NUM_TOKENS]>,
)
    requires
        withdrawal(program_id, accounts, token_index, quantity, indexes) is Ok,
    ensures
        ({
            let update = withdrawal(program_id, accounts, token_index, quantity, indexes)->Ok_0;
            let (group2, margin2) = (update.mango_group->0, update.margin_account->0);
            let margin = accounts[1].margin_account->Ok_0;
            let group = current_group(accounts, indexes);
            let token = token_index as int;
            let index = group.indexes[token].deposit;
            let rest = larger(quantity - margin.positions[token], 0) as u64;
            let drawn = if rest == 0 {
                0
            } else {
                indexed(rest, index)->Ok_0.bits as int
            };
            let before = margin.positions[token] + native(margin.deposits[token], index)->Ok_0;
            let after = margin2.positions[token] + native(margin2.deposits[token], index)->Ok_0;
            &&& after + quantity == before || after + quantity == before + 1
            &&& margin2.positions[token] == larger(margin.positions[token] - quantity, 0)
            &&& margin.deposits[token].bits - margin2.deposits[token].bits == drawn
            &&& group.total_deposits[token].bits - group2.total_deposits[token].bits == drawn
            &&& only_token((group, margin), (group2, margin2), token)
            &&& margin2.borrows == margin.borrows
            &&& covered_at(
                group2,
                margin2,
                token_prices(group, accounts.subrange(12, 15), accounts.subrange(10, 12))->Ok_0,
                accounts.subrange(8, 10),
                group.init_coll_ratio,
            )
        }),
{
    let margin = accounts[1].margin_account->Ok_0;
    let group = current_group(accounts, indexes);
    law_withdrawal_answer(program_id, accounts, token_index, quantity, indexes);
    law_withdrawal_takes(group, margin, token_index as int, quantity);
    law_available(group, margin, token_index as int);
}

/// A granted borrow raises the position by the quantity and the borrow of the account
/// and of the group by its indexed amount. The assets, each at the price of its own
/// token, are then at least the initial ratio times the liabilities, each at the
/// price of its own token.
pub proof fn law_borrow_granted(
    program_id: Pubkey,
    accounts: Seq<AccountInfo>,
    token_index: usize,
    quantity: u64,
    indexes: MangoResult<[MangoIndex; NUM_TOKENS]>,
)
    requires
        borrowing(program_id, accounts, token_index, quantity, indexes) is Ok,
    ensures
        ({
            let update = borrowing(program_id, accounts, token_index, quantity, indexes)->Ok_0;
            let (group2, margin2) = (update.mango_group->0, update.margin_account->0);
            let margin = accounts[1].margin_account->Ok_0;
            let group = current_group(accounts, indexes);
            &&& borrow_made((group, margin), (group2, margin2), token_index as int, quantity)
            &&& covered_at(
                group2,
                margin2,
                token_prices(group2, accounts.subrange(8, 11), accounts.subrange(6, 8))->Ok_0,
                accounts.subrange(4, 6),
                group.init_coll_ratio,
            )
        }),
{
    let margin = accounts[1].margin_account->Ok_0;
    let group = current_group(accounts, indexes);
    law_borrow_answer(program_id, accounts, token_index, quantity, indexes);
    law_borrow_adds(group, margin, token_index as int, quantity);
}

/// A granted repayment lowers the native borrow of the account by what position and
/// deposit pay, its position by what the position pays, and its native deposit by
/// what the deposit pays, at any indexes; the native amounts may be one less, from
/// rounding.
pub proof fn law_repayment_granted(
    program_id: Pubkey,
    accounts: Seq<AccountInfo>,
    token_index: usize,
    quantity: u64,
    indexes: MangoResult<[MangoIndex; NUM_TOKENS]>,
)
    requires
        borrow_settling(program_id, accounts, token_index, quantity, indexes) is Ok,
    ensures
        ({
            let update = borrow_settling(
                program_id,
                accounts,
                token_index,
                quantity,
                indexes,
            )->Ok_0;
            let margin2 = update.margin_account->0;
            let margin = accounts[1].margin_account->Ok_0;
            let token = token_index as int;
            let index = current_group(accounts, indexes).indexes[token];
            let borrow = native(margin.borrows[token], index.borrow)->Ok_0;
            let deposit = native(margin.deposits[token], index.deposit)->Ok_0;
            let borrow2 = native(margin2.borrows[token], index.borrow)->Ok_0;
            let deposit2 = native(margin2.deposits[token], index.deposit)->Ok_0;
            let due = smaller(quantity as int, borrow as int);
            let by_position = smaller(due, margin.positions[token] as int);
            let by_deposit = smaller(due - by_position, deposit as int);
            &&& margin2.positions[token] + by_position == margin.positions[token]
            &&& deposit2 + by_deposit == deposit || deposit2 + by_deposit + 1 == deposit
            &&& borrow2 + by_position + by_deposit == borrow || borrow2 + by_position + by_deposit
                + 1 == borrow
        }),
{
    let margin = accounts[1].margin_account->Ok_0;
    let group = current_group(accounts, indexes);
    law_repayment_answer(program_id, accounts, token_index, quantity, indexes);
    law_repayment_takes(group, margin, token_index as int, quantity);
}

/// A granted order on a market borrows exactly what is lacking of the token that pays:
/// the cost of the order less the position in that token and what is free of it in
/// the open orders of that market. The position grows by it, and the borrow of the
/// account and of the group by its indexed amount. Where nothing is lacking, nothing
/// changes.
pub proof fn law_order_granted(
    program_id: Pubkey,
    accounts: Seq<AccountInfo>,
    market_i: usize,
    order: NewOrder,
    indexes: MangoResult<[MangoIndex; NUM_TOKENS]>,
)
    requires
        order_placing(program_id, accounts, market_i, order, indexes) is Ok,
    ensures
        ({
            let update = order_placing(program_id, accounts, market_i, order, indexes)->Ok_0;
            let (group2, margin2) = (update.mango_group->0, update.margin_account->0);
            let margin = accounts[2].margin_account->Ok_0;
            let group = current_group(accounts, indexes);
            let market = accounts[5].market->Ok_0;
            let orders = accounts[13 + market_i].open_orders->Ok_0;
            let quote = NUM_MARKETS as int;
            let (token, cost, free) = match order.side {
                Side::Bid => (
                    quote,
                    order.limit_price * order.max_qty * market.pc_lot_size,
                    orders.native_pc_free,
                ),
                Side::Ask => (
                    market_i as int,
                    order.max_qty * market.coin_lot_size,
                    orders.native_coin_free,
                ),
            };
            let lacking = larger(cost - free - margin.positions[token], 0);
            &&& market_i < NUM_MARKETS
            &&& margin2.positions[token] == margin.positions[token] + lacking
            &&& lacking > 0 ==> {
                let added = indexed(lacking as u64, group.indexes[token].borrow)->Ok_0.bits;
                &&& margin2.borrows[token].bits == margin.borrows[token].bits + added
                &&& group2.total_borrows[token].bits == group.total_borrows[token].bits + added
                &&& only_token((group, margin), (group2, margin2), token)
                &&& margin2.deposits == margin.deposits
            }
            &&& lacking == 0 ==> (group2, margin2) == (group, margin)
            &&& group.vaults[token] == accounts[7].key
            &&& covered_at(
                group2,
                margin2,
                token_prices(group2, accounts.subrange(17, 20), accounts.subrange(15, 17))->Ok_0,
                accounts.subrange(13, 15),
                group.init_coll_ratio,
            )
        }),
{
    let margin = accounts[2].margin_account->Ok_0;
    let group = current_group(accounts, indexes);
    let market = accounts[5].market->Ok_0;
    let open_orders = accounts.subrange(13, 15);
    law_order_answer(program_id, accounts, market_i, order, indexes);
    law_order_borrows(group, margin, market, open_orders, market_i, order, accounts[7].key);
    let lacking = larger(
        order_cost(order, market) - order_means(margin, open_orders, order, market_i),
        0,
    );
    assert(open_orders[market_i as int] == accounts[13 + market_i]);
    law_borrow_adds(group, margin, paying_token(order, market_i), lacking as u64);
}

/// A liquidation starts only where the assets are less than the maintenance ratio
/// times the liabilities, and where the assets and the offered deposits, each token
/// at its own price, are at least the initial ratio times the liabilities.
pub proof fn law_liquidation_granted(
    program_id: Pubkey,
    accounts: Seq<AccountInfo>,
    quantities: [u64; NUM_TOKENS],
    indexes: MangoResult<[MangoIndex; NUM_TOKENS]>,
)
    requires
        liquidation_asked(program_id, accounts, quantities, indexes) is Ok,
    ensures
        ({
            let margin = accounts[2].margin_account->Ok_0;
            let group = current_group(accounts, indexes);
            let prices = token_prices(
                group,
                accounts.subrange(15, 18),
                accounts.subrange(7, 9),
            )->Ok_0;
            let assets = assets_worth(group, margin, prices, accounts.subrange(5, 7));
            let liabs = liabs_worth(group, margin, prices);
            let offer = prices[0].bits * quantities[0] + prices[1].bits * quantities[1]
                + prices[2].bits * quantities[2];
            &&& liabs > 0
            &&& assets * one_bits() < group.maint_coll_ratio.bits * liabs
            &&& group.init_coll_ratio.bits * liabs <= (assets + offer) * one_bits()
        }),
{
    law_liquidation_answer(program_id, accounts, quantities, indexes);
}

} // verus!
