//! Why a request is refused: what is looked at, and what each look leads to.

use vstd::arithmetic::div_mod::lemma_div_denominator;
use vstd::arithmetic::power::{lemma_pow0, lemma_pow1, lemma_pow_adds, lemma_pow_positive, pow};
use vstd::prelude::*;

use crate::bytes::{le_bytes, le_value};
use crate::error::{Check, Failure, MangoError, MangoResult, INVALID_ARGUMENT};
use crate::fixed_point::{whole, U64F64};
use crate::instruction::program_address;
use crate::laws::balances::unmet_by;
use crate::laws::value::{cent_rate, covered_at, decimals, fits, law_ratio_reaches};
use crate::laws::value::{lemma_market_price, mint_ready};
use crate::prices::{market_price, market_prices, token_prices};
use crate::processor::init::{all_new_orders_checked, group_checked, margin_checked};
use crate::processor::init::{markets_checked, vaults_checked};
use crate::processor::{accrued, collateral_checked, coverage_checked, entered, orders_checked};
use crate::processor::owner_checked;
use crate::state::{native, position, AccountInfo, MangoGroup, MangoIndex, MarginAccount};
use crate::state::{Pubkey, NUM_MARKETS, NUM_TOKENS};
use crate::sysvar::{clock_key, clock_read, rent_key, rent_minimum};
use crate::token::{mint_decimals, token_account, token_program};

verus! {

/// The first of two failures.
pub open spec fn first(a: Option<Failure>, b: Option<Failure>) -> Option<Failure> {
    if a is Some {
        a
    } else {
        b
    }
}

/// A condition, and the check that it is named by.
pub open spec fn unless(cond: bool, check: Check) -> Option<Failure> {
    if cond {
        None
    } else {
        Some(unmet_by(check))
    }
}

/// A condition without which the request stops.
pub open spec fn stops_unless(cond: bool) -> Option<Failure> {
    if cond {
        None
    } else {
        Some(Failure::Aborted)
    }
}

/// The failure of what cannot be read.
pub open spec fn unread<T>(r: MangoResult<T>) -> Option<Failure> {
    match r {
        Ok(_) => None,
        Err(e) => Some(Failure::Refused(e)),
    }
}

/// The failure of a step.
pub open spec fn failure_of<T>(r: Result<T, Failure>) -> Option<Failure> {
    match r {
        Ok(_) => None,
        Err(e) => Some(e),
    }
}

/// Why a group account is not accepted: it cannot be read, is not a group that was
/// set up, or is not the program's.
pub open spec fn group_failure(program_id: Pubkey, acc: AccountInfo) -> Option<Failure> {
    first(
        unread(acc.mango_group),
        first(
            unless(acc.mango_group->Ok_0.account_flags == 3, Check::GroupFlags),
            unless(acc.owner == program_id, Check::GroupOwner),
        ),
    )
}

/// Why a margin account is not accepted: it cannot be read, is not a margin account
/// that was set up, or is not the group's.
pub open spec fn margin_failure(group_key: Pubkey, acc: AccountInfo) -> Option<Failure> {
    first(
        unread(acc.margin_account),
        first(
            unless(acc.margin_account->Ok_0.account_flags == 5, Check::MarginFlags),
            unless(acc.margin_account->Ok_0.mango_group == group_key, Check::MarginGroup),
        ),
    )
}

/// Group and margin account are taken as they are, where they are accepted.
pub proof fn law_entrance(program_id: Pubkey, group_acc: AccountInfo, margin_acc: AccountInfo)
    ensures
        ({
            let why = first(
                group_failure(program_id, group_acc),
                margin_failure(group_acc.key, margin_acc),
            );
            let r = entered(program_id, group_acc, margin_acc);
            &&& failure_of(r) == why
            &&& r matches Ok(taken) ==> taken == (
                group_acc.mango_group->Ok_0,
                margin_acc.margin_account->Ok_0,
            )
            &&& failure_of(MangoGroup::loaded(group_acc, program_id)) == group_failure(
                program_id,
                group_acc,
            )
            &&& MangoGroup::loaded(group_acc, program_id) matches Ok(group) ==> group
                == group_acc.mango_group->Ok_0
        }),
{
}

/// Why a request is not that of the owner.
pub open spec fn owner_failure(margin: MarginAccount, acc: AccountInfo) -> Option<Failure> {
    first(
        unless(acc.is_signer, Check::OwnerSigned),
        unless(margin.owner == acc.key, Check::OwnerKey),
    )
}

/// The owner is the account that the margin account names, and has signed.
pub proof fn law_owner(margin: MarginAccount, acc: AccountInfo)
    ensures
        failure_of(owner_checked(margin, acc)) == owner_failure(margin, acc),
{
}

/// Why the open orders account of a market is not accepted: it is not the one that
/// the margin account records for that market, it cannot be read, or it is in use
/// and not that of the expected owner.
pub open spec fn orders_failure(
    margin: MarginAccount,
    acc: AccountInfo,
    market: int,
    owner: Pubkey,
) -> Option<Failure> {
    let orders = acc.open_orders->Ok_0;
    first(
        unless(acc.key == margin.open_orders[market], Check::OpenOrdersKey),
        first(
            unread(acc.open_orders),
            first(
                unless(
                    orders.account_flags == 0 || orders.account_flags == 5,
                    Check::OpenOrdersFlags,
                ),
                unless(
                    orders.account_flags == 0 || orders.owner == owner,
                    Check::OpenOrdersOwner,
                ),
            ),
        ),
    )
}

/// The open orders accounts are looked at market by market, each for its own market.
pub proof fn law_orders_looked_at(
    margin: MarginAccount,
    open_orders: Seq<AccountInfo>,
    owner: Pubkey,
)
    ensures
        failure_of(orders_checked(margin, open_orders, owner, NUM_MARKETS as nat)) == first(
            orders_failure(margin, open_orders[0], 0, owner),
            orders_failure(margin, open_orders[1], 1, owner),
        ),
{
    reveal_with_fuel(orders_checked, 3);
}

/// The error that an argument is invalid.
pub open spec fn invalid_argument() -> Failure {
    Failure::Refused(MangoError::ProgramError(INVALID_ARGUMENT))
}

/// Why a clock account is not accepted.
pub open spec fn clock_failure(acc: AccountInfo) -> Option<Failure> {
    if acc.key != clock_key() {
        Some(invalid_argument())
    } else if acc.data is Err {
        Some(Failure::Aborted)
    } else if acc.data->Ok_0@.len() < 40 {
        Some(invalid_argument())
    } else {
        None
    }
}

/// The time is that of the clock, in the last eight of its first 40 bytes. A group
/// that is brought up to date has the indexes for that time, and nothing else of it
/// changes.
pub proof fn law_up_to_date(
    group: MangoGroup,
    clock_acc: AccountInfo,
    indexes: MangoResult<[MangoIndex; NUM_TOKENS]>,
)
    ensures
        failure_of(clock_read(clock_acc)) == clock_failure(clock_acc),
        clock_read(clock_acc) matches Ok(time) ==> time == le_value(
            clock_acc.data->Ok_0@.subrange(32, 40),
        ) as u64,
        failure_of(accrued(group, clock_acc, indexes)) == first(
            clock_failure(clock_acc),
            unread(indexes),
        ),
        accrued(group, clock_acc, indexes) matches Ok(after) ==> after == (MangoGroup {
            indexes: indexes->Ok_0,
            ..group
        }),
{
}

/// Why a mint account is not accepted.
pub open spec fn mint_failure(acc: AccountInfo) -> Option<Failure> {
    first(
        unread(acc.data),
        match mint_decimals(acc.data->Ok_0@) {
            Err(code) => Some(Failure::Refused(MangoError::ProgramError(code))),
            Ok(_) => None,
        },
    )
}

/// Why the quote token cannot be priced in cents.
pub open spec fn quote_failure(group: MangoGroup, mints: Seq<AccountInfo>) -> Option<Failure> {
    let quote = mints[2];
    first(
        stops_unless(mints.len() > 2),
        first(
            unless(quote.key == group.tokens[2], Check::QuoteMint),
            first(
                mint_failure(quote),
                stops_unless(
                    decimals(quote) >= 2 && pow(10, (decimals(quote) - 2) as nat) <= u64::MAX,
                ),
            ),
        ),
    )
}

/// Why a base token cannot be priced.
pub open spec fn price_failure(
    group: MangoGroup,
    mints: Seq<AccountInfo>,
    oracles: Seq<AccountInfo>,
    market: int,
) -> Option<Failure> {
    let mint = mints[market];
    first(
        stops_unless(market < oracles.len()),
        first(
            unread(oracles[market].median),
            first(
                unless(mint.key == group.tokens[market], Check::BaseMint),
                first(
                    mint_failure(mint),
                    stops_unless(
                        pow(10, decimals(mint)) <= u64::MAX && fits(
                            oracles[market].median->Ok_0 * cent_rate(mint, mints[2]),
                        ),
                    ),
                ),
            ),
        ),
    )
}

/// There are no prices for the first reason there is: the quote mint is looked at
/// first, then market by market the oracle and the mint of its own token.
pub proof fn law_prices_refused(
    group: MangoGroup,
    mints: Seq<AccountInfo>,
    oracles: Seq<AccountInfo>,
)
    ensures
        failure_of(token_prices(group, mints, oracles)) == first(
            quote_failure(group, mints),
            first(
                price_failure(group, mints, oracles, 0),
                price_failure(group, mints, oracles, 1),
            ),
        ),
{
    reveal_with_fuel(market_prices, 3);
    let quote = mints[2];
    if quote_failure(group, mints) is None {
        let adj = whole(pow(10, (decimals(quote) - 2) as nat) as u64);
        lemma_price_failure(group, mints, oracles, adj, 0);
        lemma_price_failure(group, mints, oracles, adj, 1);
    }
}

proof fn lemma_price_failure(
    group: MangoGroup,
    mints: Seq<AccountInfo>,
    oracles: Seq<AccountInfo>,
    adj: U64F64,
    market: int,
)
    requires
        0 <= market < NUM_MARKETS,
        quote_failure(group, mints) is None,
        adj == whole(pow(10, (decimals(mints[2]) - 2) as nat) as u64),
    ensures
        failure_of(market_price(group, mints, oracles, adj, market)) == price_failure(
            group,
            mints,
            oracles,
            market,
        ),
{
    if market < oracles.len() && oracles[market].median is Ok && mints[market].key
        == group.tokens[market] && mint_ready(mints[market]) {
        lemma_market_price(group, mints, oracles, adj, market, mints[2]);
    }
}

/// Why an account is short of collateral: its ratio cannot be told, or its assets
/// are less than the initial ratio times its liabilities.
pub open spec fn collateral_failure(
    group: MangoGroup,
    margin: MarginAccount,
    prices: Seq<U64F64>,
    open_orders: Seq<AccountInfo>,
) -> Option<Failure> {
    first(
        failure_of(margin.collateral_ratio(group, prices, open_orders)),
        unless(
            covered_at(group, margin, prices, open_orders, group.init_coll_ratio),
            Check::CollateralRatio,
        ),
    )
}

/// An account has enough collateral exactly where its assets are at least the
/// initial ratio of the group times its liabilities.
pub proof fn law_collateral(
    group: MangoGroup,
    margin: MarginAccount,
    prices: Seq<U64F64>,
    open_orders: Seq<AccountInfo>,
)
    ensures
        failure_of(collateral_checked(group, margin, prices, open_orders)) == collateral_failure(
            group,
            margin,
            prices,
            open_orders,
        ),
{
    if margin.collateral_ratio(group, prices, open_orders) is Ok {
        law_ratio_reaches(margin, group, prices, open_orders, group.init_coll_ratio);
    }
}

/// Why the borrows of a token are not covered.
pub open spec fn coverage_failure(group: MangoGroup, token: int) -> Option<Failure> {
    let deposits = native(group.total_deposits[token], group.indexes[token].deposit);
    let borrows = native(group.total_borrows[token], group.indexes[token].borrow);
    first(
        stops_unless(deposits is Ok && borrows is Ok),
        unless(borrows->Ok_0 <= deposits->Ok_0, Check::DepositsCoverBorrows),
    )
}

/// The borrows of a token are covered exactly where the native deposits of the group
/// are at least its native borrows.
pub proof fn law_covered(group: MangoGroup, token: int)
    requires
        0 <= token < NUM_TOKENS,
    ensures
        failure_of(coverage_checked(group, token)) == coverage_failure(group, token),
{
}

/// The digits of a number in base 256 are those of its remainders, the last digit
/// first.
pub proof fn law_le_bytes(x: nat, n: nat, i: int)
    requires
        0 <= i < n,
    ensures
        le_bytes(x, n).len() == n,
        le_bytes(x, n)[i] == (x as int / pow(256, i as nat)) % 256,
    decreases n,
{
    lemma_pow_positive(256, i as nat);
    if i == 0 {
        lemma_pow0(256);
        lemma_le_bytes_len(x, n);
    } else {
        law_le_bytes(x / 256, (n - 1) as nat, i - 1);
        lemma_pow_positive(256, (i - 1) as nat);
        lemma_div_denominator(x as int, 256, pow(256, (i - 1) as nat));
        lemma_pow_adds(256, 1, (i - 1) as nat);
        lemma_pow1(256);
    }
}

proof fn lemma_le_bytes_len(x: nat, n: nat)
    ensures
        le_bytes(x, n).len() == n,
    decreases n,
{
    if n > 0 {
        lemma_le_bytes_len(x / 256, (n - 1) as nat);
    }
}

/// A key is found at its first place, and only where it is there.
pub proof fn law_first_place(keys: Seq<Pubkey>, key: Pubkey, from: int)
    requires
        0 <= from <= keys.len() <= usize::MAX,
    ensures
        position(keys, key, from) matches Some(i) ==> {
            &&& from <= i < keys.len()
            &&& keys[i as int] == key
            &&& forall|j: int| from <= j < i ==> #[trigger] keys[j] != key
        },
        position(keys, key, from) is None ==> forall|j: int|
            from <= j < keys.len() ==> #[trigger] keys[j] != key,
    decreases keys.len() - from,
{
    if from < keys.len() && keys[from] != key {
        law_first_place(keys, key, from + 1);
    }
}

/// Why a rent account is not accepted.
pub open spec fn rent_failure(acc: AccountInfo) -> Option<Failure> {
    if acc.key != rent_key() {
        Some(invalid_argument())
    } else if acc.data is Err {
        Some(Failure::Aborted)
    } else if acc.data->Ok_0@.len() < 17 {
        Some(invalid_argument())
    } else {
        None
    }
}

/// Why an account is not exempt from an accepted rent: the rate times its bytes and
/// 128 does not fit, or its balance is below the minimum.
pub open spec fn exemption_failure(
    rent_acc: AccountInfo,
    acc: AccountInfo,
    data_len: usize,
    check: Check,
) -> Option<Failure> {
    let data = rent_acc.data->Ok_0@;
    let rate = le_value(data.subrange(0, 8)) as u64;
    first(
        stops_unless(data_len + 128 <= u64::MAX && rate * (data_len + 128) <= u64::MAX),
        unless(acc.lamports >= rent_minimum(data, data_len), check),
    )
}

/// Why a new group account is not accepted.
pub open spec fn new_group_failure(
    program_id: Pubkey,
    accounts: Seq<AccountInfo>,
    signer_nonce: u64,
) -> Option<Failure> {
    let group_acc = accounts[0];
    let address = program_address(
        group_acc.key.0@,
        le_bytes(signer_nonce as nat, 8),
        program_id.0@,
    );
    first(
        rent_failure(accounts[1]),
        first(
            clock_failure(accounts[2]),
            first(
                unread(group_acc.mango_group),
                first(
                    unless(group_acc.owner == program_id, Check::GroupOwner),
                    first(
                        unless(
                            group_acc.mango_group->Ok_0.account_flags == 0,
                            Check::GroupUnused,
                        ),
                        first(
                            exemption_failure(
                                accounts[1],
                                group_acc,
                                group_acc.data_len,
                                Check::GroupRent,
                            ),
                            match address {
                                Err(code) => Some(
                                    Failure::Refused(MangoError::ProgramError(code)),
                                ),
                                Ok(signer) => unless(
                                    accounts[3].key.0@ == signer,
                                    Check::SignerKey,
                                ),
                            },
                        ),
                    ),
                ),
            ),
        ),
    )
}

/// A group account is set up only where it is the program's, unused and exempt from
/// rent, and where the signer is derived from its key, the nonce and the program.
/// The time is that of the clock.
pub proof fn law_new_group_looked_at(
    program_id: Pubkey,
    accounts: Seq<AccountInfo>,
    signer_nonce: u64,
)
    ensures
        failure_of(group_checked(program_id, accounts, signer_nonce)) == new_group_failure(
            program_id,
            accounts,
            signer_nonce,
        ),
        group_checked(program_id, accounts, signer_nonce) matches Ok(time) ==> time == le_value(
            accounts[2].data->Ok_0@.subrange(32, 40),
        ) as u64,
{
    assert(128 + accounts[0].data_len == accounts[0].data_len + 128);
}

/// Why a vault is not accepted: it cannot be read, is not a token account, is not
/// owned by the signer of the group, is for another mint, or is not the token
/// program's.
pub open spec fn vault_failure(
    mint_acc: AccountInfo,
    vault_acc: AccountInfo,
    signer: Pubkey,
) -> Option<Failure> {
    let vault = token_account(vault_acc.data->Ok_0@);
    first(
        unread(vault_acc.data),
        match vault {
            Err(code) => Some(Failure::Refused(MangoError::ProgramError(code))),
            Ok(vault) => first(
                unless(vault.owner == signer.0@, Check::VaultOwner),
                first(
                    unless(vault.mint == mint_acc.key.0@, Check::VaultMint),
                    unless(vault_acc.owner == token_program(), Check::VaultProgram),
                ),
            ),
        },
    )
}

/// The vaults are looked at token by token, each against the mint of its own token.
pub proof fn law_vaults_looked_at(
    mints: Seq<AccountInfo>,
    vaults: Seq<AccountInfo>,
    signer: Pubkey,
)
    ensures
        failure_of(vaults_checked(mints, vaults, signer, NUM_TOKENS as nat)) == first(
            vault_failure(mints[0], vaults[0], signer),
            first(
                vault_failure(mints[1], vaults[1], signer),
                vault_failure(mints[2], vaults[2], signer),
            ),
        ),
{
    reveal_with_fuel(vaults_checked, 4);
}

/// Why a market is not accepted: it is not the exchange's, cannot be read, or does
/// not trade its own token against the quote token.
pub open spec fn market_failure(
    market_acc: AccountInfo,
    dex: Pubkey,
    base: Pubkey,
    quote: Pubkey,
) -> Option<Failure> {
    first(
        unless(market_acc.owner == dex, Check::MarketProgram),
        first(
            unread(market_acc.market),
            first(
                unless(market_acc.market->Ok_0.coin_mint == base, Check::MarketBaseMint),
                unless(market_acc.market->Ok_0.pc_mint == quote, Check::MarketQuoteMint),
            ),
        ),
    )
}

/// The markets are looked at one by one, each against its own token and the quote
/// token, the third.
pub proof fn law_markets_looked_at(
    markets: Seq<AccountInfo>,
    dex: Pubkey,
    mints: Seq<AccountInfo>,
)
    ensures
        failure_of(markets_checked(markets, dex, mints, NUM_MARKETS as nat)) == first(
            market_failure(markets[0], dex, mints[0].key, mints[2].key),
            market_failure(markets[1], dex, mints[1].key, mints[2].key),
        ),
{
    reveal_with_fuel(markets_checked, 3);
}

/// Why a new margin account is not accepted.
pub open spec fn new_margin_failure(
    program_id: Pubkey,
    accounts: Seq<AccountInfo>,
) -> Option<Failure> {
    let acc = accounts[1];
    first(
        unread(acc.margin_account),
        first(
            rent_failure(accounts[3]),
            first(
                unless(acc.owner == program_id, Check::MarginOwner),
                first(
                    exemption_failure(accounts[3], acc, acc.data_len, Check::MarginRent),
                    first(
                        unless(
                            acc.margin_account->Ok_0.account_flags == 0,
                            Check::MarginUnused,
                        ),
                        unless(accounts[2].is_signer, Check::OwnerSigned),
                    ),
                ),
            ),
        ),
    )
}

/// A margin account is set up only where it is the program's, exempt from rent and
/// unused, and where its owner signed.
pub proof fn law_new_margin_looked_at(program_id: Pubkey, accounts: Seq<AccountInfo>)
    ensures
        failure_of(margin_checked(program_id, accounts)) == new_margin_failure(
            program_id,
            accounts,
        ),
{
    assert(128 + accounts[1].data_len == accounts[1].data_len + 128);
}

/// Why a new open orders account is not accepted.
pub open spec fn new_orders_failure(
    acc: AccountInfo,
    rent_acc: AccountInfo,
    dex: Pubkey,
) -> Option<Failure> {
    first(
        unread(acc.open_orders),
        first(
            exemption_failure(rent_acc, acc, 3216, Check::OpenOrdersRent),
            first(
                unless(acc.open_orders->Ok_0.account_flags == 0, Check::OpenOrdersUnused),
                unless(acc.owner == dex, Check::OpenOrdersProgram),
            ),
        ),
    )
}

/// New open orders accounts are looked at market by market: each is exempt from
/// rent, unused and the exchange's.
pub proof fn law_new_orders_looked_at(
    open_orders: Seq<AccountInfo>,
    rent_acc: AccountInfo,
    dex: Pubkey,
)
    requires
        rent_failure(rent_acc) is None,
    ensures
        failure_of(all_new_orders_checked(open_orders, rent_acc, dex, NUM_MARKETS as nat)) == first(
            new_orders_failure(open_orders[0], rent_acc, dex),
            new_orders_failure(open_orders[1], rent_acc, dex),
        ),
{
    reveal_with_fuel(all_new_orders_checked, 3);
}

} // verus!
