//! Setting up groups and margin accounts.

use vstd::prelude::*;
use vstd::slice::slice_subrange;

use crate::error::{answered, check_assert, or_answer, or_refuse, refused, unmet};
use crate::error::{Check, Failure};
use crate::fixed_point::{whole, U64F64};
use crate::instruction::{gen_signer_key, signer_address};
use crate::processor::{outcome, Processor, Update, UpdateView};
use crate::state::{load_market_state, market_loaded, AccountInfo, MangoGroup, MangoIndex};
use crate::state::{MarginAccount, Pubkey, GROUP_FLAGS, MARGIN_FLAGS, NUM_MARKETS, NUM_TOKENS};
use crate::state::OPEN_ORDERS_SIZE;
use crate::sysvar::{clock_read, exempt, is_exempt, read_clock, read_rent, rent_read};
use crate::token::{read_token_account, token_account_read, token_program, token_program_id};

verus! {

/// What checking a balance against the rent gives.
pub open spec fn rent_checked(
    rent_acc: AccountInfo,
    acc: AccountInfo,
    data_len: usize,
    check: Check,
) -> Result<(), Failure> {
    match exempt(rent_acc, acc.lamports, data_len) {
        Err(e) => Err(e),
        Ok(exempt) => if exempt {
            Ok(())
        } else {
            Err(unmet(check))
        },
    }
}

fn check_rent(
    rent_acc: &AccountInfo,
    acc: &AccountInfo,
    data_len: usize,
    check: Check,
) -> (r: Result<(), Failure>)
    ensures
        r == rent_checked(*rent_acc, *acc, data_len, check),
{
    check_assert(is_exempt(rent_acc, acc.lamports, data_len)?, check)
}

/// What checking a new group account gives, and the time of the clock. The
/// account belongs to the program, is unused and exempt from rent, and the signer
/// is derived from it and the nonce. The rent is that of the size of a group
/// record, for which the length of the account's data stands: the caller reads an
/// account as a group only where its data is one record long.
pub open spec fn group_checked(
    program_id: Pubkey,
    accounts: Seq<AccountInfo>,
    signer_nonce: u64,
) -> Result<u64, Failure> {
    match rent_read(accounts[1]) {
        Err(e) => Err(e),
        Ok(_) => match clock_read(accounts[2]) {
            Err(e) => Err(e),
            Ok(time) => match refused(accounts[0].mango_group) {
                Err(e) => Err(e),
                Ok(group) => if accounts[0].owner != program_id {
                    Err(unmet(Check::GroupOwner))
                } else if group.account_flags != 0 {
                    Err(unmet(Check::GroupUnused))
                } else {
                    match rent_checked(
                        accounts[1],
                        accounts[0],
                        accounts[0].data_len,
                        Check::GroupRent,
                    ) {
                        Err(e) => Err(e),
                        Ok(_) => match answered(
                            signer_address(signer_nonce, accounts[0].key, program_id),
                        ) {
                            Err(e) => Err(e),
                            Ok(signer) => if signer != accounts[3].key.0@ {
                                Err(unmet(Check::SignerKey))
                            } else {
                                Ok(time)
                            },
                        },
                    }
                },
            },
        },
    }
}

fn check_group(program_id: &Pubkey, accounts: &[AccountInfo], signer_nonce: u64) -> (r: Result<
    u64,
    Failure,
>)
    requires
        accounts@.len() >= 5,
    ensures
        r == group_checked(*program_id, accounts@, signer_nonce),
{
    let mango_group_acc = &accounts[0];
    read_rent(&accounts[1])?;
    let time = read_clock(&accounts[2])?;
    let group = or_refuse(mango_group_acc.mango_group)?;
    check_assert(mango_group_acc.owner == *program_id, Check::GroupOwner)?;
    check_assert(group.account_flags == 0, Check::GroupUnused)?;
    check_rent(&accounts[1], mango_group_acc, mango_group_acc.data_len, Check::GroupRent)?;
    let signer = or_answer(gen_signer_key(signer_nonce, &mango_group_acc.key, program_id))?;
    proof {
        if signer.0@ == accounts@[3].key.0@ {
            assert(signer.0 =~= accounts@[3].key.0);
        }
    }
    check_assert(signer == accounts[3].key, Check::SignerKey)?;
    Ok(time)
}

/// What checking the vault of a token gives: an initialized token account of the
/// token program, owned by the signer of the group, for the mint of the token.
pub open spec fn vault_checked(mint_acc: AccountInfo, vault_acc: AccountInfo, signer: Pubkey) -> Result<
    (),
    Failure,
> {
    match token_account_read(vault_acc) {
        Err(e) => Err(e),
        Ok(vault) => if !vault.is_initialized {
            Err(unmet(Check::VaultInitialized))
        } else if vault.owner != signer.0@ {
            Err(unmet(Check::VaultOwner))
        } else if vault.mint != mint_acc.key.0@ {
            Err(unmet(Check::VaultMint))
        } else if vault_acc.owner != token_program() {
            Err(unmet(Check::VaultProgram))
        } else {
            Ok(())
        },
    }
}

fn check_vault(mint_acc: &AccountInfo, vault_acc: &AccountInfo, signer: &Pubkey) -> (r: Result<
    (),
    Failure,
>)
    ensures
        r == vault_checked(*mint_acc, *vault_acc, *signer),
{
    let vault = read_token_account(vault_acc)?;
    proof {
        if vault.owner.0@ == signer.0@ {
            assert(vault.owner.0 =~= signer.0);
        }
        if vault.mint.0@ == mint_acc.key.0@ {
            assert(vault.mint.0 =~= mint_acc.key.0);
        }
    }
    check_assert(vault.is_initialized, Check::VaultInitialized)?;
    check_assert(vault.owner == *signer, Check::VaultOwner)?;
    check_assert(vault.mint == mint_acc.key, Check::VaultMint)?;
    check_assert(vault_acc.owner == token_program_id(), Check::VaultProgram)
}

/// What checking the vaults of the first `n` tokens gives.
pub open spec fn vaults_checked(
    mints: Seq<AccountInfo>,
    vaults: Seq<AccountInfo>,
    signer: Pubkey,
    n: nat,
) -> Result<(), Failure>
    decreases n,
{
    if n == 0 {
        Ok(())
    } else {
        match vaults_checked(mints, vaults, signer, (n - 1) as nat) {
            Err(e) => Err(e),
            Ok(_) => vault_checked(mints[n - 1], vaults[n - 1], signer),
        }
    }
}

proof fn lemma_vaults_checked_fail(
    mints: Seq<AccountInfo>,
    vaults: Seq<AccountInfo>,
    signer: Pubkey,
    k: nat,
    n: nat,
)
    requires
        k <= n,
        vaults_checked(mints, vaults, signer, k) is Err,
    ensures
        vaults_checked(mints, vaults, signer, n) == vaults_checked(mints, vaults, signer, k),
    decreases n,
{
    if k < n {
        lemma_vaults_checked_fail(mints, vaults, signer, k, (n - 1) as nat);
    }
}

/// What checking a market gives: it belongs to the exchange, and trades its token
/// against the quote token.
pub open spec fn market_checked(
    market_acc: AccountInfo,
    dex: Pubkey,
    mints: Seq<AccountInfo>,
    i: int,
) -> Result<(), Failure> {
    match market_loaded(market_acc, dex) {
        Err(e) => Err(e),
        Ok(market) => if market.coin_mint != mints[i].key {
            Err(unmet(Check::MarketBaseMint))
        } else if market.pc_mint != mints[NUM_MARKETS as int].key {
            Err(unmet(Check::MarketQuoteMint))
        } else {
            Ok(())
        },
    }
}

fn check_market(market_acc: &AccountInfo, dex: &Pubkey, mints: &[AccountInfo], i: usize) -> (r:
    Result<(), Failure>)
    requires
        i < NUM_MARKETS < mints@.len(),
    ensures
        r == market_checked(*market_acc, *dex, mints@, i as int),
{
    let market = load_market_state(market_acc, dex)?;
    check_assert(market.coin_mint == mints[i].key, Check::MarketBaseMint)?;
    check_assert(market.pc_mint == mints[NUM_MARKETS].key, Check::MarketQuoteMint)
}

/// What checking the first `n` markets gives.
pub open spec fn markets_checked(
    markets: Seq<AccountInfo>,
    dex: Pubkey,
    mints: Seq<AccountInfo>,
    n: nat,
) -> Result<(), Failure>
    decreases n,
{
    if n == 0 {
        Ok(())
    } else {
        match markets_checked(markets, dex, mints, (n - 1) as nat) {
            Err(e) => Err(e),
            Ok(_) => market_checked(markets[n - 1], dex, mints, n - 1),
        }
    }
}

proof fn lemma_markets_checked_fail(
    markets: Seq<AccountInfo>,
    dex: Pubkey,
    mints: Seq<AccountInfo>,
    k: nat,
    n: nat,
)
    requires
        k <= n,
        markets_checked(markets, dex, mints, k) is Err,
    ensures
        markets_checked(markets, dex, mints, n) == markets_checked(markets, dex, mints, k),
    decreases n,
{
    if k < n {
        lemma_markets_checked_fail(markets, dex, mints, k, (n - 1) as nat);
    }
}

/// The keys of one account for each token.
pub open spec fn token_keys(accs: Seq<AccountInfo>) -> [Pubkey; NUM_TOKENS] {
    [accs[0].key, accs[1].key, accs[2].key]
}

/// The keys of one account for each market.
pub open spec fn market_keys(accs: Seq<AccountInfo>) -> [Pubkey; NUM_MARKETS] {
    [accs[0].key, accs[1].key]
}

/// Nothing of any token.
pub open spec fn no_amounts() -> [U64F64; NUM_TOKENS] {
    [whole(0), whole(0), whole(0)]
}

/// An index that starts now, at one.
pub open spec fn new_index(time: u64) -> MangoIndex {
    MangoIndex { last_update: time, borrow: whole(1), deposit: whole(1) }
}

/// A new group, from the accounts of the request to set it up.
pub open spec fn new_group(
    accounts: Seq<AccountInfo>,
    time: u64,
    signer_nonce: u64,
    maint_coll_ratio: U64F64,
    init_coll_ratio: U64F64,
) -> MangoGroup {
    MangoGroup {
        account_flags: GROUP_FLAGS,
        tokens: token_keys(accounts.subrange(5, 5 + NUM_TOKENS)),
        vaults: token_keys(accounts.subrange(5 + NUM_TOKENS, 5 + 2 * NUM_TOKENS)),
        indexes: [new_index(time), new_index(time), new_index(time)],
        spot_markets: market_keys(
            accounts.subrange(5 + 2 * NUM_TOKENS, 5 + 2 * NUM_TOKENS + NUM_MARKETS),
        ),
        oracles: market_keys(
            accounts.subrange(
                5 + 2 * NUM_TOKENS + NUM_MARKETS,
                5 + 2 * NUM_TOKENS + 2 * NUM_MARKETS,
            ),
        ),
        signer_nonce,
        signer_key: accounts[3].key,
        dex_program_id: accounts[4].key,
        total_deposits: no_amounts(),
        total_borrows: no_amounts(),
        maint_coll_ratio,
        init_coll_ratio,
    }
}

/// The outcome of a request to set up a group. Its accounts are: the group, the
/// rent, the clock, the signer of the group, the exchange, the mints, the vaults,
/// the markets and the oracles.
pub open spec fn group_init(
    program_id: Pubkey,
    accounts: Seq<AccountInfo>,
    signer_nonce: u64,
    maint_coll_ratio: U64F64,
    init_coll_ratio: U64F64,
) -> Result<UpdateView, Failure> {
    if accounts.len() < 5 + 2 * NUM_TOKENS + 2 * NUM_MARKETS {
        Err(Failure::Aborted)
    } else {
        let mints = accounts.subrange(5, 5 + NUM_TOKENS);
        let vaults = accounts.subrange(5 + NUM_TOKENS, 5 + 2 * NUM_TOKENS);
        let markets = accounts.subrange(5 + 2 * NUM_TOKENS, 5 + 2 * NUM_TOKENS + NUM_MARKETS);
        match group_checked(program_id, accounts, signer_nonce) {
            Err(e) => Err(e),
            Ok(time) => match vaults_checked(mints, vaults, accounts[3].key, NUM_TOKENS as nat) {
                Err(e) => Err(e),
                Ok(_) => match markets_checked(
                    markets,
                    accounts[4].key,
                    mints,
                    NUM_MARKETS as nat,
                ) {
                    Err(e) => Err(e),
                    Ok(_) => Ok(
                        UpdateView {
                            invocation: None,
                            mango_group: Some(
                                new_group(
                                    accounts,
                                    time,
                                    signer_nonce,
                                    maint_coll_ratio,
                                    init_coll_ratio,
                                ),
                            ),
                            margin_account: None,
                        },
                    ),
                },
            },
        }
    }
}

/// What checking a new open orders account gives: it is readable, exempt from
/// rent, unused, and belongs to the exchange of the group.
pub open spec fn new_orders_checked(
    acc: AccountInfo,
    rent_acc: AccountInfo,
    dex: Pubkey,
) -> Result<(), Failure> {
    match refused(acc.open_orders) {
        Err(e) => Err(e),
        Ok(orders) => match rent_checked(
            rent_acc,
            acc,
            OPEN_ORDERS_SIZE,
            Check::OpenOrdersRent,
        ) {
            Err(e) => Err(e),
            Ok(_) => if orders.account_flags != 0 {
                Err(unmet(Check::OpenOrdersUnused))
            } else if acc.owner != dex {
                Err(unmet(Check::OpenOrdersProgram))
            } else {
                Ok(())
            },
        },
    }
}

fn check_new_orders(acc: &AccountInfo, rent_acc: &AccountInfo, dex: &Pubkey) -> (r: Result<
    (),
    Failure,
>)
    ensures
        r == new_orders_checked(*acc, *rent_acc, *dex),
{
    let orders = or_refuse(acc.open_orders)?;
    check_rent(rent_acc, acc, OPEN_ORDERS_SIZE, Check::OpenOrdersRent)?;
    check_assert(orders.account_flags == 0, Check::OpenOrdersUnused)?;
    check_assert(acc.owner == *dex, Check::OpenOrdersProgram)
}

/// What checking the first `n` new open orders accounts gives.
pub open spec fn all_new_orders_checked(
    open_orders: Seq<AccountInfo>,
    rent_acc: AccountInfo,
    dex: Pubkey,
    n: nat,
) -> Result<(), Failure>
    decreases n,
{
    if n == 0 {
        Ok(())
    } else {
        match all_new_orders_checked(open_orders, rent_acc, dex, (n - 1) as nat) {
            Err(e) => Err(e),
            Ok(_) => new_orders_checked(open_orders[n - 1], rent_acc, dex),
        }
    }
}

proof fn lemma_all_new_orders_checked_fail(
    open_orders: Seq<AccountInfo>,
    rent_acc: AccountInfo,
    dex: Pubkey,
    k: nat,
    n: nat,
)
    requires
        k <= n,
        all_new_orders_checked(open_orders, rent_acc, dex, k) is Err,
    ensures
        all_new_orders_checked(open_orders, rent_acc, dex, n) == all_new_orders_checked(
            open_orders,
            rent_acc,
            dex,
            k,
        ),
    decreases n,
{
    if k < n {
        lemma_all_new_orders_checked_fail(open_orders, rent_acc, dex, k, (n - 1) as nat);
    }
}

/// What checking a new margin account gives: the account belongs to the program,
/// is exempt from rent and unused, and the owner signed. The rent is that of the
/// size of a margin account record, for which the length of the account's data
/// stands: the caller reads an account as a margin account only where its data is
/// one record long.
pub open spec fn margin_checked(program_id: Pubkey, accounts: Seq<AccountInfo>) -> Result<
    (),
    Failure,
> {
    match refused(accounts[1].margin_account) {
        Err(e) => Err(e),
        Ok(margin) => match rent_read(accounts[3]) {
            Err(e) => Err(e),
            Ok(_) => if accounts[1].owner != program_id {
                Err(unmet(Check::MarginOwner))
            } else {
                match rent_checked(
                    accounts[3],
                    accounts[1],
                    accounts[1].data_len,
                    Check::MarginRent,
                ) {
                    Err(e) => Err(e),
                    Ok(_) => if margin.account_flags != 0 {
                        Err(unmet(Check::MarginUnused))
                    } else if !accounts[2].is_signer {
                        Err(unmet(Check::OwnerSigned))
                    } else {
                        Ok(())
                    },
                }
            },
        },
    }
}

fn check_margin(program_id: &Pubkey, accounts: &[AccountInfo]) -> (r: Result<(), Failure>)
    requires
        accounts@.len() >= 4,
    ensures
        r == margin_checked(*program_id, accounts@),
{
    let margin_account_acc = &accounts[1];
    let margin = or_refuse(margin_account_acc.margin_account)?;
    read_rent(&accounts[3])?;
    check_assert(margin_account_acc.owner == *program_id, Check::MarginOwner)?;
    check_rent(
        &accounts[3],
        margin_account_acc,
        margin_account_acc.data_len,
        Check::MarginRent,
    )?;
    check_assert(margin.account_flags == 0, Check::MarginUnused)?;
    check_assert(accounts[2].is_signer, Check::OwnerSigned)
}

/// A new margin account, with nothing in it.
pub open spec fn new_margin(
    group_key: Pubkey,
    owner: Pubkey,
    open_orders: Seq<AccountInfo>,
) -> MarginAccount {
    MarginAccount {
        account_flags: MARGIN_FLAGS,
        mango_group: group_key,
        owner,
        deposits: no_amounts(),
        borrows: no_amounts(),
        positions: [0, 0, 0],
        open_orders: market_keys(open_orders),
    }
}

/// The outcome of a request to set up a margin account. Its accounts are: the
/// group, the margin account, the owner, the rent and the open orders.
pub open spec fn margin_init(program_id: Pubkey, accounts: Seq<AccountInfo>) -> Result<
    UpdateView,
    Failure,
> {
    if accounts.len() < 4 + NUM_MARKETS {
        Err(Failure::Aborted)
    } else {
        let open_orders = accounts.subrange(4, 4 + NUM_MARKETS);
        match MangoGroup::loaded(accounts[0], program_id) {
            Err(e) => Err(e),
            Ok(group) => match margin_checked(program_id, accounts) {
                Err(e) => Err(e),
                Ok(_) => match all_new_orders_checked(
                    open_orders,
                    accounts[3],
                    group.dex_program_id,
                    NUM_MARKETS as nat,
                ) {
                    Err(e) => Err(e),
                    Ok(_) => Ok(
                        UpdateView {
                            invocation: None,
                            mango_group: None,
                            margin_account: Some(
                                new_margin(accounts[0].key, accounts[2].key, open_orders),
                            ),
                        },
                    ),
                },
            },
        }
    }
}

impl Processor {
    /// Sets up a group.
    pub fn init_mango_group(
        program_id: &Pubkey,
        accounts: &[AccountInfo],
        signer_nonce: u64,
        maint_coll_ratio: U64F64,
        init_coll_ratio: U64F64,
    ) -> (r: Result<Update, Failure>)
        ensures
            outcome(r) == group_init(
                *program_id,
                accounts@,
                signer_nonce,
                maint_coll_ratio,
                init_coll_ratio,
            ),
    {
        if accounts.len() < 5 + 2 * NUM_TOKENS + 2 * NUM_MARKETS {
            return Err(Failure::Aborted);
        }
        let token_mint_accs = slice_subrange(accounts, 5, 5 + NUM_TOKENS);
        let vault_accs = slice_subrange(accounts, 5 + NUM_TOKENS, 5 + 2 * NUM_TOKENS);
        let spot_market_accs = slice_subrange(
            accounts,
            5 + 2 * NUM_TOKENS,
            5 + 2 * NUM_TOKENS + NUM_MARKETS,
        );
        let oracle_accs = slice_subrange(
            accounts,
            5 + 2 * NUM_TOKENS + NUM_MARKETS,
            5 + 2 * NUM_TOKENS + 2 * NUM_MARKETS,
        );
        let signer = accounts[3].key;
        let dex = accounts[4].key;

        let time = check_group(program_id, accounts, signer_nonce)?;
        let one = U64F64::from_num(1);
        let index = MangoIndex { last_update: time, borrow: one, deposit: one };
        let indexes = [index;NUM_TOKENS];
        let mut tokens: [Pubkey; NUM_TOKENS] = [signer;NUM_TOKENS];
        let mut vaults: [Pubkey; NUM_TOKENS] = [signer;NUM_TOKENS];
        let mut i: usize = 0;
        while i < NUM_TOKENS
            invariant
                i <= NUM_TOKENS,
                token_mint_accs@.len() == NUM_TOKENS,
                vault_accs@.len() == NUM_TOKENS,
                token_mint_accs@ == accounts@.subrange(5, 5 + NUM_TOKENS),
                vault_accs@ == accounts@.subrange(5 + NUM_TOKENS, 5 + 2 * NUM_TOKENS),
                accounts@.len() >= 5 + 2 * NUM_TOKENS + 2 * NUM_MARKETS,
                signer == accounts@[3].key,
                group_checked(*program_id, accounts@, signer_nonce) == Ok::<u64, Failure>(time),
                vaults_checked(token_mint_accs@, vault_accs@, signer, i as nat) is Ok,
                forall|j: int| 0 <= j < i ==> #[trigger] tokens[j] == token_mint_accs@[j].key,
                forall|j: int| 0 <= j < i ==> #[trigger] vaults[j] == vault_accs@[j].key,
            decreases NUM_TOKENS - i,
        {
            let next = check_vault(&token_mint_accs[i], &vault_accs[i], &signer);
            proof {
                if next is Err {
                    lemma_vaults_checked_fail(
                        token_mint_accs@,
                        vault_accs@,
                        signer,
                        (i + 1) as nat,
                        NUM_TOKENS as nat,
                    );
                }
            }
            next?;
            tokens[i] = token_mint_accs[i].key;
            vaults[i] = vault_accs[i].key;
            i += 1;
        }

        let mut spot_markets: [Pubkey; NUM_MARKETS] = [signer;NUM_MARKETS];
        let mut oracles: [Pubkey; NUM_MARKETS] = [signer;NUM_MARKETS];
        let mut k: usize = 0;
        while k < NUM_MARKETS
            invariant
                k <= NUM_MARKETS,
                token_mint_accs@.len() == NUM_TOKENS,
                spot_market_accs@.len() == NUM_MARKETS,
                oracle_accs@.len() == NUM_MARKETS,
                token_mint_accs@ == accounts@.subrange(5, 5 + NUM_TOKENS),
                vault_accs@ == accounts@.subrange(5 + NUM_TOKENS, 5 + 2 * NUM_TOKENS),
                spot_market_accs@ == accounts@.subrange(
                    5 + 2 * NUM_TOKENS,
                    5 + 2 * NUM_TOKENS + NUM_MARKETS,
                ),
                accounts@.len() >= 5 + 2 * NUM_TOKENS + 2 * NUM_MARKETS,
                signer == accounts@[3].key,
                dex == accounts@[4].key,
                group_checked(*program_id, accounts@, signer_nonce) == Ok::<u64, Failure>(time),
                vaults_checked(token_mint_accs@, vault_accs@, signer, NUM_TOKENS as nat) is Ok,
                markets_checked(spot_market_accs@, dex, token_mint_accs@, k as nat) is Ok,
                forall|j: int|
                    0 <= j < k ==> #[trigger] spot_markets[j] == spot_market_accs@[j].key,
                forall|j: int| 0 <= j < k ==> #[trigger] oracles[j] == oracle_accs@[j].key,
            decreases NUM_MARKETS - k,
        {
            let next = check_market(&spot_market_accs[k], &dex, token_mint_accs, k);
            proof {
                if next is Err {
                    lemma_markets_checked_fail(
                        spot_market_accs@,
                        dex,
                        token_mint_accs@,
                        (k + 1) as nat,
                        NUM_MARKETS as nat,
                    );
                }
            }
            next?;
            spot_markets[k] = spot_market_accs[k].key;
            oracles[k] = oracle_accs[k].key;
            k += 1;
        }

        let zero = U64F64::from_num(0);
        let mango_group = MangoGroup {
            account_flags: GROUP_FLAGS,
            tokens,
            vaults,
            indexes,
            spot_markets,
            oracles,
            signer_nonce,
            signer_key: signer,
            dex_program_id: dex,
            total_deposits: [zero;NUM_TOKENS],
            total_borrows: [zero;NUM_TOKENS],
            maint_coll_ratio,
            init_coll_ratio,
        };
        proof {
            let new = new_group(
                accounts@,
                time,
                signer_nonce,
                maint_coll_ratio,
                init_coll_ratio,
            );
            assert(mango_group.tokens =~= new.tokens);
            assert(mango_group.vaults =~= new.vaults);
            assert(mango_group.indexes =~= new.indexes);
            assert(mango_group.spot_markets =~= new.spot_markets);
            assert(mango_group.oracles =~= new.oracles);
            assert(mango_group.total_deposits =~= new.total_deposits);
            assert(mango_group.total_borrows =~= new.total_borrows);
        }
        Ok(Update { invocation: None, mango_group: Some(mango_group), margin_account: None })
    }

    /// Sets up a margin account.
    pub fn init_margin_account(program_id: &Pubkey, accounts: &[AccountInfo]) -> (r: Result<
        Update,
        Failure,
    >)
        ensures
            outcome(r) == margin_init(*program_id, accounts@),
    {
        if accounts.len() < 4 + NUM_MARKETS {
            return Err(Failure::Aborted);
        }
        let open_orders_accs = slice_subrange(accounts, 4, 4 + NUM_MARKETS);
        let group = MangoGroup::load_checked(&accounts[0], program_id)?;
        check_margin(program_id, accounts)?;

        let mut open_orders: [Pubkey; NUM_MARKETS] = [accounts[0].key;NUM_MARKETS];
        let mut i: usize = 0;
        while i < NUM_MARKETS
            invariant
                i <= NUM_MARKETS,
                open_orders_accs@.len() == NUM_MARKETS,
                open_orders_accs@ == accounts@.subrange(4, 4 + NUM_MARKETS),
                accounts@.len() >= 4 + NUM_MARKETS,
                MangoGroup::loaded(accounts@[0], *program_id) == Ok::<MangoGroup, Failure>(group),
                margin_checked(*program_id, accounts@) is Ok,
                all_new_orders_checked(
                    open_orders_accs@,
                    accounts@[3],
                    group.dex_program_id,
                    i as nat,
                ) is Ok,
                forall|j: int|
                    0 <= j < i ==> #[trigger] open_orders[j] == open_orders_accs@[j].key,
            decreases NUM_MARKETS - i,
        {
            let next = check_new_orders(
                &open_orders_accs[i],
                &accounts[3],
                &group.dex_program_id,
            );
            proof {
                if next is Err {
                    lemma_all_new_orders_checked_fail(
                        open_orders_accs@,
                        accounts@[3],
                        group.dex_program_id,
                        (i + 1) as nat,
                        NUM_MARKETS as nat,
                    );
                }
            }
            next?;
            open_orders[i] = open_orders_accs[i].key;
            i += 1;
        }

        let zero = U64F64::from_num(0);
        let margin_account = MarginAccount {
            account_flags: MARGIN_FLAGS,
            mango_group: accounts[0].key,
            owner: accounts[2].key,
            deposits: [zero;NUM_TOKENS],
            borrows: [zero;NUM_TOKENS],
            positions: [0;NUM_TOKENS],
            open_orders,
        };
        proof {
            let new = new_margin(accounts@[0].key, accounts@[2].key, open_orders_accs@);
            assert(margin_account.deposits =~= new.deposits);
            assert(margin_account.borrows =~= new.borrows);
            assert(margin_account.positions =~= new.positions);
            assert(margin_account.open_orders =~= new.open_orders);
        }
        Ok(Update { invocation: None, mango_group: None, margin_account: Some(margin_account) })
    }
}

} // verus!
