use mango::dex::{CancelOrder, NewOrder, OrderType, SelfTradeBehavior, Side};
use mango::error::{Check, Failure, MangoError, INVALID_ACCOUNT_DATA, INVALID_ARGUMENT};
use mango::error::{INVALID_INSTRUCTION_DATA, UNINITIALIZED_ACCOUNT};
use mango::fixed_point::U64F64;
use mango::instruction::{gen_signer_key, AccountMeta, Invocation, SignerSeeds};
use mango::prices::get_prices;
use mango::processor::liquidate::LiquidationStep;
use mango::processor::process::{MangoInstruction, Progress};
use mango::processor::settle::SettlementStep;
use mango::processor::{Processor, Update};
use mango::state::{to_indexed, to_native, AccountInfo, MangoGroup, MangoIndex, MarginAccount};
use mango::state::{MarketState, OpenOrders, Pubkey, GROUP_FLAGS, MARGIN_FLAGS, NUM_MARKETS};
use mango::state::{NUM_TOKENS, OPEN_ORDERS_FLAGS, OPEN_ORDERS_SIZE};
use mango::sysvar::{is_exempt, read_clock, read_rent};
use mango::token::read_token_account;
use mango::valuation::check_open_orders;

const ONE: u128 = 1 << 64;
const BORROW_FAILED: MangoError = MangoError::ProgramError(0xc_0000_0000);

fn num(x: u64) -> U64F64 {
    U64F64 { bits: (x as u128) << 64 }
}

fn key(n: u8) -> Pubkey {
    Pubkey([n; 32])
}

fn program() -> Pubkey {
    key(200)
}

fn dex() -> Pubkey {
    key(201)
}

fn unmet(check: Check) -> Failure {
    Failure::Refused(MangoError::AssertionError(check))
}

fn code(code: u64) -> Failure {
    Failure::Refused(MangoError::ProgramError(code))
}

/// An account whose data cannot be read as anything.
fn account(key: Pubkey) -> AccountInfo {
    AccountInfo {
        key,
        owner: Pubkey([0; 32]),
        lamports: 0,
        is_signer: false,
        data_len: 0,
        data: Ok(Vec::new()),
        mango_group: Err(BORROW_FAILED),
        margin_account: Err(BORROW_FAILED),
        open_orders: Err(BORROW_FAILED),
        market: Err(BORROW_FAILED),
        median: Err(BORROW_FAILED),
    }
}

fn signed(key: Pubkey) -> AccountInfo {
    AccountInfo { is_signer: true, ..account(key) }
}

fn clock() -> AccountInfo {
    let mut data = vec![9u8; 32];
    data.extend_from_slice(&1_600_000_000u64.to_le_bytes());
    let id = solana_program::sysvar::clock::id().to_bytes();
    AccountInfo { data: Ok(data), ..account(Pubkey(id)) }
}

fn rent() -> AccountInfo {
    let mut data = 3480u64.to_le_bytes().to_vec();
    data.extend_from_slice(&2.0f64.to_le_bytes());
    data.push(50);
    let id = solana_program::sysvar::rent::id().to_bytes();
    AccountInfo { data: Ok(data), ..account(Pubkey(id)) }
}

fn mint(token: usize, decimals: u8) -> AccountInfo {
    let mut data = vec![0u8; 82];
    data[44] = decimals;
    data[45] = 1;
    AccountInfo { data: Ok(data), ..account(key(10 + token as u8)) }
}

fn mints() -> Vec<AccountInfo> {
    vec![mint(0, 6), mint(1, 6), mint(2, 6)]
}

/// Oracles that price the base tokens at about 50 and 2.
fn oracles() -> Vec<AccountInfo> {
    vec![
        AccountInfo { median: Ok(5000), ..account(key(30)) },
        AccountInfo { median: Ok(200), ..account(key(31)) },
    ]
}

fn index(bits: u128) -> MangoIndex {
    MangoIndex { last_update: 5, borrow: U64F64 { bits }, deposit: U64F64 { bits } }
}

fn indexes() -> [MangoIndex; NUM_TOKENS] {
    [index(ONE); NUM_TOKENS]
}

fn group() -> MangoGroup {
    MangoGroup {
        account_flags: GROUP_FLAGS,
        tokens: [key(10), key(11), key(12)],
        vaults: [key(20), key(21), key(22)],
        indexes: [index(ONE); NUM_TOKENS],
        spot_markets: [key(40), key(41)],
        oracles: [key(30), key(31)],
        signer_nonce: 77,
        signer_key: key(50),
        dex_program_id: dex(),
        total_deposits: [num(1_000_000); NUM_TOKENS],
        total_borrows: [num(1000); NUM_TOKENS],
        maint_coll_ratio: U64F64 { bits: ONE + ONE / 10 },
        init_coll_ratio: U64F64 { bits: ONE + ONE / 5 },
    }
}

fn margin() -> MarginAccount {
    MarginAccount {
        account_flags: MARGIN_FLAGS,
        mango_group: key(1),
        owner: key(3),
        deposits: [num(100), num(200), num(300)],
        borrows: [num(0); NUM_TOKENS],
        positions: [10, 20, 30],
        open_orders: [key(60), key(61)],
    }
}

fn orders(n: usize) -> OpenOrders {
    OpenOrders {
        account_flags: OPEN_ORDERS_FLAGS,
        owner: key(50),
        native_coin_free: 3 * n as u64,
        native_coin_total: 4 * n as u64,
        native_pc_free: 5 * n as u64,
        native_pc_total: 6 * n as u64,
    }
}

fn group_acc(group: MangoGroup) -> AccountInfo {
    AccountInfo { owner: program(), mango_group: Ok(group), ..account(key(1)) }
}

fn margin_acc(margin: MarginAccount) -> AccountInfo {
    AccountInfo { owner: program(), margin_account: Ok(margin), ..account(key(2)) }
}

fn orders_acc(market: usize, orders: OpenOrders) -> AccountInfo {
    AccountInfo { owner: dex(), open_orders: Ok(orders), ..account(key(60 + market as u8)) }
}

fn open_orders() -> Vec<AccountInfo> {
    vec![orders_acc(0, orders(0)), orders_acc(1, orders(0))]
}

fn withdraw_accounts(group: MangoGroup, margin: MarginAccount, token: u8) -> Vec<AccountInfo> {
    let mut accounts = vec![
        group_acc(group),
        margin_acc(margin),
        signed(key(3)),
        account(key(70)),
        account(key(20 + token)),
        account(key(50)),
        account(key(90)),
        clock(),
    ];
    accounts.extend(open_orders());
    accounts.extend(oracles());
    accounts.extend(mints());
    accounts
}

fn borrow_accounts(group: MangoGroup, margin: MarginAccount) -> Vec<AccountInfo> {
    let mut accounts = vec![group_acc(group), margin_acc(margin), signed(key(3)), clock()];
    accounts.extend(open_orders());
    accounts.extend(oracles());
    accounts.extend(mints());
    accounts
}

fn withdraw(accounts: &[AccountInfo], token: usize, quantity: u64) -> Result<Update, Failure> {
    Processor::withdraw(&program(), accounts, token, quantity, Ok(indexes()))
}

fn transfer_data(amount: u64) -> Vec<u8> {
    let mut data = vec![3u8];
    data.extend_from_slice(&amount.to_le_bytes());
    data
}

fn writable(pubkey: Pubkey) -> AccountMeta {
    AccountMeta { pubkey, is_signer: false, is_writable: true }
}

fn readonly(pubkey: Pubkey) -> AccountMeta {
    AccountMeta { pubkey, is_signer: false, is_writable: false }
}

fn signer(pubkey: Pubkey) -> AccountMeta {
    AccountMeta { pubkey, is_signer: true, is_writable: false }
}

fn assert_transfer(invocation: &Invocation, from: Pubkey, to: Pubkey, by: Pubkey, amount: u64) {
    assert_eq!(invocation.instruction.program_id, Pubkey(spl_token::id().to_bytes()));
    assert_eq!(
        invocation.instruction.accounts,
        vec![writable(from), writable(to), signer(by)]
    );
    assert_eq!(invocation.instruction.data, transfer_data(amount));
    assert_eq!(invocation.accounts, vec![from, to, by, key(90)]);
}

// Fixed-point amounts.

#[test]
fn indexed_amounts_round_down() {
    // A third of an index of 3: 10 / 3 in steps of two to the minus 64.
    let three = num(3);
    let amount = to_indexed(10, three).unwrap();
    assert_eq!(amount.bits, (10 * ONE) / 3);
    assert_eq!(to_native(amount, three), Ok(9));
    assert_eq!(to_indexed(9, three), Ok(num(3)));
    assert_eq!(to_native(num(3), three), Ok(9));
}

#[test]
fn index_one_is_exact() {
    for q in [0, 1, 12345, u64::MAX] {
        let amount = to_indexed(q, num(1)).unwrap();
        assert_eq!(amount, num(q));
        assert_eq!(to_native(amount, num(1)), Ok(q));
    }
}

#[test]
fn amounts_out_of_range_abort() {
    assert_eq!(to_indexed(1, num(0)), Err(Failure::Aborted));
    assert_eq!(to_indexed(u64::MAX, U64F64 { bits: 1 }), Err(Failure::Aborted));
    assert_eq!(to_native(num(u64::MAX), num(2)), Err(Failure::Aborted));
}

// Prices.

#[test]
fn prices_are_scaled_by_decimals() {
    let prices = get_prices(&group(), &mints(), &oracles()).unwrap();
    assert_eq!(prices[0].bits, 5000 * (ONE / 100));
    assert_eq!(prices[1].bits, 200 * (ONE / 100));
    assert_eq!(prices[2], num(1));
    // Base tokens with two decimals more are worth a hundredth.
    let fine = vec![mint(0, 8), mint(1, 4), mint(2, 6)];
    let prices = get_prices(&group(), &fine, &oracles()).unwrap();
    assert_eq!(prices[0].bits, 5000 * (ONE / 10_000));
    assert_eq!(prices[1], num(200));
}

#[test]
fn prices_refuse_wrong_mints() {
    let mut wrong = mints();
    wrong[2].key = key(99);
    assert_eq!(get_prices(&group(), &wrong, &oracles()), Err(unmet(Check::QuoteMint)));
    let mut wrong = mints();
    wrong[1].key = key(99);
    assert_eq!(get_prices(&group(), &wrong, &oracles()), Err(unmet(Check::BaseMint)));
}

#[test]
fn prices_pass_errors_on() {
    let mut bad = oracles();
    bad[0].median = Err(MangoError::ProgramError(17));
    let mut wrong = mints();
    wrong[0].key = key(99);
    // The oracle is asked before the mint is looked at.
    assert_eq!(get_prices(&group(), &wrong, &bad), Err(code(17)));
    let mut wrong = mints();
    wrong[0].data = Ok(vec![0; 81]);
    assert_eq!(get_prices(&group(), &wrong, &oracles()), Err(code(INVALID_ACCOUNT_DATA)));
    let mut data = vec![0; 82];
    wrong[0].data = Ok(data.clone());
    assert_eq!(get_prices(&group(), &wrong, &oracles()), Err(code(UNINITIALIZED_ACCOUNT)));
    data[45] = 2;
    wrong[0].data = Ok(data.clone());
    assert_eq!(get_prices(&group(), &wrong, &oracles()), Err(code(INVALID_ACCOUNT_DATA)));
    data[45] = 1;
    data[1] = 1;
    wrong[0].data = Ok(data);
    assert_eq!(get_prices(&group(), &wrong, &oracles()), Err(code(INVALID_ACCOUNT_DATA)));
}

#[test]
fn prices_abort_out_of_range() {
    let cheap = vec![mint(0, 6), mint(1, 6), mint(2, 1)];
    assert_eq!(get_prices(&group(), &cheap, &oracles()), Err(Failure::Aborted));
    let large = vec![mint(0, 20), mint(1, 6), mint(2, 6)];
    assert_eq!(get_prices(&group(), &large, &oracles()), Err(Failure::Aborted));
    let largest = vec![mint(0, 19), mint(1, 6), mint(2, 6)];
    assert!(get_prices(&group(), &largest, &oracles()).is_ok());
    assert_eq!(get_prices(&group(), &mints()[..2], &oracles()), Err(Failure::Aborted));
    assert_eq!(get_prices(&group(), &mints(), &oracles()[..1]), Err(Failure::Aborted));
}

// Sysvars.

#[test]
fn clock_is_read() {
    assert_eq!(read_clock(&clock()), Ok(1_600_000_000));
    let mut short = clock();
    short.data = Ok(vec![0; 39]);
    assert_eq!(read_clock(&short), Err(code(INVALID_ARGUMENT)));
    let mut wrong = clock();
    wrong.key = rent().key;
    assert_eq!(read_clock(&wrong), Err(code(INVALID_ARGUMENT)));
    let mut long = clock();
    let mut data = long.data.unwrap();
    data.push(1);
    long.data = Ok(data);
    assert_eq!(read_clock(&long), Ok(1_600_000_000));
    let mut held = clock();
    held.data = Err(BORROW_FAILED);
    assert_eq!(read_clock(&held), Err(Failure::Aborted));
    // An account that is not the clock is refused before its data is looked at.
    held.key = rent().key;
    assert_eq!(read_clock(&held), Err(code(INVALID_ARGUMENT)));
}

#[test]
fn rent_is_read() {
    assert_eq!(read_rent(&rent()), Ok(3480));
    let mut short = rent();
    short.data = Ok(vec![0; 16]);
    assert_eq!(read_rent(&short), Err(code(INVALID_ARGUMENT)));
    assert_eq!(read_rent(&clock()), Err(code(INVALID_ARGUMENT)));
    let mut held = rent();
    held.data = Err(BORROW_FAILED);
    assert_eq!(read_rent(&held), Err(Failure::Aborted));
    assert_eq!(is_exempt(&held, 0, 72), Err(Failure::Aborted));
    held.key = clock().key;
    assert_eq!(read_rent(&held), Err(code(INVALID_ARGUMENT)));
    assert_eq!(is_exempt(&held, 0, 72), Err(code(INVALID_ARGUMENT)));
    // (128 + 72) bytes, 3480 a year, for two years.
    assert_eq!(is_exempt(&rent(), 1_392_000, 72), Ok(true));
    assert_eq!(is_exempt(&rent(), 1_391_999, 72), Ok(false));
    assert_eq!(is_exempt(&rent(), u64::MAX, usize::MAX), Err(Failure::Aborted));
    // At a rate of zero nothing is due, but the bytes still have to fit.
    let mut free = rent();
    free.data = Ok(vec![0; 17]);
    assert_eq!(is_exempt(&free, 0, usize::MAX - 128), Ok(true));
    assert_eq!(is_exempt(&free, 0, usize::MAX - 127), Err(Failure::Aborted));
}

// Setting up.

fn init_group_accounts() -> (Vec<AccountInfo>, u64) {
    let mut nonce = 0;
    while gen_signer_key(nonce, &key(1), &program()).is_err() {
        nonce += 1;
    }
    let signer_key = gen_signer_key(nonce, &key(1), &program()).unwrap();
    let unused = MangoGroup { account_flags: 0, ..group() };
    let mut group_account = group_acc(unused);
    group_account.data_len = 872;
    group_account.lamports = 6_960_000;
    let mut accounts =
        vec![group_account, rent(), clock(), account(signer_key), account(dex())];
    accounts.extend(mints());
    for i in 0..NUM_TOKENS {
        let mut data = vec![0u8; 165];
        data[..32].copy_from_slice(&[10 + i as u8; 32]);
        data[32..64].copy_from_slice(&signer_key.0);
        data[108] = 1;
        let mut vault = account(key(20 + i as u8));
        vault.owner = Pubkey(spl_token::id().to_bytes());
        vault.data = Ok(data);
        accounts.push(vault);
    }
    for i in 0..NUM_MARKETS {
        let mut market = account(key(40 + i as u8));
        market.owner = dex();
        market.market = Ok(MarketState {
            coin_mint: key(10 + i as u8),
            pc_mint: key(12),
            coin_lot_size: 1,
            pc_lot_size: 1,
        });
        accounts.push(market);
    }
    accounts.push(account(key(30)));
    accounts.push(account(key(31)));
    (accounts, nonce)
}

fn init_group(accounts: &[AccountInfo], nonce: u64) -> Result<Update, Failure> {
    Processor::init_mango_group(&program(), accounts, nonce, num(1), num(2))
}

#[test]
fn signer_key_is_derived() {
    let key_bytes = [1u8; 32];
    let id = solana_program::pubkey::Pubkey::new_from_array([200; 32]);
    for nonce in 0..6u64 {
        let expected = solana_program::pubkey::Pubkey::create_program_address(
            &[&key_bytes, &nonce.to_le_bytes()],
            &id,
        );
        match gen_signer_key(nonce, &key(1), &program()) {
            Ok(key) => assert_eq!(key.0, expected.unwrap().to_bytes()),
            Err(code) => {
                assert!(expected.is_err());
                assert_eq!(code, 0xe_0000_0000);
            }
        }
    }
}

#[test]
fn group_is_set_up() {
    let (accounts, nonce) = init_group_accounts();
    let update = init_group(&accounts, nonce).unwrap();
    assert_eq!(update.invocation, None);
    assert_eq!(update.margin_account, None);
    let made = update.mango_group.unwrap();
    let start = MangoIndex { last_update: 1_600_000_000, borrow: num(1), deposit: num(1) };
    assert_eq!(
        made,
        MangoGroup {
            account_flags: GROUP_FLAGS,
            tokens: [key(10), key(11), key(12)],
            vaults: [key(20), key(21), key(22)],
            indexes: [start; NUM_TOKENS],
            spot_markets: [key(40), key(41)],
            oracles: [key(30), key(31)],
            signer_nonce: nonce,
            signer_key: accounts[3].key,
            dex_program_id: dex(),
            total_deposits: [num(0); NUM_TOKENS],
            total_borrows: [num(0); NUM_TOKENS],
            maint_coll_ratio: num(1),
            init_coll_ratio: num(2),
        }
    );
}

#[test]
fn group_is_set_up_once() {
    let (mut accounts, nonce) = init_group_accounts();
    let made = init_group(&accounts, nonce).unwrap().mango_group.unwrap();
    accounts[0].mango_group = Ok(made);
    assert_eq!(init_group(&accounts, nonce), Err(unmet(Check::GroupUnused)));
    assert_eq!(MangoGroup::load_checked(&accounts[0], &program()), Ok(made));
}

#[test]
fn group_set_up_is_refused() {
    let (mut accounts, nonce) = init_group_accounts();
    accounts[0].owner = key(9);
    assert_eq!(init_group(&accounts, nonce), Err(unmet(Check::GroupOwner)));
    let (mut accounts, nonce) = init_group_accounts();
    accounts[0].lamports -= 1;
    assert_eq!(init_group(&accounts, nonce), Err(unmet(Check::GroupRent)));
    let (mut accounts, nonce) = init_group_accounts();
    accounts[3].key = key(9);
    assert_eq!(init_group(&accounts, nonce), Err(unmet(Check::SignerKey)));
    let (mut accounts, nonce) = init_group_accounts();
    accounts[8].owner = key(9);
    assert_eq!(init_group(&accounts, nonce), Err(unmet(Check::VaultProgram)));
    let (mut accounts, nonce) = init_group_accounts();
    accounts[9].data = Ok(vec![0; 165]);
    assert_eq!(init_group(&accounts, nonce), Err(code(UNINITIALIZED_ACCOUNT)));
    let (mut accounts, nonce) = init_group_accounts();
    accounts.swap(8, 9);
    assert_eq!(init_group(&accounts, nonce), Err(unmet(Check::VaultMint)));
    let (mut accounts, nonce) = init_group_accounts();
    accounts[11].owner = key(9);
    assert_eq!(init_group(&accounts, nonce), Err(unmet(Check::MarketProgram)));
    let (mut accounts, nonce) = init_group_accounts();
    accounts.swap(11, 12);
    assert_eq!(init_group(&accounts, nonce), Err(unmet(Check::MarketBaseMint)));
    let (mut accounts, nonce) = init_group_accounts();
    let market = accounts[12].market.unwrap();
    accounts[12].market = Ok(MarketState { pc_mint: key(9), ..market });
    assert_eq!(init_group(&accounts, nonce), Err(unmet(Check::MarketQuoteMint)));
    let (accounts, nonce) = init_group_accounts();
    assert_eq!(init_group(&accounts[..14], nonce), Err(Failure::Aborted));
    let (mut accounts, nonce) = init_group_accounts();
    accounts.swap(1, 2);
    assert_eq!(init_group(&accounts, nonce), Err(code(INVALID_ARGUMENT)));
}

#[test]
fn vault_owner_is_checked() {
    let (mut accounts, nonce) = init_group_accounts();
    let mut data = accounts[10].data.clone().unwrap();
    let read = read_token_account(&accounts[10]).unwrap();
    assert_eq!(read.mint, key(12));
    assert_eq!(read.owner, accounts[3].key);
    assert!(read.is_initialized);
    data[40] ^= 1;
    accounts[10].data = Ok(data);
    assert_eq!(init_group(&accounts, nonce), Err(unmet(Check::VaultOwner)));
}

fn init_margin_accounts() -> Vec<AccountInfo> {
    let mut margin_account = margin_acc(MarginAccount { account_flags: 0, ..margin() });
    margin_account.data_len = 72;
    margin_account.lamports = 1_392_000;
    let mut accounts = vec![group_acc(group()), margin_account, signed(key(3)), rent()];
    for i in 0..NUM_MARKETS {
        let mut acc = orders_acc(i, OpenOrders { account_flags: 0, ..orders(0) });
        acc.lamports = (128 + 3216) * 3480 * 2;
        accounts.push(acc);
    }
    accounts
}

#[test]
fn margin_account_is_set_up() {
    let accounts = init_margin_accounts();
    let update = Processor::init_margin_account(&program(), &accounts).unwrap();
    assert_eq!(update.mango_group, None);
    let made = update.margin_account.unwrap();
    assert_eq!(
        made,
        MarginAccount {
            account_flags: MARGIN_FLAGS,
            mango_group: key(1),
            owner: key(3),
            deposits: [num(0); NUM_TOKENS],
            borrows: [num(0); NUM_TOKENS],
            positions: [0; NUM_TOKENS],
            open_orders: [key(60), key(61)],
        }
    );
    let mut again = init_margin_accounts();
    again[1].margin_account = Ok(made);
    assert_eq!(
        Processor::init_margin_account(&program(), &again),
        Err(unmet(Check::MarginUnused))
    );
}

#[test]
fn margin_set_up_is_refused() {
    let init = |accounts: &[AccountInfo]| Processor::init_margin_account(&program(), accounts);
    let mut accounts = init_margin_accounts();
    accounts[1].owner = key(9);
    assert_eq!(init(&accounts), Err(unmet(Check::MarginOwner)));
    let mut accounts = init_margin_accounts();
    accounts[1].lamports -= 1;
    assert_eq!(init(&accounts), Err(unmet(Check::MarginRent)));
    let mut accounts = init_margin_accounts();
    accounts[2].is_signer = false;
    assert_eq!(init(&accounts), Err(unmet(Check::OwnerSigned)));
    let mut accounts = init_margin_accounts();
    accounts[4].lamports -= 1;
    assert_eq!(init(&accounts), Err(unmet(Check::OpenOrdersRent)));
    let mut accounts = init_margin_accounts();
    accounts[5].open_orders = Ok(orders(0));
    assert_eq!(init(&accounts), Err(unmet(Check::OpenOrdersUnused)));
    let mut accounts = init_margin_accounts();
    accounts[5].owner = key(9);
    assert_eq!(init(&accounts), Err(unmet(Check::OpenOrdersProgram)));
    let mut accounts = init_margin_accounts();
    accounts[0].owner = key(9);
    assert_eq!(init(&accounts), Err(unmet(Check::GroupOwner)));
    assert_eq!(init(&accounts[..5]), Err(Failure::Aborted));
}

#[test]
fn open_orders_size_is_that_of_the_exchange() {
    assert_eq!(OPEN_ORDERS_SIZE, std::mem::size_of::<serum_dex::state::OpenOrders>());
}

// Deposits.

fn deposit_accounts() -> Vec<AccountInfo> {
    vec![
        group_acc(group()),
        margin_acc(margin()),
        account(key(80)),
        account(key(11)),
        account(key(70)),
        account(key(21)),
        account(key(90)),
        clock(),
    ]
}

#[test]
fn deposit_is_credited() {
    let mut idx = indexes();
    idx[1] = index(2 * ONE);
    let (invocation, pending) =
        Processor::deposit(&program(), &deposit_accounts(), 7, Ok(idx)).unwrap();
    assert_transfer(&invocation, key(70), key(21), key(80), 7);
    assert_eq!(invocation.signer_seeds, None);
    let update = pending.finish(Ok(())).unwrap();
    let amount = 7 * ONE / 2;
    let after = update.margin_account.unwrap();
    let after_group = update.mango_group.unwrap();
    assert_eq!(after.deposits[1].bits, 200 * ONE + amount);
    assert_eq!(after_group.total_deposits[1].bits, 1_000_000 * ONE + amount);
    assert_eq!(after_group.indexes, idx);
    assert_eq!(after.positions, margin().positions);
    assert_eq!(after.deposits[0], num(100));
    assert_eq!(to_native(after.deposits[1], idx[1].deposit), Ok(407));
}

#[test]
fn deposit_fails_with_its_transfer() {
    let (_, pending) =
        Processor::deposit(&program(), &deposit_accounts(), 7, Ok(indexes())).unwrap();
    assert_eq!(pending.finish(Err(MangoError::ProgramError(1))), Err(code(1)));
}

#[test]
fn anyone_may_deposit() {
    let pending = |depositor: AccountInfo| {
        let mut accounts = deposit_accounts();
        accounts[2] = depositor;
        Processor::deposit(&program(), &accounts, 7, Ok(indexes())).unwrap().1
    };
    assert_eq!(pending(account(key(80))), pending(signed(key(3))));
}

#[test]
fn deposit_is_refused() {
    let deposit =
        |accounts: &[AccountInfo]| Processor::deposit(&program(), accounts, 7, Ok(indexes()));
    let mut accounts = deposit_accounts();
    accounts[5].key = key(20);
    assert_eq!(deposit(&accounts), Err(unmet(Check::VaultKey)));
    accounts[3].key = key(9);
    assert_eq!(deposit(&accounts), Err(Failure::Aborted));
    let mut accounts = deposit_accounts();
    accounts[0].mango_group = Ok(MangoGroup { account_flags: 1, ..group() });
    assert_eq!(deposit(&accounts), Err(unmet(Check::GroupFlags)));
    let mut accounts = deposit_accounts();
    accounts[0].owner = key(9);
    assert_eq!(deposit(&accounts), Err(unmet(Check::GroupOwner)));
    let mut accounts = deposit_accounts();
    accounts[1].margin_account = Ok(MarginAccount { account_flags: 1, ..margin() });
    assert_eq!(deposit(&accounts), Err(unmet(Check::MarginFlags)));
    let mut accounts = deposit_accounts();
    accounts[1].margin_account = Ok(MarginAccount { mango_group: key(9), ..margin() });
    assert_eq!(deposit(&accounts), Err(unmet(Check::MarginGroup)));
    let mut accounts = deposit_accounts();
    accounts[7].key = key(9);
    assert_eq!(deposit(&accounts), Err(code(INVALID_ARGUMENT)));
    assert_eq!(deposit(&accounts[..7]), Err(Failure::Aborted));
    let failed = Processor::deposit(
        &program(),
        &deposit_accounts(),
        7,
        Err(MangoError::ProgramError(33)),
    );
    assert_eq!(failed, Err(code(33)));
}

#[test]
fn deposit_that_does_not_fit_aborts() {
    let mut full = group();
    full.total_deposits[1] = U64F64 { bits: u128::MAX };
    let mut accounts = deposit_accounts();
    accounts[0] = group_acc(full);
    let (_, pending) = Processor::deposit(&program(), &accounts, 7, Ok(indexes())).unwrap();
    assert_eq!(pending.finish(Ok(())), Err(Failure::Aborted));
}

// Withdrawals.

#[test]
fn withdrawal_takes_the_position_first() {
    let accounts = withdraw_accounts(group(), margin(), 0);
    let update = withdraw(&accounts, 0, 10).unwrap();
    let after = update.margin_account.unwrap();
    assert_eq!(after.positions, [0, 20, 30]);
    assert_eq!(after.deposits, margin().deposits);
    let invocation = update.invocation.unwrap();
    assert_transfer(&invocation, key(20), key(70), key(50), 10);
    assert_eq!(invocation.signer_seeds, Some(SignerSeeds { key: key(1), nonce: 77 }));

    let update = withdraw(&accounts, 0, 60).unwrap();
    let after = update.margin_account.unwrap();
    assert_eq!(after.positions, [0, 20, 30]);
    assert_eq!(after.deposits[0], num(50));
    assert_eq!(update.mango_group.unwrap().total_deposits[0], num(999_950));

    let update = withdraw(&accounts, 0, 110).unwrap();
    assert_eq!(update.margin_account.unwrap().deposits[0], num(0));
    assert_eq!(withdraw(&accounts, 0, 111), Err(unmet(Check::Available)));
}

#[test]
fn withdrawal_is_refused() {
    let mut accounts = withdraw_accounts(group(), margin(), 0);
    assert_eq!(withdraw(&accounts, 1, 1), Err(unmet(Check::VaultKey)));
    assert_eq!(withdraw(&accounts, 3, 1), Err(Failure::Aborted));
    accounts[2].is_signer = false;
    assert_eq!(withdraw(&accounts, 0, 1), Err(unmet(Check::OwnerSigned)));
    accounts[2] = signed(key(9));
    assert_eq!(withdraw(&accounts, 0, 1), Err(unmet(Check::OwnerKey)));
    accounts[2] = signed(key(3));
    accounts[9].key = key(9);
    assert_eq!(withdraw(&accounts, 0, 1), Err(unmet(Check::OpenOrdersKey)));
    accounts[9].key = key(61);
    accounts[9].open_orders = Ok(OpenOrders { account_flags: 3, ..orders(0) });
    assert_eq!(withdraw(&accounts, 0, 1), Err(unmet(Check::OpenOrdersFlags)));
    accounts[9].open_orders = Ok(OpenOrders { owner: key(9), ..orders(0) });
    assert_eq!(withdraw(&accounts, 0, 1), Err(unmet(Check::OpenOrdersOwner)));
    accounts[9].open_orders = Ok(OpenOrders { account_flags: 0, owner: key(9), ..orders(0) });
    assert!(withdraw(&accounts, 0, 1).is_ok());
    assert_eq!(withdraw(&accounts[..14], 0, 1), Err(Failure::Aborted));
}

#[test]
fn unused_open_orders_pass() {
    let unused = OpenOrders { account_flags: 0, ..orders(0) };
    assert_eq!(check_open_orders(&orders_acc(0, unused), &key(9)), Ok(()));
    assert_eq!(check_open_orders(&orders_acc(0, orders(0)), &key(50)), Ok(()));
}

/// Assets of 5 in quote tokens and 2 base tokens at about 50; a debt of 50.
fn indebted() -> MarginAccount {
    MarginAccount {
        deposits: [num(1), num(0), num(5)],
        borrows: [num(0), num(0), num(50)],
        positions: [1, 0, 0],
        ..margin()
    }
}

#[test]
fn collateral_is_valued() {
    let prices = [num(50), num(2), num(1)];
    let accounts = vec![orders_acc(0, orders(1)), orders_acc(1, orders(2))];
    // Orders: 4 * 50 + 6, and 8 * 2 + 12. Holdings: 2 * 50 and 5.
    let assets = indebted().get_assets_val(&group(), &prices, &accounts).unwrap();
    assert_eq!(assets, num(206 + 28 + 105));
    assert_eq!(indebted().get_liabs_val(&group(), &prices), Ok(num(50)));
    let ratio = indebted().get_collateral_ratio(&group(), &prices, &accounts).unwrap();
    assert_eq!(ratio.bits, 339 * ONE / 50);
    let ratio = margin().get_collateral_ratio(&group(), &prices, &accounts).unwrap();
    assert_eq!(ratio.bits, u128::MAX);
}

#[test]
fn withdrawal_keeps_collateral() {
    // Without the two base tokens 5 would be left against 50.
    let accounts = withdraw_accounts(group(), indebted(), 0);
    assert_eq!(withdraw(&accounts, 0, 2), Err(unmet(Check::CollateralRatio)));
    let accounts = withdraw_accounts(group(), indebted(), 2);
    assert!(withdraw(&accounts, 2, 5).is_ok());
}

#[test]
fn withdrawal_leaves_what_is_lent() {
    let mut tight = group();
    tight.total_deposits[0] = num(1050);
    let accounts = withdraw_accounts(tight, margin(), 0);
    assert!(withdraw(&accounts, 0, 60).is_ok());
    assert_eq!(withdraw(&accounts, 0, 61), Err(unmet(Check::DepositsCoverBorrows)));
}

#[test]
fn withdrawal_undoes_deposit() {
    let mut idx = indexes();
    idx[1] = index(3 * ONE);
    let mut empty = margin();
    empty.positions = [0; NUM_TOKENS];
    let mut accounts = deposit_accounts();
    accounts[1] = margin_acc(empty);
    let (_, pending) = Processor::deposit(&program(), &accounts, 10, Ok(idx)).unwrap();
    let update = pending.finish(Ok(())).unwrap();
    let (g, m) = (update.mango_group.unwrap(), update.margin_account.unwrap());
    assert_eq!(m.deposits[1].bits, 200 * ONE + 10 * ONE / 3);
    let accounts = withdraw_accounts(g, m, 1);
    let update = Processor::withdraw(&program(), &accounts, 1, 10, Ok(idx)).unwrap();
    assert_eq!(update.margin_account, Some(empty));
    assert_eq!(update.mango_group, Some(MangoGroup { indexes: idx, ..group() }));
}

// Borrows.

#[test]
fn borrow_goes_to_the_position() {
    let accounts = borrow_accounts(group(), margin());
    let mut idx = indexes();
    idx[0] = index(2 * ONE);
    let update = Processor::borrow(&program(), &accounts, 0, 9, Ok(idx)).unwrap();
    let after = update.margin_account.unwrap();
    assert_eq!(update.invocation, None);
    assert_eq!(after.positions, [19, 20, 30]);
    assert_eq!(after.borrows[0].bits, 9 * ONE / 2);
    assert_eq!(update.mango_group.unwrap().total_borrows[0].bits, 1000 * ONE + 9 * ONE / 2);
    assert_eq!(after.deposits, margin().deposits);
}

#[test]
fn borrow_is_refused() {
    let accounts = borrow_accounts(group(), margin());
    let borrow = |accounts: &[AccountInfo], token: usize, quantity: u64| {
        Processor::borrow(&program(), accounts, token, quantity, Ok(indexes()))
    };
    // Assets of about 50 * 110 + 2 * 220 + 330; the debt adds to both sides.
    assert_eq!(borrow(&accounts, 2, 40_000), Err(unmet(Check::CollateralRatio)));
    assert!(borrow(&accounts, 2, 20_000).is_ok());
    assert_eq!(borrow(&accounts, 3, 1), Err(Failure::Aborted));
    let mut tight = group();
    tight.total_deposits[2] = num(1001);
    let accounts = borrow_accounts(tight, margin());
    assert!(borrow(&accounts, 2, 1).is_ok());
    assert_eq!(borrow(&accounts, 2, 2), Err(unmet(Check::DepositsCoverBorrows)));
    let mut full = margin();
    full.positions[2] = u64::MAX;
    let accounts = borrow_accounts(group(), full);
    assert_eq!(borrow(&accounts, 2, 1), Err(unmet(Check::PositionSum)));
    let mut full = margin();
    full.borrows[2] = U64F64 { bits: u128::MAX };
    let accounts = borrow_accounts(group(), full);
    assert_eq!(borrow(&accounts, 2, 1), Err(unmet(Check::BorrowSum)));
    let mut full = group();
    full.total_borrows[2] = U64F64 { bits: u128::MAX };
    let accounts = borrow_accounts(full, margin());
    assert_eq!(borrow(&accounts, 2, 1), Err(unmet(Check::TotalBorrowSum)));
}

#[test]
fn unchecked_borrow_checks_the_borrow_first() {
    let mut full = margin();
    full.positions[2] = u64::MAX;
    full.borrows[2] = U64F64 { bits: u128::MAX };
    assert_eq!(
        Processor::borrow_unchecked(group(), full, 2, 1),
        Err(unmet(Check::BorrowSum))
    );
    let (after_group, after) = Processor::borrow_unchecked(group(), margin(), 1, 5).unwrap();
    assert_eq!(after.positions[1], 25);
    assert_eq!(after.borrows[1], num(5));
    assert_eq!(after_group.total_borrows[1], num(1005));
}

fn settle_borrow(margin: MarginAccount, quantity: u64) -> (MangoGroup, MarginAccount) {
    let accounts = borrow_accounts(group(), margin);
    let update =
        Processor::settle_borrow(&program(), &accounts, 0, quantity, Ok(indexes())).unwrap();
    (update.mango_group.unwrap(), update.margin_account.unwrap())
}

#[test]
fn borrow_is_settled_from_position_then_deposit() {
    let mut owing = margin();
    owing.borrows[0] = num(50);
    // Out of the position alone.
    let (g, m) = settle_borrow(owing, 4);
    assert_eq!((m.borrows[0], m.positions[0], m.deposits[0]), (num(46), 6, num(100)));
    assert_eq!((g.total_borrows[0], g.total_deposits[0]), (num(996), num(1_000_000)));
    // Position and part of the deposit; never more than is owed.
    for quantity in [50, 51, u64::MAX] {
        let (g, m) = settle_borrow(owing, quantity);
        assert_eq!((m.borrows[0], m.positions[0], m.deposits[0]), (num(0), 0, num(60)));
        assert_eq!((g.total_borrows[0], g.total_deposits[0]), (num(950), num(999_960)));
    }
    // Position and all of the deposit, which is not enough.
    owing.borrows[0] = num(500);
    let (g, m) = settle_borrow(owing, 400);
    assert_eq!((m.borrows[0], m.positions[0], m.deposits[0]), (num(390), 0, num(0)));
    assert_eq!((g.total_borrows[0], g.total_deposits[0]), (num(890), num(999_900)));
}

#[test]
fn settling_undoes_borrow() {
    let accounts = borrow_accounts(group(), margin());
    let update = Processor::borrow(&program(), &accounts, 0, 9, Ok(indexes())).unwrap();
    let (g, m) = (update.mango_group.unwrap(), update.margin_account.unwrap());
    assert_eq!(m.borrows[0], num(9));
    let accounts = borrow_accounts(g, m);
    let update = Processor::settle_borrow(&program(), &accounts, 0, 9, Ok(indexes())).unwrap();
    assert_eq!(update.margin_account, Some(margin()));
    assert_eq!(update.mango_group, Some(group()));
}

/// All 12 deposited units are lent, at a deposit index of three.
fn settle_when_all_is_lent(position: u64) -> MangoGroup {
    let mut idx = indexes();
    idx[0].deposit = num(3);
    let mut lent = group();
    lent.total_deposits[0] = num(4);
    lent.total_borrows[0] = num(12);
    let mut owing = margin();
    owing.deposits[0] = num(4);
    owing.borrows[0] = num(5);
    owing.positions[0] = position;
    let accounts = borrow_accounts(lent, owing);
    let update = Processor::settle_borrow(&program(), &accounts, 0, 5, Ok(idx)).unwrap();
    update.mango_group.unwrap()
}

#[test]
fn settling_keeps_borrows_covered() {
    let after = settle_when_all_is_lent(1);
    assert_eq!(after.get_total_native_deposit(0), Ok(7));
    assert_eq!(after.get_total_native_borrow(0), Ok(7));
    assert_eq!(after.has_valid_deposits_borrows(0), Ok(true));
    // With an empty position the rounding of the deposits shows.
    let after = settle_when_all_is_lent(0);
    assert_eq!(after.get_total_native_deposit(0), Ok(6));
    assert_eq!(after.get_total_native_borrow(0), Ok(7));
    assert_eq!(after.has_valid_deposits_borrows(0), Ok(false));
}

#[test]
fn settling_rounds_amounts_down() {
    let mut owing = margin();
    owing.borrows[0] = U64F64 { bits: 5 * ONE + ONE / 2 };
    let (g, m) = settle_borrow(owing, 0);
    assert_eq!(m.borrows[0], num(5));
    assert_eq!(g.total_borrows[0], num(1000));
}

#[test]
fn settling_without_a_debt_takes_nothing() {
    for quantity in [0, 1, u64::MAX] {
        let (g, m) = settle_borrow(margin(), quantity);
        assert_eq!(m, margin());
        assert_eq!(g, group());
    }
    // At a borrow index of zero there is no amount to set the borrow to.
    let mut idx = indexes();
    idx[0].borrow = num(0);
    let accounts = borrow_accounts(group(), margin());
    let result = Processor::settle_borrow(&program(), &accounts, 0, 1, Ok(idx));
    assert_eq!(result, Err(Failure::Aborted));
}

#[test]
fn settling_more_than_the_group_lent_aborts() {
    let mut owing = margin();
    owing.borrows[0] = num(2000);
    owing.positions[0] = 2000;
    let accounts = borrow_accounts(group(), owing);
    let result = Processor::settle_borrow(&program(), &accounts, 0, 1001, Ok(indexes()));
    assert_eq!(result, Err(Failure::Aborted));
}

// Liquidation.

fn liquidate_accounts(margin: MarginAccount) -> Vec<AccountInfo> {
    let mut accounts = vec![
        group_acc(group()),
        signed(key(4)),
        margin_acc(margin),
        account(key(90)),
        clock(),
    ];
    for i in 0..NUM_MARKETS {
        accounts.push(orders_acc(i, OpenOrders { owner: key(2), ..orders(0) }));
    }
    accounts.extend(oracles());
    for i in 0..NUM_TOKENS {
        accounts.push(account(key(20 + i as u8)));
    }
    for i in 0..NUM_TOKENS {
        accounts.push(account(key(70 + i as u8)));
    }
    accounts.extend(mints());
    accounts
}

/// Assets of just under 105 against a debt of 100.
fn short() -> MarginAccount {
    MarginAccount { borrows: [num(0), num(0), num(100)], ..indebted() }
}

#[test]
fn liquidation_credits_deposits_and_changes_the_owner() {
    let accounts = liquidate_accounts(short());
    let state = Processor::liquidate(&program(), &accounts, [1, 0, 20], Ok(indexes())).unwrap();
    let (invocation, state) = match state.next(&accounts).unwrap() {
        LiquidationStep::Transfer(invocation, state) => (invocation, state),
        LiquidationStep::Done(_) => panic!("a deposit is due"),
    };
    assert_eq!(state.token, 0);
    assert_transfer(&invocation, key(70), key(20), key(4), 1);
    let state = state.paid(Ok(())).unwrap();
    let (invocation, state) = match state.next(&accounts).unwrap() {
        LiquidationStep::Transfer(invocation, state) => (invocation, state),
        LiquidationStep::Done(_) => panic!("a deposit is due"),
    };
    assert_eq!(state.token, 2);
    assert_transfer(&invocation, key(72), key(22), key(4), 20);
    assert_eq!(state.paid(Err(MangoError::ProgramError(1))), Err(code(1)));
    let state = state.paid(Ok(())).unwrap();
    let update = match state.next(&accounts).unwrap() {
        LiquidationStep::Done(update) => update,
        LiquidationStep::Transfer(_, _) => panic!("nothing is due"),
    };
    let after = update.margin_account.unwrap();
    let after_group = update.mango_group.unwrap();
    assert_eq!(after.owner, key(4));
    assert_eq!(after.deposits, [num(2), num(0), num(25)]);
    assert_eq!(after.borrows, short().borrows);
    assert_eq!(
        after_group.total_deposits,
        [num(1_000_001), num(1_000_000), num(1_000_020)]
    );
}

#[test]
fn liquidation_is_refused() {
    let liquidate = |accounts: &[AccountInfo], quantities: [u64; NUM_TOKENS]| {
        Processor::liquidate(&program(), accounts, quantities, Ok(indexes())).map(|_| ())
    };
    let accounts = liquidate_accounts(short());
    assert_eq!(liquidate(&accounts, [0, 0, 15]), Err(unmet(Check::RestoresCollateral)));
    assert_eq!(liquidate(&accounts, [0, 0, 16]), Ok(()));
    let mut healthy = short();
    healthy.positions[2] = 6;
    let accounts = liquidate_accounts(healthy);
    assert_eq!(liquidate(&accounts, [0, 0, 16]), Err(unmet(Check::BelowMaintenance)));
    let accounts = liquidate_accounts(margin());
    assert_eq!(liquidate(&accounts, [0, 0, 16]), Err(unmet(Check::HasLiabilities)));
    let mut accounts = liquidate_accounts(short());
    accounts[1].is_signer = false;
    assert_eq!(liquidate(&accounts, [0, 0, 16]), Err(unmet(Check::LiqorSigned)));
    let mut accounts = liquidate_accounts(short());
    accounts[5].open_orders = Ok(orders(0));
    assert_eq!(liquidate(&accounts, [0, 0, 16]), Err(unmet(Check::OpenOrdersOwner)));
    assert_eq!(liquidate(&accounts[..17], [0, 0, 16]), Err(Failure::Aborted));
}

#[test]
fn liquidation_sums_are_checked() {
    let accounts = liquidate_accounts(short());
    let state = Processor::liquidate(&program(), &accounts, [0, 0, 16], Ok(indexes())).unwrap();
    let mut full = state;
    full.token = 2;
    full.margin_account.deposits[2] = U64F64 { bits: u128::MAX };
    full.mango_group.total_deposits[2] = U64F64 { bits: u128::MAX };
    assert_eq!(full.paid(Ok(())), Err(unmet(Check::DepositSum)));
    full.margin_account.deposits[2] = num(0);
    assert_eq!(full.paid(Ok(())), Err(unmet(Check::TotalDepositSum)));
}

// Orders.

fn order(side: Side, limit_price: u64, max_qty: u64) -> NewOrder {
    NewOrder {
        side,
        limit_price,
        max_qty,
        order_type: OrderType::PostOnly,
        client_id: 0x0102_0304_0506_0708,
        self_trade_behavior: SelfTradeBehavior::CancelProvide,
    }
}

fn order_accounts(vault: u8) -> Vec<AccountInfo> {
    let mut market = account(key(40));
    market.owner = dex();
    market.market = Ok(MarketState {
        coin_mint: key(10),
        pc_mint: key(12),
        coin_lot_size: 10,
        pc_lot_size: 2,
    });
    let mut accounts = vec![
        group_acc(group()),
        signed(key(3)),
        margin_acc(margin()),
        clock(),
        account(key(100)),
        market,
        account(key(101)),
        account(key(vault)),
        account(key(50)),
        account(key(102)),
        account(key(103)),
        account(key(90)),
        account(key(104)),
    ];
    accounts.extend(vec![orders_acc(0, orders(1)), orders_acc(1, orders(2))]);
    accounts.extend(oracles());
    accounts.extend(mints());
    accounts
}

fn place(accounts: &[AccountInfo], market: usize, order: NewOrder) -> Result<Update, Failure> {
    Processor::place_order(&program(), accounts, market, &order, Ok(indexes()))
}

#[test]
fn bid_borrows_what_it_lacks() {
    // 20 * 4 lots of 2 quote tokens; 5 are free and 30 are in the position.
    let update = place(&order_accounts(22), 0, order(Side::Bid, 20, 4)).unwrap();
    let after = update.margin_account.unwrap();
    assert_eq!(after.positions, [10, 20, 155]);
    assert_eq!(after.borrows[2], num(125));
    assert_eq!(update.mango_group.unwrap().total_borrows[2], num(1125));
    let invocation = update.invocation.unwrap();
    let mut data = vec![0u8, 9, 0, 0, 0, 0, 0, 0, 0];
    data.extend_from_slice(&20u64.to_le_bytes());
    data.extend_from_slice(&4u64.to_le_bytes());
    data.extend_from_slice(&[2, 0, 0, 0, 8, 7, 6, 5, 4, 3, 2, 1, 1, 0, 0, 0]);
    assert_eq!(invocation.instruction.data, data);
    assert_eq!(invocation.instruction.program_id, key(100));
    assert_eq!(
        invocation.instruction.accounts,
        vec![
            writable(key(40)),
            writable(key(60)),
            writable(key(101)),
            writable(key(22)),
            signer(key(50)),
            writable(key(102)),
            writable(key(103)),
            writable(key(90)),
            readonly(key(104)),
        ]
    );
    let handed: Vec<Pubkey> =
        [100, 40, 60, 101, 22, 50, 102, 103, 90, 104].iter().map(|n| key(*n)).collect();
    assert_eq!(invocation.accounts, handed);
    assert_eq!(invocation.signer_seeds, Some(SignerSeeds { key: key(1), nonce: 77 }));
}

#[test]
fn ask_borrows_what_it_lacks() {
    // 4 lots of 10 base tokens; 3 are free and 10 are in the position.
    let update = place(&order_accounts(20), 0, order(Side::Ask, 1, 4)).unwrap();
    let after = update.margin_account.unwrap();
    assert_eq!(after.positions, [37, 20, 30]);
    assert_eq!(after.borrows[0], num(27));
    // One lot is covered.
    let update = place(&order_accounts(20), 0, order(Side::Ask, 1, 1)).unwrap();
    assert_eq!(update.margin_account.unwrap(), margin());
    assert_eq!(update.invocation.unwrap().instruction.data[5], 1);
}

#[test]
fn order_is_refused() {
    assert_eq!(
        place(&order_accounts(20), 0, order(Side::Bid, 1, 1)),
        Err(unmet(Check::VaultKey))
    );
    assert_eq!(
        place(&order_accounts(22), 0, order(Side::Ask, 1, 1)),
        Err(unmet(Check::VaultKey))
    );
    assert_eq!(place(&order_accounts(22), 2, order(Side::Bid, 1, 1)), Err(Failure::Aborted));
    assert_eq!(
        place(&order_accounts(22), 0, order(Side::Bid, u64::MAX, 2)),
        Err(Failure::Aborted)
    );
    assert_eq!(
        place(&order_accounts(22), 0, order(Side::Bid, 10_000, 2)),
        Err(unmet(Check::CollateralRatio))
    );
    let mut accounts = order_accounts(22);
    accounts[1].is_signer = false;
    assert_eq!(place(&accounts, 0, order(Side::Bid, 1, 1)), Err(unmet(Check::OwnerSigned)));
    let mut accounts = order_accounts(22);
    accounts[5].owner = key(9);
    assert_eq!(place(&accounts, 0, order(Side::Bid, 1, 1)), Err(unmet(Check::MarketProgram)));
    let mut accounts = order_accounts(22);
    accounts[13].key = key(9);
    assert_eq!(place(&accounts, 0, order(Side::Bid, 1, 1)), Err(unmet(Check::OpenOrdersKey)));
    assert_eq!(
        place(&order_accounts(22)[..19], 0, order(Side::Bid, 1, 1)),
        Err(Failure::Aborted)
    );
}

fn cancel_accounts() -> Vec<AccountInfo> {
    vec![
        group_acc(group()),
        signed(key(3)),
        margin_acc(margin()),
        clock(),
        account(key(100)),
        account(key(41)),
        account(key(61)),
        account(key(101)),
        account(key(50)),
    ]
}

fn process(accounts: &[AccountInfo], instruction: MangoInstruction) -> Result<Progress, Failure> {
    Processor::process(&program(), accounts, Some(instruction), Ok(indexes()))
}

#[test]
fn cancelling_is_sent_to_the_exchange() {
    let cancel = CancelOrder {
        side: Side::Ask,
        order_id: 0x0f0e_0d0c_0b0a_0908_0706_0504_0302_0100,
        owner: [1, 2, 3, 4],
        owner_slot: 99,
    };
    let progress =
        process(&cancel_accounts(), MangoInstruction::CancelOrder { instruction: cancel }).unwrap();
    let update = match progress {
        Progress::Done(update) => update,
        _ => panic!("the request is done"),
    };
    assert_eq!(update.margin_account, None);
    assert_eq!(update.mango_group, Some(group()));
    let invocation = update.invocation.unwrap();
    let mut data = vec![0u8, 4, 0, 0, 0, 1, 0, 0, 0];
    data.extend(0u8..16);
    for word in 1u64..5 {
        data.extend_from_slice(&word.to_le_bytes());
    }
    data.push(99);
    assert_eq!(invocation.instruction.data, data);
    assert_eq!(
        invocation.instruction.accounts,
        vec![readonly(key(41)), writable(key(61)), writable(key(101)), signer(key(50))]
    );
    let handed: Vec<Pubkey> = [100, 41, 61, 101, 50].iter().map(|n| key(*n)).collect();
    assert_eq!(invocation.accounts, handed);
    assert_eq!(invocation.signer_seeds, Some(SignerSeeds { key: key(1), nonce: 77 }));
}

#[test]
fn cancelling_by_client_id_sends_the_id() {
    let client_id = 0x0102_0304_0506_0708;
    let progress =
        process(&cancel_accounts(), MangoInstruction::CancelOrderByClientId { client_id }).unwrap();
    match progress {
        Progress::Done(update) => assert_eq!(
            update.invocation.unwrap().instruction.data,
            vec![8, 7, 6, 5, 4, 3, 2, 1]
        ),
        _ => panic!("the request is done"),
    }
}

#[test]
fn cancelling_is_refused() {
    let cancel = MangoInstruction::CancelOrderByClientId { client_id: 1 };
    let mut accounts = cancel_accounts();
    accounts[6].key = key(60);
    assert_eq!(process(&accounts, cancel), Err(unmet(Check::OpenOrdersKey)));
    accounts[5].key = key(9);
    assert_eq!(process(&accounts, cancel), Err(Failure::Aborted));
    accounts[1] = signed(key(9));
    assert_eq!(process(&accounts, cancel), Err(unmet(Check::OwnerKey)));
}

// Settling funds.

fn settle_accounts(first: usize, second: usize) -> Vec<AccountInfo> {
    let mut accounts = vec![
        group_acc(group()),
        signed(key(3)),
        margin_acc(margin()),
        clock(),
        account(key(100)),
        account(key(50)),
        account(key(105)),
        account(key(90)),
        orders_acc(0, orders(first)),
        orders_acc(1, orders(second)),
    ];
    for n in [40, 41, 110, 111, 112, 113, 20, 21, 22] {
        accounts.push(account(key(n)));
    }
    accounts
}

#[test]
fn funds_are_settled() {
    // The first market has nothing free.
    let accounts = settle_accounts(0, 2);
    let state = Processor::settle_funds(&program(), &accounts, Ok(indexes())).unwrap();
    let (invocation, state) = match state.next(&accounts).unwrap() {
        SettlementStep::Settle(invocation, state) => (invocation, state),
        SettlementStep::Done(_) => panic!("a market is to be settled"),
    };
    assert_eq!(state.market, 1);
    assert_eq!(invocation.instruction.program_id, key(100));
    assert_eq!(invocation.instruction.data, vec![0, 5, 0, 0, 0]);
    assert_eq!(
        invocation.instruction.accounts,
        vec![
            writable(key(41)),
            writable(key(61)),
            signer(key(50)),
            writable(key(111)),
            writable(key(113)),
            writable(key(21)),
            writable(key(22)),
            readonly(key(105)),
            readonly(key(90)),
        ]
    );
    let handed: Vec<Pubkey> =
        [100, 41, 61, 50, 111, 113, 21, 22, 105, 90].iter().map(|n| key(*n)).collect();
    assert_eq!(invocation.accounts, handed);

    let after = OpenOrders { native_coin_free: 1, native_pc_free: 0, ..orders(2) };
    let state = state.settled(&accounts, Ok(()), Ok(after)).unwrap();
    assert_eq!(state.margin_account.positions, [10, 25, 40]);
    match state.next(&accounts).unwrap() {
        SettlementStep::Done(update) => {
            assert_eq!(update.margin_account.unwrap().positions, [10, 25, 40]);
            assert_eq!(update.margin_account.unwrap().deposits, margin().deposits);
            assert_eq!(update.mango_group, Some(group()));
        }
        SettlementStep::Settle(_, _) => panic!("nothing is left"),
    }
}

#[test]
fn funds_are_settled_into_the_vaults_of_the_group_only() {
    // A foreign base vault, at the place of the second token.
    let mut accounts = settle_accounts(0, 2);
    accounts[17].key = key(9);
    let state = Processor::settle_funds(&program(), &accounts, Ok(indexes())).unwrap();
    assert_eq!(state.next(&accounts), Err(unmet(Check::VaultKey)));
    // A foreign quote vault.
    let mut accounts = settle_accounts(0, 2);
    accounts[18].key = key(9);
    assert_eq!(state.next(&accounts), Err(unmet(Check::VaultKey)));
    // The vault of another token of the group.
    let mut accounts = settle_accounts(0, 2);
    accounts.swap(16, 17);
    assert_eq!(state.next(&accounts), Err(unmet(Check::VaultKey)));
    // The vault of a market that is passed over is not used.
    let mut accounts = settle_accounts(0, 2);
    accounts[16].key = key(9);
    match state.next(&accounts).unwrap() {
        SettlementStep::Settle(invocation, at) => {
            assert_eq!(at.market, 1);
            assert_eq!(invocation.instruction.accounts[5], writable(group().vaults[1]));
            assert_eq!(invocation.instruction.accounts[6], writable(group().vaults[2]));
        }
        SettlementStep::Done(_) => panic!("a market is to be settled"),
    }
}

#[test]
fn all_markets_are_settled_and_settling_again_does_nothing() {
    let mut accounts = settle_accounts(1, 2);
    let mut state = Processor::settle_funds(&program(), &accounts, Ok(indexes())).unwrap();
    let mut calls = 0;
    let update = loop {
        match state.next(&accounts).unwrap() {
            SettlementStep::Done(update) => break update,
            SettlementStep::Settle(_, at) => {
                calls += 1;
                let left = OpenOrders { native_coin_free: 0, native_pc_free: 0, ..orders(1) };
                state = at.settled(&accounts, Ok(()), Ok(left)).unwrap();
            }
        }
    };
    assert_eq!(calls, 2);
    let after = update.margin_account.unwrap();
    // 3 and 6 base tokens, and 5 and 10 quote tokens.
    assert_eq!(after, MarginAccount { positions: [13, 26, 45], ..margin() });

    accounts[0] = group_acc(update.mango_group.unwrap());
    accounts[2] = margin_acc(after);
    for i in 0..NUM_MARKETS {
        accounts[8 + i] = orders_acc(i, orders(0));
    }
    let later = [index(2 * ONE); NUM_TOKENS];
    let state = Processor::settle_funds(&program(), &accounts, Ok(later)).unwrap();
    match state.next(&accounts).unwrap() {
        SettlementStep::Done(update) => {
            assert_eq!(update.invocation, None);
            assert_eq!(update.margin_account, Some(after));
            assert_eq!(update.mango_group, Some(MangoGroup { indexes: later, ..group() }));
        }
        SettlementStep::Settle(_, _) => panic!("nothing is free"),
    }
}

#[test]
fn settling_funds_is_refused() {
    let mut accounts = settle_accounts(1, 1);
    let state = Processor::settle_funds(&program(), &accounts, Ok(indexes())).unwrap();
    let more_base = OpenOrders { native_coin_free: 4, ..orders(1) };
    let more_quote = OpenOrders { native_pc_free: 6, ..orders(1) };
    assert_eq!(
        state.settled(&accounts, Ok(()), Ok(more_base)),
        Err(unmet(Check::BaseNotIncreased))
    );
    assert_eq!(
        state.settled(&accounts, Ok(()), Ok(more_quote)),
        Err(unmet(Check::QuoteNotIncreased))
    );
    assert_eq!(
        state.settled(&accounts, Err(MangoError::ProgramError(5)), Ok(more_quote)),
        Err(code(5))
    );
    assert_eq!(
        state.settled(&accounts, Ok(()), Err(MangoError::ProgramError(6))),
        Err(code(6))
    );
    let mut full = state;
    full.margin_account.positions[0] = u64::MAX;
    let settled = OpenOrders { native_coin_free: 0, ..orders(1) };
    assert_eq!(full.settled(&accounts, Ok(()), Ok(settled)), Err(Failure::Aborted));
    accounts[8].key = key(9);
    assert_eq!(state.next(&accounts), Err(unmet(Check::OpenOrdersKey)));
    accounts[1] = signed(key(9));
    assert_eq!(
        Processor::settle_funds(&program(), &accounts, Ok(indexes())),
        Err(unmet(Check::OwnerKey))
    );
}

// All requests.

#[test]
fn requests_keep_terms_and_books() {
    let mut owing = margin();
    owing.borrows = [num(50), num(0), num(7)];
    let mut requests = Vec::new();
    requests.push((
        withdraw_accounts(group(), owing, 0),
        MangoInstruction::Withdraw { token_index: 0, quantity: 60 },
    ));
    requests.push((
        borrow_accounts(group(), owing),
        MangoInstruction::Borrow { token_index: 1, quantity: 33 },
    ));
    requests.push((
        borrow_accounts(group(), owing),
        MangoInstruction::SettleBorrow { token_index: 0, quantity: 45 },
    ));
    let mut accounts = order_accounts(22);
    accounts[2] = margin_acc(owing);
    requests.push((
        accounts,
        MangoInstruction::PlaceOrder { market_i: 0, order: order(Side::Bid, 20, 4) },
    ));
    for (accounts, instruction) in requests {
        let update = match process(&accounts, instruction).unwrap() {
            Progress::Done(update) => update,
            _ => panic!("the request is done"),
        };
        let (g, m) = (update.mango_group.unwrap(), update.margin_account.unwrap());
        assert_ne!((g, m), (group(), owing));
        let terms = MangoGroup {
            indexes: g.indexes,
            total_deposits: g.total_deposits,
            total_borrows: g.total_borrows,
            ..group()
        };
        assert_eq!(g, terms);
        let identity = MarginAccount {
            deposits: m.deposits,
            borrows: m.borrows,
            positions: m.positions,
            ..owing
        };
        assert_eq!(m, identity);
        for t in 0..NUM_TOKENS {
            let deposits = group().total_deposits[t].bits - owing.deposits[t].bits;
            let borrows = group().total_borrows[t].bits - owing.borrows[t].bits;
            assert_eq!(g.total_deposits[t].bits - m.deposits[t].bits, deposits);
            assert_eq!(g.total_borrows[t].bits - m.borrows[t].bits, borrows);
        }
    }
}

// Dispatch.

#[test]
fn unreadable_instruction_is_refused() {
    let result = Processor::process(&program(), &[], None, Ok(indexes()));
    assert_eq!(result, Err(code(INVALID_INSTRUCTION_DATA)));
}

#[test]
fn instructions_reach_their_handlers() {
    let accounts = withdraw_accounts(group(), margin(), 0);
    let withdrawn = withdraw(&accounts, 0, 60).unwrap();
    let instruction = MangoInstruction::Withdraw { token_index: 0, quantity: 60 };
    assert_eq!(process(&accounts, instruction), Ok(Progress::Done(withdrawn)));

    let accounts = borrow_accounts(group(), margin());
    let borrowed = Processor::borrow(&program(), &accounts, 1, 3, Ok(indexes())).unwrap();
    let instruction = MangoInstruction::Borrow { token_index: 1, quantity: 3 };
    assert_eq!(process(&accounts, instruction), Ok(Progress::Done(borrowed)));

    let mut owing = margin();
    owing.borrows[0] = num(50);
    let accounts = borrow_accounts(group(), owing);
    let settled = Processor::settle_borrow(&program(), &accounts, 0, 3, Ok(indexes())).unwrap();
    let instruction = MangoInstruction::SettleBorrow { token_index: 0, quantity: 3 };
    assert_eq!(process(&accounts, instruction), Ok(Progress::Done(settled)));

    let accounts = deposit_accounts();
    let (invocation, pending) =
        Processor::deposit(&program(), &accounts, 7, Ok(indexes())).unwrap();
    assert_eq!(
        process(&accounts, MangoInstruction::Deposit { quantity: 7 }),
        Ok(Progress::Deposit(invocation, pending))
    );

    let accounts = liquidate_accounts(short());
    let quantities = [0, 0, 16];
    let state = Processor::liquidate(&program(), &accounts, quantities, Ok(indexes())).unwrap();
    let instruction = MangoInstruction::Liquidate { deposit_quantities: quantities };
    assert_eq!(process(&accounts, instruction), Ok(Progress::Liquidate(state)));

    let accounts = settle_accounts(1, 1);
    let state = Processor::settle_funds(&program(), &accounts, Ok(indexes())).unwrap();
    assert_eq!(
        process(&accounts, MangoInstruction::SettleFunds),
        Ok(Progress::SettleFunds(state))
    );

    let accounts = order_accounts(22);
    let bid = order(Side::Bid, 20, 4);
    let placed = place(&accounts, 0, bid).unwrap();
    let instruction = MangoInstruction::PlaceOrder { market_i: 0, order: bid };
    assert_eq!(process(&accounts, instruction), Ok(Progress::Done(placed)));

    let accounts = init_margin_accounts();
    let made = Processor::init_margin_account(&program(), &accounts).unwrap();
    assert_eq!(
        process(&accounts, MangoInstruction::InitMarginAccount),
        Ok(Progress::Done(made))
    );

    let (accounts, nonce) = init_group_accounts();
    let made = init_group(&accounts, nonce).unwrap();
    let instruction = MangoInstruction::InitMangoGroup {
        signer_nonce: nonce,
        maint_coll_ratio: num(1),
        init_coll_ratio: num(2),
    };
    assert_eq!(process(&accounts, instruction), Ok(Progress::Done(made)));
}

#[test]
fn clock_and_margin_account_are_where_the_handlers_read_them() {
    let deposit = MangoInstruction::Deposit { quantity: 1 };
    let place = MangoInstruction::PlaceOrder { market_i: 0, order: order(Side::Bid, 1, 1) };
    let liquidate = MangoInstruction::Liquidate { deposit_quantities: [0; NUM_TOKENS] };
    let position = |i: MangoInstruction| i.clock_position();
    assert_eq!(position(deposit), Some(7));
    assert_eq!(position(place), Some(3));
    assert_eq!(position(liquidate), Some(4));
    assert_eq!(position(MangoInstruction::SettleFunds), Some(3));
    assert_eq!(position(MangoInstruction::InitMarginAccount), None);
    let margin = |i: MangoInstruction| i.margin_position();
    assert_eq!(margin(deposit), Some(1));
    assert_eq!(margin(place), Some(2));
    assert_eq!(margin(liquidate), Some(2));
    assert_eq!(margin(MangoInstruction::InitMarginAccount), Some(1));
    assert_eq!(deposit_accounts()[7].key, clock().key);
    assert_eq!(order_accounts(22)[3].key, clock().key);
    assert_eq!(liquidate_accounts(short())[4].key, clock().key);
}
