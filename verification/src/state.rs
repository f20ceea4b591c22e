//! The accounts of a margin group and what is computed from them.

use vstd::array::spec_array_update;
use vstd::prelude::*;

use crate::error::{check_assert, or_abort, or_refuse, present, refused, unmet};
use crate::error::{Check, Failure, MangoError, MangoResult};
use crate::fixed_point::{floor, product, quotient, sum, whole, U64F64};

verus! {

/// Number of spot markets of a group. Market `i` trades token `i` against the
/// quote token.
pub const NUM_MARKETS: usize = 2;

/// Number of tokens of a group: one for each market, and last, at index
/// `NUM_MARKETS`, the quote token.
pub const NUM_TOKENS: usize = 3;

/// Flag of an account that has been set up.
pub const INITIALIZED: u64 = 1;

/// Flag of a group account.
pub const MANGO_GROUP: u64 = 2;

/// Flag of a margin account.
pub const MARGIN_ACCOUNT: u64 = 4;

/// Flags of a group that has been set up.
pub const GROUP_FLAGS: u64 = INITIALIZED + MANGO_GROUP;

/// Flags of a margin account that has been set up.
pub const MARGIN_FLAGS: u64 = INITIALIZED + MARGIN_ACCOUNT;

/// Flags that the exchange gives to an open orders account in use.
pub const OPEN_ORDERS_FLAGS: u64 = 5;

/// Number of bytes in which the exchange keeps open orders.
pub const OPEN_ORDERS_SIZE: usize = 3216;

/// The address of an account.
#[derive(Clone, Copy, Debug, Eq)]
pub struct Pubkey(pub [u8; 32]);

impl PartialEq for Pubkey {
    fn eq(&self, other: &Pubkey) -> (r: bool) {
        let mut i: usize = 0;
        while i < 32
            invariant
                i <= 32,
                forall|j: int| 0 <= j < i ==> self.0[j] == other.0[j],
            decreases 32 - i,
        {
            if self.0[i] != other.0[i] {
                return false;
            }
            i += 1;
        }
        assert(self.0 =~= other.0);
        true
    }
}

impl vstd::std_specs::cmp::PartialEqSpecImpl for Pubkey {
    open spec fn obeys_eq_spec() -> bool {
        true
    }

    open spec fn eq_spec(&self, other: &Pubkey) -> bool {
        *self == *other
    }
}

/// Growth of one unit of a token since the group was set up.
#[derive(Clone, Copy, PartialEq, Eq, Debug)]
pub struct MangoIndex {
    pub last_update: u64,
    pub borrow: U64F64,
    pub deposit: U64F64,
}

/// A lending group. Deposits and borrows are kept in units that the indexes
/// convert to native amounts.
#[derive(Clone, Copy, PartialEq, Eq, Debug)]
pub struct MangoGroup {
    pub account_flags: u64,
    pub tokens: [Pubkey; NUM_TOKENS],
    pub vaults: [Pubkey; NUM_TOKENS],
    pub indexes: [MangoIndex; NUM_TOKENS],
    pub spot_markets: [Pubkey; NUM_MARKETS],
    pub oracles: [Pubkey; NUM_MARKETS],
    pub signer_nonce: u64,
    pub signer_key: Pubkey,
    pub dex_program_id: Pubkey,
    pub total_deposits: [U64F64; NUM_TOKENS],
    pub total_borrows: [U64F64; NUM_TOKENS],
    pub maint_coll_ratio: U64F64,
    pub init_coll_ratio: U64F64,
}

/// The margin account of one owner. Positions are native amounts.
#[derive(Clone, Copy, PartialEq, Eq, Debug)]
pub struct MarginAccount {
    pub account_flags: u64,
    pub mango_group: Pubkey,
    pub owner: Pubkey,
    pub deposits: [U64F64; NUM_TOKENS],
    pub borrows: [U64F64; NUM_TOKENS],
    pub positions: [u64; NUM_TOKENS],
    pub open_orders: [Pubkey; NUM_MARKETS],
}

/// What the exchange records of the orders of one owner on one market: flags,
/// owner, and the native amounts of base (`coin`) and quote (`pc`) token, in all
/// and free to settle.
#[derive(Clone, Copy, PartialEq, Eq, Debug)]
pub struct OpenOrders {
    pub account_flags: u64,
    pub owner: Pubkey,
    pub native_coin_free: u64,
    pub native_coin_total: u64,
    pub native_pc_free: u64,
    pub native_pc_total: u64,
}

/// What the exchange records of a market: its base and quote token, and the
/// native amounts in one lot of each.
#[derive(Clone, Copy, PartialEq, Eq, Debug)]
pub struct MarketState {
    pub coin_mint: Pubkey,
    pub pc_mint: Pubkey,
    pub coin_lot_size: u64,
    pub pc_lot_size: u64,
}

/// An account as a request hands it in: its address, the program that owns it,
/// its balance, whether it signed, its data, and what reading the data as each
/// kind of record gives.
#[derive(Debug)]
pub struct AccountInfo {
    pub key: Pubkey,
    pub owner: Pubkey,
    pub lamports: u64,
    pub is_signer: bool,
    /// Number of bytes of data. Where the data reads as a group or as a margin
    /// account, this is the size of that record.
    pub data_len: usize,
    pub data: MangoResult<Vec<u8>>,
    pub mango_group: MangoResult<MangoGroup>,
    pub margin_account: MangoResult<MarginAccount>,
    pub open_orders: MangoResult<OpenOrders>,
    pub market: MangoResult<MarketState>,
    /// The median of the submissions to an oracle.
    pub median: MangoResult<u64>,
}

/// What taking the market out of its account gives: the account belongs to the
/// exchange and can be read.
pub open spec fn market_loaded(acc: AccountInfo, dex_program_id: Pubkey) -> Result<
    MarketState,
    Failure,
> {
    if acc.owner != dex_program_id {
        Err(unmet(Check::MarketProgram))
    } else {
        refused(acc.market)
    }
}

/// Takes the market out of its account.
pub fn load_market_state(acc: &AccountInfo, dex_program_id: &Pubkey) -> (r: Result<
    MarketState,
    Failure,
>)
    ensures
        r == market_loaded(*acc, *dex_program_id),
{
    check_assert(acc.owner == *dex_program_id, Check::MarketProgram)?;
    or_refuse(acc.market)
}

/// The native amount of an indexed amount, rounded down.
pub open spec fn native(amount: U64F64, index: U64F64) -> Result<u64, Failure> {
    match product(amount, index) {
        Some(p) => Ok(floor(p)),
        None => Err(Failure::Aborted),
    }
}

/// The native amount of an indexed amount, rounded down.
pub fn to_native(amount: U64F64, index: U64F64) -> (r: Result<u64, Failure>)
    ensures
        r == native(amount, index),
{
    let p = or_abort(amount.checked_mul(index))?;
    Ok(p.to_num())
}

/// The indexed amount of a native amount, rounded down.
pub open spec fn indexed(quantity: u64, index: U64F64) -> Result<U64F64, Failure> {
    present(quotient(whole(quantity), index))
}

/// The indexed amount of a native amount, rounded down.
pub fn to_indexed(quantity: u64, index: U64F64) -> (r: Result<U64F64, Failure>)
    ensures
        r == indexed(quantity, index),
{
    or_abort(U64F64::from_num(quantity).checked_div(index))
}

/// The first place of a key at or after `from`.
pub open spec fn position(keys: Seq<Pubkey>, key: Pubkey, from: int) -> Option<usize>
    decreases keys.len() - from,
{
    if from < 0 || from >= keys.len() {
        None
    } else if keys[from] == key {
        Some(from as usize)
    } else {
        position(keys, key, from + 1)
    }
}

/// Finds the first place of a key.
fn find_key<const N: usize>(keys: &[Pubkey; N], key: &Pubkey) -> (r: Option<usize>)
    ensures
        r == position(keys@, *key, 0),
        r matches Some(i) ==> i < N,
{
    let mut i: usize = 0;
    while i < N
        invariant
            i <= N,
            position(keys@, *key, 0) == position(keys@, *key, i as int),
        decreases N - i,
    {
        if keys[i] == *key {
            return Some(i);
        }
        i += 1;
    }
    None
}

impl MangoGroup {
    /// What taking the group out of its account gives: the account can be read,
    /// is a group that has been set up, and belongs to the program.
    pub open spec fn loaded(acc: AccountInfo, program_id: Pubkey) -> Result<
        MangoGroup,
        Failure,
    > {
        match refused(acc.mango_group) {
            Err(e) => Err(e),
            Ok(group) => if group.account_flags != GROUP_FLAGS {
                Err(unmet(Check::GroupFlags))
            } else if acc.owner != program_id {
                Err(unmet(Check::GroupOwner))
            } else {
                Ok(group)
            },
        }
    }

    /// Takes the group out of its account.
    pub fn load_checked(acc: &AccountInfo, program_id: &Pubkey) -> (r: Result<
        MangoGroup,
        Failure,
    >)
        ensures
            r == MangoGroup::loaded(*acc, *program_id),
    {
        let group = or_refuse(acc.mango_group)?;
        check_assert(group.account_flags == GROUP_FLAGS, Check::GroupFlags)?;
        check_assert(acc.owner == *program_id, Check::GroupOwner)?;
        Ok(group)
    }

    /// The index of the token with this mint.
    pub fn get_token_index(&self, mint_pk: &Pubkey) -> (r: Option<usize>)
        ensures
            r == position(self.tokens@, *mint_pk, 0),
            r matches Some(i) ==> i < NUM_TOKENS,
    {
        find_key(&self.tokens, mint_pk)
    }

    /// The index of a market.
    pub fn get_market_index(&self, spot_market_pk: &Pubkey) -> (r: Option<usize>)
        ensures
            r == position(self.spot_markets@, *spot_market_pk, 0),
            r matches Some(i) ==> i < NUM_MARKETS,
    {
        find_key(&self.spot_markets, spot_market_pk)
    }

    /// The native amount of a token that is deposited in the group.
    pub open spec fn native_deposit(self, token: int) -> Result<u64, Failure> {
        native(self.total_deposits[token], self.indexes[token].deposit)
    }

    /// The native amount of a token that is borrowed from the group.
    pub open spec fn native_borrow(self, token: int) -> Result<u64, Failure> {
        native(self.total_borrows[token], self.indexes[token].borrow)
    }

    pub fn get_total_native_deposit(&self, token_index: usize) -> (r: Result<u64, Failure>)
        requires
            token_index < NUM_TOKENS,
        ensures
            r == self.native_deposit(token_index as int),
    {
        to_native(self.total_deposits[token_index], self.indexes[token_index].deposit)
    }

    pub fn get_total_native_borrow(&self, token_index: usize) -> (r: Result<u64, Failure>)
        requires
            token_index < NUM_TOKENS,
        ensures
            r == self.native_borrow(token_index as int),
    {
        to_native(self.total_borrows[token_index], self.indexes[token_index].borrow)
    }

    /// Whether the group holds at least as much of a token in deposits as it has
    /// lent, in native amounts.
    pub open spec fn deposits_cover_borrows(self, token: int) -> Result<bool, Failure> {
        match (self.native_deposit(token), self.native_borrow(token)) {
            (Ok(deposit), Ok(borrow)) => Ok(deposit >= borrow),
            _ => Err(Failure::Aborted),
        }
    }

    pub fn has_valid_deposits_borrows(&self, token_index: usize) -> (r: Result<bool, Failure>)
        requires
            token_index < NUM_TOKENS,
        ensures
            r == self.deposits_cover_borrows(token_index as int),
    {
        let deposit = self.get_total_native_deposit(token_index)?;
        let borrow = self.get_total_native_borrow(token_index)?;
        Ok(deposit >= borrow)
    }

    pub open spec fn with_total_deposit(self, token: int, amount: U64F64) -> MangoGroup {
        MangoGroup {
            total_deposits: spec_array_update(self.total_deposits, token, amount),
            ..self
        }
    }

    pub open spec fn with_total_borrow(self, token: int, amount: U64F64) -> MangoGroup {
        MangoGroup { total_borrows: spec_array_update(self.total_borrows, token, amount), ..self }
    }

    /// The group with more of a token deposited.
    pub open spec fn deposit_added(self, token: int, amount: U64F64) -> Result<
        MangoGroup,
        Failure,
    > {
        match sum(self.total_deposits[token], amount) {
            Some(total) => Ok(self.with_total_deposit(token, total)),
            None => Err(unmet(Check::TotalDepositSum)),
        }
    }

    /// The group with more of a token borrowed.
    pub open spec fn borrow_added(self, token: int, amount: U64F64) -> Result<
        MangoGroup,
        Failure,
    > {
        match sum(self.total_borrows[token], amount) {
            Some(total) => Ok(self.with_total_borrow(token, total)),
            None => Err(unmet(Check::TotalBorrowSum)),
        }
    }

    pub fn checked_add_deposit(self, token_index: usize, v: U64F64) -> (r: Result<
        MangoGroup,
        Failure,
    >)
        requires
            token_index < NUM_TOKENS,
        ensures
            r == self.deposit_added(token_index as int, v),
    {
        let mut group = self;
        match group.total_deposits[token_index].checked_add(v) {
            Some(total) => {
                group.total_deposits[token_index] = total;
                Ok(group)
            },
            None => Err(Failure::Refused(MangoError::AssertionError(Check::TotalDepositSum))),
        }
    }

    pub fn checked_add_borrow(self, token_index: usize, v: U64F64) -> (r: Result<
        MangoGroup,
        Failure,
    >)
        requires
            token_index < NUM_TOKENS,
        ensures
            r == self.borrow_added(token_index as int, v),
    {
        let mut group = self;
        match group.total_borrows[token_index].checked_add(v) {
            Some(total) => {
                group.total_borrows[token_index] = total;
                Ok(group)
            },
            None => Err(Failure::Refused(MangoError::AssertionError(Check::TotalBorrowSum))),
        }
    }
}

impl MarginAccount {
    /// What taking the margin account out of its account gives: the account can
    /// be read, is a margin account that has been set up, and names the group.
    pub open spec fn loaded(acc: AccountInfo, group_key: Pubkey) -> Result<
        MarginAccount,
        Failure,
    > {
        match refused(acc.margin_account) {
            Err(e) => Err(e),
            Ok(margin) => if margin.account_flags != MARGIN_FLAGS {
                Err(unmet(Check::MarginFlags))
            } else if margin.mango_group != group_key {
                Err(unmet(Check::MarginGroup))
            } else {
                Ok(margin)
            },
        }
    }

    /// Takes the margin account out of its account.
    pub fn load_checked(acc: &AccountInfo, group_key: &Pubkey) -> (r: Result<
        MarginAccount,
        Failure,
    >)
        ensures
            r == MarginAccount::loaded(*acc, *group_key),
    {
        let margin = or_refuse(acc.margin_account)?;
        check_assert(margin.account_flags == MARGIN_FLAGS, Check::MarginFlags)?;
        check_assert(margin.mango_group == *group_key, Check::MarginGroup)?;
        Ok(margin)
    }

    /// The native amount of a token that is deposited in the account.
    pub open spec fn native_deposit(self, index: MangoIndex, token: int) -> Result<u64, Failure> {
        native(self.deposits[token], index.deposit)
    }

    /// The native amount of a token that the account has borrowed.
    pub open spec fn native_borrow(self, index: MangoIndex, token: int) -> Result<u64, Failure> {
        native(self.borrows[token], index.borrow)
    }

    pub fn get_native_deposit(&self, index: &MangoIndex, token_index: usize) -> (r: Result<
        u64,
        Failure,
    >)
        requires
            token_index < NUM_TOKENS,
        ensures
            r == self.native_deposit(*index, token_index as int),
    {
        to_native(self.deposits[token_index], index.deposit)
    }

    pub fn get_native_borrow(&self, index: &MangoIndex, token_index: usize) -> (r: Result<
        u64,
        Failure,
    >)
        requires
            token_index < NUM_TOKENS,
        ensures
            r == self.native_borrow(*index, token_index as int),
    {
        to_native(self.borrows[token_index], index.borrow)
    }

    pub open spec fn with_deposit(self, token: int, amount: U64F64) -> MarginAccount {
        MarginAccount { deposits: spec_array_update(self.deposits, token, amount), ..self }
    }

    pub open spec fn with_borrow(self, token: int, amount: U64F64) -> MarginAccount {
        MarginAccount { borrows: spec_array_update(self.borrows, token, amount), ..self }
    }

    pub open spec fn with_position(self, token: int, quantity: u64) -> MarginAccount {
        MarginAccount { positions: spec_array_update(self.positions, token, quantity), ..self }
    }

    /// The account with more of a token deposited.
    pub open spec fn deposit_added(self, token: int, amount: U64F64) -> Result<
        MarginAccount,
        Failure,
    > {
        match sum(self.deposits[token], amount) {
            Some(total) => Ok(self.with_deposit(token, total)),
            None => Err(unmet(Check::DepositSum)),
        }
    }

    /// The account with more of a token borrowed.
    pub open spec fn borrow_added(self, token: int, amount: U64F64) -> Result<
        MarginAccount,
        Failure,
    > {
        match sum(self.borrows[token], amount) {
            Some(total) => Ok(self.with_borrow(token, total)),
            None => Err(unmet(Check::BorrowSum)),
        }
    }

    /// The account with a larger position in a token.
    pub open spec fn position_added(self, token: int, quantity: u64) -> Result<
        MarginAccount,
        Failure,
    > {
        if self.positions[token] + quantity <= u64::MAX {
            Ok(self.with_position(token, (self.positions[token] + quantity) as u64))
        } else {
            Err(unmet(Check::PositionSum))
        }
    }

    pub fn checked_add_deposit(self, token_index: usize, v: U64F64) -> (r: Result<
        MarginAccount,
        Failure,
    >)
        requires
            token_index < NUM_TOKENS,
        ensures
            r == self.deposit_added(token_index as int, v),
    {
        let mut margin = self;
        match margin.deposits[token_index].checked_add(v) {
            Some(total) => {
                margin.deposits[token_index] = total;
                Ok(margin)
            },
            None => Err(Failure::Refused(MangoError::AssertionError(Check::DepositSum))),
        }
    }

    pub fn checked_add_borrow(self, token_index: usize, v: U64F64) -> (r: Result<
        MarginAccount,
        Failure,
    >)
        requires
            token_index < NUM_TOKENS,
        ensures
            r == self.borrow_added(token_index as int, v),
    {
        let mut margin = self;
        match margin.borrows[token_index].checked_add(v) {
            Some(total) => {
                margin.borrows[token_index] = total;
                Ok(margin)
            },
            None => Err(Failure::Refused(MangoError::AssertionError(Check::BorrowSum))),
        }
    }

    pub fn checked_add_position(self, token_index: usize, v: u64) -> (r: Result<
        MarginAccount,
        Failure,
    >)
        requires
            token_index < NUM_TOKENS,
        ensures
            r == self.position_added(token_index as int, v),
    {
        let mut margin = self;
        match margin.positions[token_index].checked_add(v) {
            Some(total) => {
                margin.positions[token_index] = total;
                Ok(margin)
            },
            None => Err(Failure::Refused(MangoError::AssertionError(Check::PositionSum))),
        }
    }
}

} // verus!
