//! How a request fails.

use vstd::prelude::*;

verus! {

/// Names the condition that a refused request does not meet.
#[derive(Clone, Copy, PartialEq, Eq, Debug)]
pub enum Check {
    /// The group account belongs to this program.
    GroupOwner,
    /// The group account is an initialized group.
    GroupFlags,
    /// The group account has not been set up before.
    GroupUnused,
    /// The group account holds enough lamports to be exempt from rent.
    GroupRent,
    /// The signer account is the address derived from the group and the nonce.
    SignerKey,
    /// The vault is an initialized token account.
    VaultInitialized,
    /// The signer of the group owns the vault.
    VaultOwner,
    /// The vault holds the token of its mint.
    VaultMint,
    /// The vault belongs to the token program.
    VaultProgram,
    /// The vault is the one that the group records for the token.
    VaultKey,
    /// The market belongs to the exchange of the group.
    MarketProgram,
    /// The base token of the market is the token at its index.
    MarketBaseMint,
    /// The quote token of the market is the quote token of the group.
    MarketQuoteMint,
    /// The margin account belongs to this program.
    MarginOwner,
    /// The margin account is an initialized margin account.
    MarginFlags,
    /// The margin account has not been set up before.
    MarginUnused,
    /// The margin account holds enough lamports to be exempt from rent.
    MarginRent,
    /// The margin account belongs to the group.
    MarginGroup,
    /// The owner of the margin account signed.
    OwnerSigned,
    /// The account that signed owns the margin account.
    OwnerKey,
    /// The open orders account is the one that the margin account records.
    OpenOrdersKey,
    /// The open orders account is an initialized open orders account.
    OpenOrdersFlags,
    /// The open orders account has not been set up before.
    OpenOrdersUnused,
    /// The open orders account holds enough lamports to be exempt from rent.
    OpenOrdersRent,
    /// The open orders account belongs to the exchange of the group.
    OpenOrdersProgram,
    /// The open orders are owned by the expected key.
    OpenOrdersOwner,
    /// The mint account is that of the quote token.
    QuoteMint,
    /// The mint account is that of the base token.
    BaseMint,
    /// The account has the funds to withdraw.
    Available,
    /// The collateral ratio reaches the initial collateral ratio.
    CollateralRatio,
    /// The deposits of a token in the group cover its borrows.
    DepositsCoverBorrows,
    /// The liquidator signed.
    LiqorSigned,
    /// The account to liquidate has liabilities.
    HasLiabilities,
    /// The account to liquidate is below the maintenance collateral ratio.
    BelowMaintenance,
    /// The offered deposits restore the initial collateral ratio.
    RestoresCollateral,
    /// Settling did not increase the free base funds of the open orders.
    BaseNotIncreased,
    /// Settling did not increase the free quote funds of the open orders.
    QuoteNotIncreased,
    /// The increased position is representable.
    PositionSum,
    /// The increased borrow of the margin account is representable.
    BorrowSum,
    /// The increased deposit of the margin account is representable.
    DepositSum,
    /// The increased borrow of the group is representable.
    TotalBorrowSum,
    /// The increased deposit of the group is representable.
    TotalDepositSum,
}

/// The error that a request is answered with.
#[derive(Clone, Copy, PartialEq, Eq, Debug)]
pub enum MangoError {
    /// A condition on the accounts or amounts does not hold.
    AssertionError(Check),
    /// An error of the runtime or of another program, by its numeric code.
    ProgramError(u64),
}

pub type MangoResult<T> = Result<T, MangoError>;

/// Code of the error that an argument is invalid.
pub const INVALID_ARGUMENT: u64 = 0x2_0000_0000;

/// Code of the error that instruction data cannot be read.
pub const INVALID_INSTRUCTION_DATA: u64 = 0x3_0000_0000;

/// Code of the error that account data cannot be read.
pub const INVALID_ACCOUNT_DATA: u64 = 0x4_0000_0000;

/// Code of the error that an instruction is for another program.
pub const INCORRECT_PROGRAM_ID: u64 = 0x7_0000_0000;

/// Code of the error that an account is not initialized.
pub const UNINITIALIZED_ACCOUNT: u64 = 0xa_0000_0000;

/// Why a request has no effect.
#[derive(Clone, Copy, PartialEq, Eq, Debug)]
pub enum Failure {
    /// The request is answered with an error.
    Refused(MangoError),
    /// The request stops the program without an answer: an amount leaves the
    /// range of its type, a divisor is zero, an index is out of range, or a key
    /// that is taken for granted is not there. The caller panics.
    Aborted,
}

/// The failure of a request that does not meet a condition.
pub open spec fn unmet(check: Check) -> Failure {
    Failure::Refused(MangoError::AssertionError(check))
}

/// The outcome of a condition.
pub open spec fn checked(cond: bool, check: Check) -> Result<(), Failure> {
    if cond {
        Ok(())
    } else {
        Err(unmet(check))
    }
}

/// Refuses the request unless the condition holds.
pub fn check_assert(cond: bool, check: Check) -> (r: Result<(), Failure>)
    ensures
        r == checked(cond, check),
{
    if cond {
        Ok(())
    } else {
        Err(Failure::Refused(MangoError::AssertionError(check)))
    }
}

/// An error answer as a failure.
pub open spec fn refused<T>(r: MangoResult<T>) -> Result<T, Failure> {
    match r {
        Ok(t) => Ok(t),
        Err(e) => Err(Failure::Refused(e)),
    }
}

/// Passes an error answer on.
pub(crate) fn or_refuse<T>(r: MangoResult<T>) -> (out: Result<T, Failure>)
    ensures
        out == refused(r),
{
    match r {
        Ok(t) => Ok(t),
        Err(e) => Err(Failure::Refused(e)),
    }
}

/// A missing value as a failure.
pub open spec fn present<T>(o: Option<T>) -> Result<T, Failure> {
    match o {
        Some(t) => Ok(t),
        None => Err(Failure::Aborted),
    }
}

/// Stops the request where a value is missing.
pub(crate) fn or_abort<T>(o: Option<T>) -> (out: Result<T, Failure>)
    ensures
        out == present(o),
{
    match o {
        Some(t) => Ok(t),
        None => Err(Failure::Aborted),
    }
}

/// An error code as an answer.
pub open spec fn answered<T>(r: Result<T, u64>) -> Result<T, Failure> {
    match r {
        Ok(t) => Ok(t),
        Err(code) => Err(Failure::Refused(MangoError::ProgramError(code))),
    }
}

/// Answers with an error code.
pub(crate) fn or_answer<T>(r: Result<T, u64>) -> (out: Result<T, Failure>)
    ensures
        out == answered(r),
{
    match r {
        Ok(t) => Ok(t),
        Err(code) => Err(Failure::Refused(MangoError::ProgramError(code))),
    }
}

} // verus!
