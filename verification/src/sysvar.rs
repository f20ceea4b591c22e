//! The clock and the rent of the network.

use solana_program::account_info;
use solana_program::sysvar::Sysvar;
use vstd::prelude::*;

use crate::bytes::le_value;
use crate::error::{answered, or_abort, or_answer};
use crate::error::{Failure, MangoError, INVALID_ARGUMENT};
use crate::state::{AccountInfo, Pubkey};

verus! {

/// The bytes of the address of the clock.
pub const CLOCK_ID: [u8; 32] = [
    6, 167, 213, 23, 24, 199, 116, 201, 40, 86, 99, 152, 105, 29, 94, 182, 139, 94, 184, 163, 155,
    75, 109, 92, 115, 85, 91, 33, 0, 0, 0, 0,
];

/// The bytes of the address of the rent.
pub const RENT_ID: [u8; 32] = [
    6, 167, 213, 23, 25, 44, 92, 81, 33, 140, 201, 76, 61, 74, 241, 127, 88, 218, 238, 8, 155, 161,
    253, 68, 227, 219, 217, 138, 0, 0, 0, 0,
];

/// The address of the clock.
pub open spec fn clock_key() -> Pubkey {
    Pubkey(CLOCK_ID)
}

/// The address of the rent.
pub open spec fn rent_key() -> Pubkey {
    Pubkey(RENT_ID)
}

/// The time in the data of the clock: the last eight of its first 40 bytes.
pub open spec fn clock_time(key: Pubkey, data: Seq<u8>) -> Result<u64, u64> {
    if key != clock_key() || data.len() < 40 {
        Err(INVALID_ARGUMENT)
    } else {
        Ok(le_value(data.subrange(32, 40)) as u64)
    }
}

/// `solana_program::clock::Clock::from_account_info`: the `unix_timestamp` of the
/// clock, as an unsigned number of the same bits, or the code of the error that
/// the account is not the clock or its data is too short.
#[verifier::external_body]
fn clock_from_account(key: &Pubkey, data: &Vec<u8>) -> (r: Result<u64, u64>)
    ensures
        r == clock_time(*key, data@),
{
    let key = solana_program::pubkey::Pubkey::new_from_array(key.0);
    let (mut lamports, mut data) = (0, data.clone());
    let acc = account_info::AccountInfo::new(
        &key, false, false, &mut lamports, &mut data, &key, false, 0);
    solana_program::clock::Clock::from_account_info(&acc)
        .map(|clock| clock.unix_timestamp as u64)
        .map_err(|e| u64::from(e))
}

/// The rate in the data of the rent: its first eight bytes. The data has 17 bytes
/// or more.
pub open spec fn rent_rate(key: Pubkey, data: Seq<u8>) -> Result<u64, u64> {
    if key != rent_key() || data.len() < 17 {
        Err(INVALID_ARGUMENT)
    } else {
        Ok(le_value(data.subrange(0, 8)) as u64)
    }
}

/// `solana_program::rent::Rent::from_account_info`: the `lamports_per_byte_year`
/// of the rent, or the code of the error that the account is not the rent or its
/// data is too short.
#[verifier::external_body]
fn rent_from_account(key: &Pubkey, data: &Vec<u8>) -> (r: Result<u64, u64>)
    ensures
        r == rent_rate(*key, data@),
{
    let key = solana_program::pubkey::Pubkey::new_from_array(key.0);
    let (mut lamports, mut data) = (0, data.clone());
    let acc = account_info::AccountInfo::new(
        &key, false, false, &mut lamports, &mut data, &key, false, 0);
    solana_program::rent::Rent::from_account_info(&acc)
        .map(|rent| rent.lamports_per_byte_year)
        .map_err(|e| u64::from(e))
}

/// The balance that exempts an account with so many bytes of data from the rent
/// with this data.
pub uninterp spec fn rent_minimum(rent: Seq<u8>, data_len: usize) -> u64;

/// Whether the rate times the bytes of an account fits 64 bits. 128 bytes are
/// added for the account itself.
pub open spec fn rent_in_range(rate: u64, data_len: usize) -> bool {
    128 + data_len <= u64::MAX && rate * (128 + data_len) <= u64::MAX
}

/// `solana_program::rent::Rent::is_exempt` on the rent that
/// `Rent::from_account_info` reads from the data: whether the balance is at least
/// `Rent::minimum_balance`. That is the rate times the bytes times the threshold
/// in years; the threshold is a binary fraction, and nothing is said here of the
/// product but that the same data and bytes give the same one.
#[verifier::external_body]
fn rent_is_exempt(rent: &Vec<u8>, balance: u64, data_len: usize) -> (r: bool)
    requires
        rent@.len() >= 17,
        rent_in_range(rent_rate(rent_key(), rent@)->Ok_0, data_len),
    ensures
        r == (balance >= rent_minimum(rent@, data_len)),
{
    let key = solana_program::sysvar::rent::id();
    let (mut lamports, mut data) = (0, rent.clone());
    let acc = account_info::AccountInfo::new(
        &key, false, false, &mut lamports, &mut data, &key, false, 0);
    solana_program::rent::Rent::from_account_info(&acc).unwrap().is_exempt(balance, data_len)
}

/// What reading the clock gives. An account that is not the clock is refused; the
/// data of the clock has to be free to read.
pub open spec fn clock_read(acc: AccountInfo) -> Result<u64, Failure> {
    if acc.key != clock_key() {
        Err(Failure::Refused(MangoError::ProgramError(INVALID_ARGUMENT)))
    } else {
        match acc.data {
            Err(_) => Err(Failure::Aborted),
            Ok(data) => answered(clock_time(acc.key, data@)),
        }
    }
}

/// Reads the clock.
pub fn read_clock(acc: &AccountInfo) -> (r: Result<u64, Failure>)
    ensures
        r == clock_read(*acc),
{
    if acc.key != Pubkey(CLOCK_ID) {
        return Err(Failure::Refused(MangoError::ProgramError(INVALID_ARGUMENT)));
    }
    match &acc.data {
        Err(_) => Err(Failure::Aborted),
        Ok(data) => or_answer(clock_from_account(&acc.key, data)),
    }
}

/// What reading the rate of the rent gives. An account that is not the rent is
/// refused; the data of the rent has to be free to read.
pub open spec fn rent_read(acc: AccountInfo) -> Result<u64, Failure> {
    if acc.key != rent_key() {
        Err(Failure::Refused(MangoError::ProgramError(INVALID_ARGUMENT)))
    } else {
        match acc.data {
            Err(_) => Err(Failure::Aborted),
            Ok(data) => answered(rent_rate(acc.key, data@)),
        }
    }
}

/// Reads the rate of the rent.
pub fn read_rent(acc: &AccountInfo) -> (r: Result<u64, Failure>)
    ensures
        r == rent_read(*acc),
{
    if acc.key != Pubkey(RENT_ID) {
        return Err(Failure::Refused(MangoError::ProgramError(INVALID_ARGUMENT)));
    }
    match &acc.data {
        Err(_) => Err(Failure::Aborted),
        Ok(data) => or_answer(rent_from_account(&acc.key, data)),
    }
}

/// Whether a balance exempts an account with so many bytes of data from rent.
pub open spec fn exempt(rent_acc: AccountInfo, balance: u64, data_len: usize) -> Result<
    bool,
    Failure,
> {
    match rent_read(rent_acc) {
        Err(e) => Err(e),
        Ok(rate) => if !rent_in_range(rate, data_len) {
            Err(Failure::Aborted)
        } else {
            Ok(balance >= rent_minimum(rent_acc.data->Ok_0@, data_len))
        },
    }
}

/// Tells whether a balance exempts an account from rent.
pub fn is_exempt(rent_acc: &AccountInfo, balance: u64, data_len: usize) -> (r: Result<
    bool,
    Failure,
>)
    ensures
        r == exempt(*rent_acc, balance, data_len),
{
    let rate = read_rent(rent_acc)?;
    match &rent_acc.data {
        Err(_) => Err(Failure::Aborted),
        Ok(data) => {
            let bytes = or_abort((data_len as u64).checked_add(128))?;
            or_abort(rate.checked_mul(bytes))?;
            Ok(rent_is_exempt(data, balance, data_len))
        },
    }
}

} // verus!
