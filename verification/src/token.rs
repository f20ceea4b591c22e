//! Accounts of the token program.

use vstd::prelude::*;

use crate::error::{answered, or_answer, refused};
use crate::error::{Failure, INVALID_ACCOUNT_DATA, UNINITIALIZED_ACCOUNT};
use crate::state::{AccountInfo, Pubkey};

verus! {

/// The address of the token program.
pub open spec fn token_program() -> Pubkey {
    Pubkey(
        [
            6, 221, 246, 225, 215, 101, 161, 147, 217, 203, 225, 70, 206, 235, 121, 172, 28, 180,
            133, 237, 95, 91, 55, 145, 58, 140, 245, 133, 126, 255, 0, 169,
        ],
    )
}

/// `spl_token::id`: the address of the token program, whose text form is
/// `TokenkegQfeZyiNwAJbNbGKPFXCWuBvf9Ss623VQ5DA`.
#[verifier::external_body]
pub(crate) fn token_program_id() -> (r: Pubkey)
    ensures
        r == token_program(),
{
    Pubkey(spl_token::id().to_bytes())
}

/// Whether four bytes mark an optional value as absent or present.
pub open spec fn option_mark(data: Seq<u8>, at: int) -> bool {
    &&& data[at] <= 1
    &&& data[at + 1] == 0
    &&& data[at + 2] == 0
    &&& data[at + 3] == 0
}

/// The number of decimals of a mint, from the data of its account: 82 bytes, of
/// which byte 44 holds the decimals and byte 45 tells whether the mint is
/// initialized, with marks for the optional authorities at 0 and 46.
pub open spec fn mint_decimals(data: Seq<u8>) -> Result<u8, u64> {
    if data.len() != 82 || !option_mark(data, 0) || data[45] > 1 || !option_mark(data, 46) {
        Err(INVALID_ACCOUNT_DATA)
    } else if data[45] == 0 {
        Err(UNINITIALIZED_ACCOUNT)
    } else {
        Ok(data[44])
    }
}

/// `spl_token::state::Mint::unpack`: the decimals of an initialized mint, or the
/// code of the error that the data is no mint or is not initialized.
#[verifier::external_body]
fn unpack_mint(data: &Vec<u8>) -> (r: Result<u8, u64>)
    ensures
        r == mint_decimals(data@),
{
    <spl_token::state::Mint as solana_program::program_pack::Pack>::unpack(data)
        .map(|mint| mint.decimals)
        .map_err(|e| u64::from(e))
}

/// The mint and the owner of a token account, and whether it is initialized.
#[derive(Clone, Copy, PartialEq, Eq, Debug)]
pub struct TokenAccount {
    pub mint: Pubkey,
    pub owner: Pubkey,
    pub is_initialized: bool,
}

/// A token account with its keys as bytes.
pub struct TokenAccountView {
    pub mint: Seq<u8>,
    pub owner: Seq<u8>,
    pub is_initialized: bool,
}

impl View for TokenAccount {
    type V = TokenAccountView;

    open spec fn view(&self) -> TokenAccountView {
        TokenAccountView {
            mint: self.mint.0@,
            owner: self.owner.0@,
            is_initialized: self.is_initialized,
        }
    }
}

/// Whether the data of an account has the form of a token account: 165 bytes,
/// the state at 108, and marks for the optional delegate, native reserve and
/// close authority at 72, 109 and 129.
pub open spec fn token_account_form(data: Seq<u8>) -> bool {
    &&& data.len() == 165
    &&& option_mark(data, 72)
    &&& data[108] <= 2
    &&& option_mark(data, 109)
    &&& option_mark(data, 129)
}

/// The token account in the data of an account: the mint in the first 32 bytes
/// and the owner in the next 32. In state zero it is not initialized.
pub open spec fn token_account(data: Seq<u8>) -> Result<TokenAccountView, u64> {
    if !token_account_form(data) {
        Err(INVALID_ACCOUNT_DATA)
    } else if data[108] == 0 {
        Err(UNINITIALIZED_ACCOUNT)
    } else {
        Ok(
            TokenAccountView {
                mint: data.subrange(0, 32),
                owner: data.subrange(32, 64),
                is_initialized: true,
            },
        )
    }
}

/// A token account that was read, with its keys as bytes.
pub open spec fn token_account_view<E>(r: Result<TokenAccount, E>) -> Result<TokenAccountView, E> {
    match r {
        Ok(account) => Ok(account@),
        Err(e) => Err(e),
    }
}

/// `spl_token::state::Account::unpack`, with `is_initialized` of the account: the
/// mint and the owner of an initialized token account, or the code of the error
/// that the data is no token account or is not initialized.
#[verifier::external_body]
fn unpack_account(data: &Vec<u8>) -> (r: Result<TokenAccount, u64>)
    ensures
        token_account_view(r) == token_account(data@),
{
    <spl_token::state::Account as solana_program::program_pack::Pack>::unpack(data)
        .map(|account| TokenAccount {
            mint: Pubkey(account.mint.to_bytes()),
            owner: Pubkey(account.owner.to_bytes()),
            is_initialized: solana_program::program_pack::IsInitialized::is_initialized(&account),
        })
        .map_err(|e| u64::from(e))
}

/// What reading the decimals of a mint account gives.
pub open spec fn mint_read(acc: AccountInfo) -> Result<u8, Failure> {
    match refused(acc.data) {
        Err(e) => Err(e),
        Ok(data) => answered(mint_decimals(data@)),
    }
}

/// Reads the decimals of a mint account.
pub fn read_mint(acc: &AccountInfo) -> (r: Result<u8, Failure>)
    ensures
        r == mint_read(*acc),
{
    match &acc.data {
        Err(e) => Err(Failure::Refused(*e)),
        Ok(data) => or_answer(unpack_mint(data)),
    }
}

/// What reading a token account gives.
pub open spec fn token_account_read(acc: AccountInfo) -> Result<TokenAccountView, Failure> {
    match refused(acc.data) {
        Err(e) => Err(e),
        Ok(data) => answered(token_account(data@)),
    }
}

/// Reads a token account.
pub fn read_token_account(acc: &AccountInfo) -> (r: Result<TokenAccount, Failure>)
    ensures
        token_account_view(r) == token_account_read(*acc),
{
    match &acc.data {
        Err(e) => Err(Failure::Refused(*e)),
        Ok(data) => or_answer(unpack_account(data)),
    }
}

} // verus!
