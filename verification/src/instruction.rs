//! Instructions to other programs.

use vstd::prelude::*;

use crate::bytes::{le_bytes, u64_le_bytes};
use crate::error::INCORRECT_PROGRAM_ID;
use crate::state::Pubkey;
use crate::token::token_program;

verus! {

/// How an instruction uses an account.
#[derive(Clone, Copy, PartialEq, Eq, Debug)]
pub struct AccountMeta {
    pub pubkey: Pubkey,
    pub is_signer: bool,
    pub is_writable: bool,
}

/// An account that the instruction may write.
pub open spec fn writable(pubkey: Pubkey) -> AccountMeta {
    AccountMeta { pubkey, is_signer: false, is_writable: true }
}

/// An account that the instruction only reads.
pub open spec fn readonly(pubkey: Pubkey) -> AccountMeta {
    AccountMeta { pubkey, is_signer: false, is_writable: false }
}

/// An account that the instruction only reads, and that signs it.
pub open spec fn readonly_signer(pubkey: Pubkey) -> AccountMeta {
    AccountMeta { pubkey, is_signer: true, is_writable: false }
}

impl AccountMeta {
    pub fn new(pubkey: Pubkey) -> (r: AccountMeta)
        ensures
            r == writable(pubkey),
    {
        AccountMeta { pubkey, is_signer: false, is_writable: true }
    }

    pub fn new_readonly(pubkey: Pubkey, is_signer: bool) -> (r: AccountMeta)
        ensures
            r == (if is_signer {
                readonly_signer(pubkey)
            } else {
                readonly(pubkey)
            }),
    {
        AccountMeta { pubkey, is_signer, is_writable: false }
    }
}

/// An instruction to another program.
#[derive(PartialEq, Eq, Debug)]
pub struct Instruction {
    pub program_id: Pubkey,
    pub accounts: Vec<AccountMeta>,
    pub data: Vec<u8>,
}

/// What an instruction says.
#[verifier::ext_equal]
pub struct InstructionView {
    pub program_id: Pubkey,
    pub accounts: Seq<AccountMeta>,
    pub data: Seq<u8>,
}

impl View for Instruction {
    type V = InstructionView;

    open spec fn view(&self) -> InstructionView {
        InstructionView {
            program_id: self.program_id,
            accounts: self.accounts@,
            data: self.data@,
        }
    }
}

/// The seeds from which the address that signs for a group is derived.
#[derive(Clone, Copy, PartialEq, Eq, Debug)]
pub struct SignerSeeds {
    pub key: Pubkey,
    pub nonce: u64,
}

/// The seeds of the signer of a group.
pub fn gen_signer_seeds(nonce: &u64, acc_pk: &Pubkey) -> (r: SignerSeeds)
    ensures
        r == (SignerSeeds { key: *acc_pk, nonce: *nonce }),
{
    SignerSeeds { key: *acc_pk, nonce: *nonce }
}

/// The address that a program derives from two seeds, or the code of the error
/// that there is none.
pub uninterp spec fn program_address(
    seed1: Seq<u8>,
    seed2: Seq<u8>,
    program_id: Seq<u8>,
) -> Result<Seq<u8>, u64>;

/// A derived address by its bytes.
pub open spec fn address_view(r: Result<Pubkey, u64>) -> Result<Seq<u8>, u64> {
    match r {
        Ok(key) => Ok(key.0@),
        Err(code) => Err(code),
    }
}

/// `solana_program::pubkey::Pubkey::create_program_address` on two seeds. It
/// hashes the seeds and the program id; nothing is said of the address but that
/// the same seeds and program give the same one.
#[verifier::external_body]
fn create_program_address(seed1: &Vec<u8>, seed2: &Vec<u8>, program_id: &Pubkey) -> (r: Result<
    Pubkey,
    u64,
>)
    ensures
        address_view(r) == program_address(seed1@, seed2@, program_id.0@),
{
    solana_program::pubkey::Pubkey::create_program_address(
        &[seed1.as_slice(), seed2.as_slice()],
        &solana_program::pubkey::Pubkey::new_from_array(program_id.0),
    )
        .map(|key| Pubkey(key.to_bytes()))
        .map_err(|e| u64::from(solana_program::program_error::ProgramError::from(e)))
}

/// The address that signs for a group: derived from the key of the group and the
/// bytes of the nonce.
pub open spec fn signer_address(nonce: u64, acc_pk: Pubkey, program_id: Pubkey) -> Result<
    Seq<u8>,
    u64,
> {
    program_address(acc_pk.0@, le_bytes(nonce as nat, 8), program_id.0@)
}

/// Derives the address that signs for a group.
pub fn gen_signer_key(nonce: u64, acc_pk: &Pubkey, program_id: &Pubkey) -> (r: Result<Pubkey, u64>)
    ensures
        address_view(r) == signer_address(nonce, *acc_pk, *program_id),
{
    let mut key_bytes: Vec<u8> = Vec::new();
    let mut i: usize = 0;
    while i < 32
        invariant
            i <= 32,
            key_bytes@ == acc_pk.0@.take(i as int),
        decreases 32 - i,
    {
        key_bytes.push(acc_pk.0[i]);
        assert(acc_pk.0@.take(i + 1) =~= acc_pk.0@.take(i as int).push(acc_pk.0[i as int]));
        i += 1;
    }
    assert(acc_pk.0@.take(32) =~= acc_pk.0@);
    create_program_address(&key_bytes, &u64_le_bytes(nonce), program_id)
}

/// An instruction to make, with the accounts to hand over in order. Where there
/// are seeds, the address derived from them signs.
#[derive(PartialEq, Eq, Debug)]
pub struct Invocation {
    pub instruction: Instruction,
    pub accounts: Vec<Pubkey>,
    pub signer_seeds: Option<SignerSeeds>,
}

/// What an invocation says.
#[verifier::ext_equal]
pub struct InvocationView {
    pub instruction: InstructionView,
    pub accounts: Seq<Pubkey>,
    pub signer_seeds: Option<SignerSeeds>,
}

impl View for Invocation {
    type V = InvocationView;

    open spec fn view(&self) -> InvocationView {
        InvocationView {
            instruction: self.instruction@,
            accounts: self.accounts@,
            signer_seeds: self.signer_seeds,
        }
    }
}

/// The instruction that moves tokens: tag 3 and the amount, to the token program,
/// with the authority as signer.
pub open spec fn transfer_instruction(
    source: Pubkey,
    destination: Pubkey,
    authority: Pubkey,
    amount: u64,
) -> InstructionView {
    InstructionView {
        program_id: token_program(),
        accounts: seq![writable(source), writable(destination), readonly_signer(authority)],
        data: seq![3u8] + le_bytes(amount as nat, 8),
    }
}

/// Whether a call for an instruction that moves tokens gave it. Only the token
/// program moves tokens.
pub open spec fn transfer_made(
    token_program_id: Pubkey,
    source: Pubkey,
    destination: Pubkey,
    authority: Pubkey,
    amount: u64,
    r: Result<Instruction, u64>,
) -> bool {
    if token_program_id == token_program() {
        r is Ok && r->Ok_0@ == transfer_instruction(source, destination, authority, amount)
    } else {
        r == Err::<Instruction, u64>(INCORRECT_PROGRAM_ID)
    }
}

/// `spl_token::instruction::transfer` without further signers: the instruction
/// that moves tokens, or the code of the error that the program is not the token
/// program.
#[verifier::external_body]
pub(crate) fn transfer(
    token_program_id: &Pubkey,
    source: &Pubkey,
    destination: &Pubkey,
    authority: &Pubkey,
    amount: u64,
) -> (r: Result<Instruction, u64>)
    ensures
        transfer_made(*token_program_id, *source, *destination, *authority, amount, r),
{
    let key = |k: &Pubkey| solana_program::pubkey::Pubkey::new_from_array(k.0);
    let meta = |m: &solana_program::instruction::AccountMeta|
        AccountMeta {
            pubkey: Pubkey(m.pubkey.to_bytes()),
            is_signer: m.is_signer,
            is_writable: m.is_writable,
        };
    spl_token::instruction::transfer(
        &key(token_program_id), &key(source), &key(destination), &key(authority), &[], amount)
        .map(|i| Instruction {
            program_id: Pubkey(i.program_id.to_bytes()),
            accounts: i.accounts.iter().map(meta).collect(), data: i.data })
        .map_err(|e| u64::from(e))
}

} // verus!
