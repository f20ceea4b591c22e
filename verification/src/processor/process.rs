//! Carrying out a request by its instruction.

use vstd::prelude::*;

use crate::bytes::{le_bytes, u64_le_bytes};
use crate::dex::{cancel_order_data, pack_cancel_order, CancelOrder, NewOrder};
use crate::error::{Failure, MangoError, MangoResult, INVALID_INSTRUCTION_DATA};
use crate::fixed_point::U64F64;
use crate::instruction::{Invocation, InvocationView};
use crate::processor::borrow::{borrow_settling, borrowing};
use crate::processor::deposit::{deposit_asked, PendingDeposit};
use crate::processor::init::{group_init, margin_init};
use crate::processor::liquidate::{liquidation_asked, Liquidation};
use crate::processor::order::{order_cancelling, order_placing};
use crate::processor::settle::{settlement_asked, Settlement};
use crate::processor::withdraw::withdrawal;
use crate::processor::{Processor, Update, UpdateView};
use crate::state::{AccountInfo, MangoIndex, Pubkey, NUM_TOKENS};

verus! {

/// An instruction to the program.
#[derive(Clone, Copy, PartialEq, Eq, Debug)]
pub enum MangoInstruction {
    InitMangoGroup { signer_nonce: u64, maint_coll_ratio: U64F64, init_coll_ratio: U64F64 },
    InitMarginAccount,
    Deposit { quantity: u64 },
    Withdraw { token_index: usize, quantity: u64 },
    Borrow { token_index: usize, quantity: u64 },
    SettleBorrow { token_index: usize, quantity: u64 },
    Liquidate { deposit_quantities: [u64; NUM_TOKENS] },
    PlaceOrder { market_i: usize, order: NewOrder },
    SettleFunds,
    CancelOrder { instruction: CancelOrder },
    CancelOrderByClientId { client_id: u64 },
}

impl MangoInstruction {
    /// An order to place has a price and a quantity.
    pub open spec fn wf(self) -> bool {
        self matches MangoInstruction::PlaceOrder { order, .. } ==> order.wf()
    }

    /// The place of the clock among the accounts of the request, where the
    /// instruction brings the indexes of the group, the first account, up to date.
    pub open spec fn clock_place(self) -> Option<usize> {
        match self {
            MangoInstruction::InitMangoGroup { .. } => None,
            MangoInstruction::InitMarginAccount => None,
            MangoInstruction::Deposit { .. } => Some(7),
            MangoInstruction::Withdraw { .. } => Some(7),
            MangoInstruction::Liquidate { .. } => Some(4),
            _ => Some(3),
        }
    }

    /// Tells the place of the clock.
    pub fn clock_position(&self) -> (r: Option<usize>)
        ensures
            r == self.clock_place(),
    {
        match self {
            MangoInstruction::InitMangoGroup { .. } => None,
            MangoInstruction::InitMarginAccount => None,
            MangoInstruction::Deposit { .. } => Some(7),
            MangoInstruction::Withdraw { .. } => Some(7),
            MangoInstruction::Liquidate { .. } => Some(4),
            _ => Some(3),
        }
    }

    /// The place of the margin account among the accounts of the request.
    pub open spec fn margin_place(self) -> Option<usize> {
        match self {
            MangoInstruction::InitMangoGroup { .. } => None,
            MangoInstruction::InitMarginAccount => Some(1),
            MangoInstruction::Deposit { .. } => Some(1),
            MangoInstruction::Withdraw { .. } => Some(1),
            MangoInstruction::Borrow { .. } => Some(1),
            MangoInstruction::SettleBorrow { .. } => Some(1),
            _ => Some(2),
        }
    }

    /// Tells the place of the margin account.
    pub fn margin_position(&self) -> (r: Option<usize>)
        ensures
            r == self.margin_place(),
    {
        match self {
            MangoInstruction::InitMangoGroup { .. } => None,
            MangoInstruction::InitMarginAccount => Some(1),
            MangoInstruction::Deposit { .. } => Some(1),
            MangoInstruction::Withdraw { .. } => Some(1),
            MangoInstruction::Borrow { .. } => Some(1),
            MangoInstruction::SettleBorrow { .. } => Some(1),
            _ => Some(2),
        }
    }
}

/// How far a request has come.
#[derive(PartialEq, Eq, Debug)]
pub enum Progress {
    /// The request is granted.
    Done(Update),
    /// The invocation of a deposit is to be made.
    Deposit(Invocation, PendingDeposit),
    /// A liquidation has started.
    Liquidate(Liquidation),
    /// A settlement has started.
    SettleFunds(Settlement),
}

/// What the progress of a request says.
pub enum ProgressView {
    Done(UpdateView),
    Deposit(InvocationView, PendingDeposit),
    Liquidate(Liquidation),
    SettleFunds(Settlement),
}

impl View for Progress {
    type V = ProgressView;

    open spec fn view(&self) -> ProgressView {
        match *self {
            Progress::Done(update) => ProgressView::Done(update@),
            Progress::Deposit(invocation, pending) => ProgressView::Deposit(invocation@, pending),
            Progress::Liquidate(state) => ProgressView::Liquidate(state),
            Progress::SettleFunds(state) => ProgressView::SettleFunds(state),
        }
    }
}

/// What the outcome of a request says.
pub open spec fn progress_view(r: Result<Progress, Failure>) -> Result<ProgressView, Failure> {
    match r {
        Ok(progress) => Ok(progress@),
        Err(e) => Err(e),
    }
}

/// A request that is done.
pub open spec fn done(r: Result<UpdateView, Failure>) -> Result<ProgressView, Failure> {
    match r {
        Ok(update) => Ok(ProgressView::Done(update)),
        Err(e) => Err(e),
    }
}

/// The outcome of a request, by its instruction.
pub open spec fn carried_out(
    program_id: Pubkey,
    accounts: Seq<AccountInfo>,
    instruction: MangoInstruction,
    indexes: MangoResult<[MangoIndex; NUM_TOKENS]>,
) -> Result<ProgressView, Failure> {
    match instruction {
        MangoInstruction::InitMangoGroup { signer_nonce, maint_coll_ratio, init_coll_ratio } => done(
            group_init(program_id, accounts, signer_nonce, maint_coll_ratio, init_coll_ratio),
        ),
        MangoInstruction::InitMarginAccount => done(margin_init(program_id, accounts)),
        MangoInstruction::Deposit { quantity } => match deposit_asked(
            program_id,
            accounts,
            quantity,
            indexes,
        ) {
            Ok((invocation, pending)) => Ok(ProgressView::Deposit(invocation, pending)),
            Err(e) => Err(e),
        },
        MangoInstruction::Withdraw { token_index, quantity } => done(
            withdrawal(program_id, accounts, token_index, quantity, indexes),
        ),
        MangoInstruction::Borrow { token_index, quantity } => done(
            borrowing(program_id, accounts, token_index, quantity, indexes),
        ),
        MangoInstruction::SettleBorrow { token_index, quantity } => done(
            borrow_settling(program_id, accounts, token_index, quantity, indexes),
        ),
        MangoInstruction::Liquidate { deposit_quantities } => match liquidation_asked(
            program_id,
            accounts,
            deposit_quantities,
            indexes,
        ) {
            Ok(state) => Ok(ProgressView::Liquidate(state)),
            Err(e) => Err(e),
        },
        MangoInstruction::PlaceOrder { market_i, order } => done(
            order_placing(program_id, accounts, market_i, order, indexes),
        ),
        MangoInstruction::SettleFunds => match settlement_asked(program_id, accounts, indexes) {
            Ok(state) => Ok(ProgressView::SettleFunds(state)),
            Err(e) => Err(e),
        },
        MangoInstruction::CancelOrder { instruction } => done(
            order_cancelling(program_id, accounts, cancel_order_data(instruction), indexes),
        ),
        MangoInstruction::CancelOrderByClientId { client_id } => done(
            order_cancelling(program_id, accounts, le_bytes(client_id as nat, 8), indexes),
        ),
    }
}

/// The outcome of a request. Without an instruction that can be read it is
/// refused.
pub open spec fn processed(
    program_id: Pubkey,
    accounts: Seq<AccountInfo>,
    instruction: Option<MangoInstruction>,
    indexes: MangoResult<[MangoIndex; NUM_TOKENS]>,
) -> Result<ProgressView, Failure> {
    match instruction {
        None => Err(Failure::Refused(MangoError::ProgramError(INVALID_INSTRUCTION_DATA))),
        Some(instruction) => carried_out(program_id, accounts, instruction, indexes),
    }
}

impl Processor {
    /// Carries out a request: `instruction` is what reading its data gives, and
    /// `indexes` are the indexes of the group with interest up to the time of the
    /// clock, where the instruction has a clock.
    pub fn process(
        program_id: &Pubkey,
        accounts: &[AccountInfo],
        instruction: Option<MangoInstruction>,
        indexes: MangoResult<[MangoIndex; NUM_TOKENS]>,
    ) -> (r: Result<Progress, Failure>)
        requires
            instruction matches Some(instruction) ==> instruction.wf(),
        ensures
            progress_view(r) == processed(*program_id, accounts@, instruction, indexes),
            r matches Ok(Progress::Deposit(_, pending)) ==> pending.wf(),
    {
        let instruction = match instruction {
            Some(instruction) => instruction,
            None => {
                return Err(
                    Failure::Refused(MangoError::ProgramError(INVALID_INSTRUCTION_DATA)),
                );
            },
        };
        match instruction {
            MangoInstruction::InitMangoGroup {
                signer_nonce,
                maint_coll_ratio,
                init_coll_ratio,
            } => {
                let update = Self::init_mango_group(
                    program_id,
                    accounts,
                    signer_nonce,
                    maint_coll_ratio,
                    init_coll_ratio,
                )?;
                Ok(Progress::Done(update))
            },
            MangoInstruction::InitMarginAccount => {
                let update = Self::init_margin_account(program_id, accounts)?;
                Ok(Progress::Done(update))
            },
            MangoInstruction::Deposit { quantity } => {
                let (invocation, pending) = Self::deposit(
                    program_id,
                    accounts,
                    quantity,
                    indexes,
                )?;
                Ok(Progress::Deposit(invocation, pending))
            },
            MangoInstruction::Withdraw { token_index, quantity } => {
                let update = Self::withdraw(
                    program_id,
                    accounts,
                    token_index,
                    quantity,
                    indexes,
                )?;
                Ok(Progress::Done(update))
            },
            MangoInstruction::Borrow { token_index, quantity } => {
                let update = Self::borrow(
                    program_id,
                    accounts,
                    token_index,
                    quantity,
                    indexes,
                )?;
                Ok(Progress::Done(update))
            },
            MangoInstruction::SettleBorrow { token_index, quantity } => {
                let update = Self::settle_borrow(
                    program_id,
                    accounts,
                    token_index,
                    quantity,
                    indexes,
                )?;
                Ok(Progress::Done(update))
            },
            MangoInstruction::Liquidate { deposit_quantities } => {
                let state = Self::liquidate(program_id, accounts, deposit_quantities, indexes)?;
                Ok(Progress::Liquidate(state))
            },
            MangoInstruction::PlaceOrder { market_i, order } => {
                let update = Self::place_order(program_id, accounts, market_i, &order, indexes)?;
                Ok(Progress::Done(update))
            },
            MangoInstruction::SettleFunds => {
                let state = Self::settle_funds(program_id, accounts, indexes)?;
                Ok(Progress::SettleFunds(state))
            },
            MangoInstruction::CancelOrder { instruction } => {
                let data = pack_cancel_order(&instruction);
                let update = Self::cancel_order(program_id, accounts, data, indexes)?;
                Ok(Progress::Done(update))
            },
            MangoInstruction::CancelOrderByClientId { client_id } => {
                let data = u64_le_bytes(client_id);
                let update = Self::cancel_order(program_id, accounts, data, indexes)?;
                Ok(Progress::Done(update))
            },
        }
    }
}

} // verus!
