//! Instructions to the exchange.

use vstd::prelude::*;

use serum_dex::{instruction, matching};

use crate::bytes::le_bytes;

verus! {

/// Which side of the market an order is on.
#[derive(Clone, Copy, PartialEq, Eq, Debug, Structural)]
pub enum Side {
    Bid,
    Ask,
}

#[derive(Clone, Copy, PartialEq, Eq, Debug, Structural)]
pub enum OrderType {
    Limit,
    ImmediateOrCancel,
    PostOnly,
}

/// What the exchange does where an order meets another of the same owner.
#[derive(Clone, Copy, PartialEq, Eq, Debug, Structural)]
pub enum SelfTradeBehavior {
    DecrementTake,
    CancelProvide,
    AbortTransaction,
}

/// An order: price and quantity in lots, neither of them zero.
#[derive(Clone, Copy, PartialEq, Eq, Debug)]
pub struct NewOrder {
    pub side: Side,
    pub limit_price: u64,
    pub max_qty: u64,
    pub order_type: OrderType,
    pub client_id: u64,
    pub self_trade_behavior: SelfTradeBehavior,
}

impl NewOrder {
    /// The price and the quantity are not zero.
    pub open spec fn wf(self) -> bool {
        self.limit_price != 0 && self.max_qty != 0
    }
}

/// An order to cancel.
#[derive(Clone, Copy, PartialEq, Eq, Debug)]
pub struct CancelOrder {
    pub side: Side,
    pub order_id: u128,
    pub owner: [u64; 4],
    pub owner_slot: u8,
}

pub open spec fn side_tag(side: Side) -> nat {
    match side {
        Side::Bid => 0,
        Side::Ask => 1,
    }
}

pub open spec fn order_type_tag(order_type: OrderType) -> nat {
    match order_type {
        OrderType::Limit => 0,
        OrderType::ImmediateOrCancel => 1,
        OrderType::PostOnly => 2,
    }
}

pub open spec fn self_trade_tag(behavior: SelfTradeBehavior) -> nat {
    match behavior {
        SelfTradeBehavior::DecrementTake => 0,
        SelfTradeBehavior::CancelProvide => 1,
        SelfTradeBehavior::AbortTransaction => 2,
    }
}

/// The bytes of an instruction to the exchange: version zero, the tag of the
/// instruction, and its arguments.
pub open spec fn dex_data(tag: nat, arguments: Seq<u8>) -> Seq<u8> {
    seq![0u8] + le_bytes(tag, 4) + arguments
}

/// The bytes of the instruction to place an order.
pub open spec fn new_order_data(order: NewOrder) -> Seq<u8> {
    dex_data(
        9,
        le_bytes(side_tag(order.side), 4) + le_bytes(order.limit_price as nat, 8) + le_bytes(
            order.max_qty as nat,
            8,
        ) + le_bytes(order_type_tag(order.order_type), 4) + le_bytes(order.client_id as nat, 8)
            + le_bytes(self_trade_tag(order.self_trade_behavior), 4),
    )
}

/// The bytes of the instruction to cancel an order.
pub open spec fn cancel_order_data(cancel: CancelOrder) -> Seq<u8> {
    dex_data(
        4,
        le_bytes(side_tag(cancel.side), 4) + le_bytes(cancel.order_id as nat, 16) + le_bytes(
            cancel.owner[0] as nat,
            8,
        ) + le_bytes(cancel.owner[1] as nat, 8) + le_bytes(cancel.owner[2] as nat, 8) + le_bytes(
            cancel.owner[3] as nat,
            8,
        ) + seq![cancel.owner_slot],
    )
}

/// The bytes of the instruction to settle funds.
pub open spec fn settle_funds_data() -> Seq<u8> {
    dex_data(5, Seq::empty())
}

/// `serum_dex::instruction::MarketInstruction::pack` on an order to place: the
/// bytes in the order of the fields, enumerations by their place.
#[verifier::external_body]
pub(crate) fn pack_new_order(order: &NewOrder) -> (r: Vec<u8>)
    requires
        order.wf(),
    ensures
        r@ == new_order_data(*order),
{
    let side = match order.side { Side::Bid => matching::Side::Bid, Side::Ask => matching::Side::Ask };
    let order_type = match order.order_type {
        OrderType::Limit => matching::OrderType::Limit,
        OrderType::ImmediateOrCancel => matching::OrderType::ImmediateOrCancel,
        OrderType::PostOnly => matching::OrderType::PostOnly,
    };
    let self_trade_behavior = match order.self_trade_behavior {
        SelfTradeBehavior::DecrementTake => instruction::SelfTradeBehavior::DecrementTake,
        SelfTradeBehavior::CancelProvide => instruction::SelfTradeBehavior::CancelProvide,
        SelfTradeBehavior::AbortTransaction => instruction::SelfTradeBehavior::AbortTransaction,
    };
    let limit_price = std::num::NonZeroU64::new(order.limit_price).unwrap();
    let max_qty = std::num::NonZeroU64::new(order.max_qty).unwrap();
    instruction::MarketInstruction::NewOrderV2(instruction::NewOrderInstructionV2 {
        side, limit_price, max_qty, order_type, client_id: order.client_id, self_trade_behavior }).pack()
}

/// `serum_dex::instruction::MarketInstruction::pack` on an order to cancel: the
/// bytes in the order of the fields, the side by its place.
#[verifier::external_body]
pub(crate) fn pack_cancel_order(cancel: &CancelOrder) -> (r: Vec<u8>)
    ensures
        r@ == cancel_order_data(*cancel),
{
    let side = match cancel.side { Side::Bid => matching::Side::Bid, Side::Ask => matching::Side::Ask };
    instruction::MarketInstruction::CancelOrder(
        instruction::CancelOrderInstruction {
            side,
            order_id: cancel.order_id,
            owner: cancel.owner,
            owner_slot: cancel.owner_slot,
        },
    ).pack()
}

/// `serum_dex::instruction::MarketInstruction::pack` on the instruction to settle
/// funds, which has no arguments.
#[verifier::external_body]
pub(crate) fn pack_settle_funds() -> (r: Vec<u8>)
    ensures
        r@ == settle_funds_data(),
{
    instruction::MarketInstruction::SettleFunds.pack()
}

} // verus!
