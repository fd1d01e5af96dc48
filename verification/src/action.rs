//! The action model: what one simulated operation is.

use vstd::prelude::*;

verus! {

/// Number of distinct participants. Raw identifiers are reduced modulo this
/// value so that few participants interact often.
pub const OWNER_ID_SPACE: u8 = 8;

/// Base-asset storage units per unit of order quantity.
pub const COIN_LOT_SIZE: u64 = 100_000;

/// Quote-asset storage units per unit of quantity times price.
pub const PC_LOT_SIZE: u64 = 100;

/// Limit handed to the forced match and consume cycles.
pub const CYCLE_LIMIT: u16 = 100;

/// Identifier of a simulated participant.
#[derive(Debug, Clone, Copy, PartialEq, Eq, Structural, Hash, PartialOrd, Ord)]
pub struct OwnerId(pub u8);

impl OwnerId {
    /// The identifier that a raw value stands for.
    pub open spec fn reduced(raw: u8) -> OwnerId {
        OwnerId((raw % OWNER_ID_SPACE) as u8)
    }

    /// Reduces a raw value into the small identifier space.
    pub fn from_raw(raw: u8) -> (id: OwnerId)
        ensures
            id == Self::reduced(raw),
            id.0 < OWNER_ID_SPACE,
            raw < OWNER_ID_SPACE ==> id.0 == raw,
    {
        OwnerId(raw % OWNER_ID_SPACE)
    }
}

/// Side of the book an order rests on.
#[derive(Debug, Clone, Copy, PartialEq, Eq, Structural)]
pub enum Side {
    Bid,
    Ask,
}

/// How an order behaves when it cannot be filled at once.
#[derive(Debug, Clone, Copy, PartialEq, Eq, Structural)]
pub enum OrderType {
    Limit,
    ImmediateOrCancel,
    PostOnly,
}

/// Parameters of a new order, as plain values.
#[derive(Debug, Clone, Copy, PartialEq, Eq, Structural)]
pub struct OrderParams {
    pub side: Side,
    pub limit_price: u64,
    pub max_qty: u64,
    pub order_type: OrderType,
    pub client_id: u64,
}

impl OrderParams {
    /// An order is acceptable to the exchange's wire format only with a
    /// non-zero price and a non-zero quantity.
    pub open spec fn well_formed(self) -> bool {
        self.limit_price != 0 && self.max_qty != 0
    }

    /// Builds order parameters, refusing a zero price or a zero quantity.
    pub fn new(
        side: Side,
        limit_price: u64,
        max_qty: u64,
        order_type: OrderType,
        client_id: u64,
    ) -> (params: Option<OrderParams>)
        ensures
            params.is_some() <==> (limit_price != 0 && max_qty != 0),
            params.is_some() ==> params.unwrap() == (OrderParams {
                side,
                limit_price,
                max_qty,
                order_type,
                client_id,
            }),
    {
        if limit_price == 0 || max_qty == 0 {
            None
        } else {
            Some(OrderParams { side, limit_price, max_qty, order_type, client_id })
        }
    }
}

/// One simulated operation.
#[derive(Debug, Clone, Copy, PartialEq, Eq, Structural)]
pub enum Action {
    PlaceOrder { owner_id: OwnerId, instruction: OrderParams },
    CancelOrder { owner_id: OwnerId, slot: u8, by_client_id: bool },
    MatchOrders(u16),
    ConsumeEvents(u16),
    SettleFunds(OwnerId),
}

} // verus!
