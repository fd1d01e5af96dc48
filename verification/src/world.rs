//! What the harness reads of the exchange: for each participant the balances
//! of the two asset holdings and the open-order record, as plain values.

use crate::action::OwnerId;
use crate::action::Side;
use vstd::prelude::*;

verus! {

/// Number of slots in a participant's open-order record.
pub const OPEN_ORDER_SLOTS: u8 = 128;

/// Largest number of participants that an owner table addresses.
pub const OWNER_TABLE_LIMIT: usize = 256;

/// Canonical key of an account: its identity bytes read as four words,
/// compared word by word.
pub type AccountKey = (u64, u64, u64, u64);

/// One slot of an open-order record. `side` is `None` for a free slot.
#[derive(Debug, Clone, Copy, PartialEq, Eq, Structural)]
pub struct OrderSlot {
    pub side: Option<Side>,
    pub order_id: u128,
    pub client_order_id: u64,
}

/// A participant's open-order record.
#[derive(Debug)]
pub struct OpenOrders {
    pub slots: Vec<OrderSlot>,
    pub native_coin_free: u64,
    pub native_coin_total: u64,
    pub native_pc_free: u64,
    pub native_pc_total: u64,
}

/// What the exchange holds for one provisioned participant.
/// `open_orders` is `None` until the record has been initialised.
#[derive(Debug)]
pub struct OwnerState {
    pub orders_key: AccountKey,
    pub coin_balance: u64,
    pub pc_balance: u64,
    pub open_orders: Option<OpenOrders>,
}

/// The state of the participant `id` in a table indexed by identifier, or
/// `None` for one that was never provisioned.
pub open spec fn state_of(owners: Seq<Option<OwnerState>>, id: OwnerId) -> Option<OwnerState> {
    if id.0 < owners.len() {
        owners[id.0 as int]
    } else {
        None
    }
}

/// The open-order record of `id`, if the participant is known and has one.
pub open spec fn live_orders(owners: Seq<Option<OwnerState>>, id: OwnerId) -> Option<OpenOrders> {
    match state_of(owners, id) {
        Some(state) => state.open_orders,
        None => None,
    }
}

/// Number of table entries that identifiers can address.
pub open spec fn addressable(owners: Seq<Option<OwnerState>>) -> int {
    if owners.len() <= OWNER_TABLE_LIMIT {
        owners.len() as int
    } else {
        OWNER_TABLE_LIMIT as int
    }
}

/// Looks a participant up in the table.
pub fn lookup_owner(owners: &Vec<Option<OwnerState>>, id: OwnerId) -> (r: Option<&OwnerState>)
    ensures
        match r {
            Some(state) => state_of(owners@, id) == Some(*state),
            None => state_of(owners@, id).is_none(),
        },
{
    let idx: usize = id.0 as usize;
    if idx < owners.len() {
        match &owners[idx] {
            Some(state) => Some(state),
            None => None,
        }
    } else {
        None
    }
}

/// Looks up the open-order record of a participant.
pub fn lookup_orders(owners: &Vec<Option<OwnerState>>, id: OwnerId) -> (r: Option<&OpenOrders>)
    ensures
        match r {
            Some(orders) => live_orders(owners@, id) == Some(*orders),
            None => live_orders(owners@, id).is_none(),
        },
{
    match lookup_owner(owners, id) {
        Some(state) => match &state.open_orders {
            Some(orders) => Some(orders),
            None => None,
        },
        None => None,
    }
}

} // verus!
