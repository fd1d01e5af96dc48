//! Decoding of an action log from a byte stream.
//!
//! Numbers are read little-endian; where the stream ends inside a number the
//! missing bytes read as zero. An action starts with a four-byte selector
//! that picks one of the five kinds in proportion to its value, followed by
//! the fields of that kind. Decoding goes on until the stream is used up, and
//! fails as a whole where an order has a zero price or a zero quantity.

use crate::action::{Action, OrderParams, OrderType, OwnerId, Side};
use arbitrary::Unstructured;
use vstd::prelude::*;

verus! {

/// `arbitrary::Unstructured`, a source that hands out the bytes of a stream
/// from the front.
#[verifier::external_type_specification]
#[verifier::external_body]
pub struct ExUnstructured<'a>(Unstructured<'a>);

/// The bytes that a source has not handed out yet.
pub uninterp spec fn unread(source: Unstructured) -> Seq<u8>;

/// The byte at a position, zero beyond the end.
pub open spec fn byte_at(bytes: Seq<u8>, i: int) -> nat {
    if 0 <= i < bytes.len() {
        bytes[i] as nat
    } else {
        0
    }
}

/// What is left of the bytes once `width` of them are taken.
pub open spec fn rest_after(bytes: Seq<u8>, width: int) -> Seq<u8> {
    if 0 <= width <= bytes.len() {
        bytes.skip(width)
    } else {
        Seq::empty()
    }
}

/// One term of a little-endian number.
pub open spec fn le_term(bytes: Seq<u8>, width: int, i: int, scale: nat) -> nat {
    if i < width {
        byte_at(bytes, i) * scale
    } else {
        0
    }
}

/// The little-endian number in the first `width` bytes, for a width up to 8.
pub open spec fn le_word(bytes: Seq<u8>, width: int) -> nat {
    le_term(bytes, width, 0, 1) + le_term(bytes, width, 1, 0x100) + le_term(
        bytes,
        width,
        2,
        0x1_0000,
    ) + le_term(bytes, width, 3, 0x100_0000) + le_term(bytes, width, 4, 0x1_0000_0000) + le_term(
        bytes,
        width,
        5,
        0x100_0000_0000,
    ) + le_term(bytes, width, 6, 0x1_0000_0000_0000) + le_term(
        bytes,
        width,
        7,
        0x100_0000_0000_0000,
    )
}

/// The variant that a selector picks among `variants`.
pub open spec fn pick(selector: nat, variants: nat) -> nat {
    selector * variants / 0x1_0000_0000
}

/// The side that the next four bytes select, and the rest.
pub open spec fn decode_side(bytes: Seq<u8>) -> (Side, Seq<u8>) {
    (
        if pick(le_word(bytes, 4), 2) == 0 {
            Side::Bid
        } else {
            Side::Ask
        },
        rest_after(bytes, 4),
    )
}

/// The order type that the next four bytes select, and the rest.
pub open spec fn decode_order_type(bytes: Seq<u8>) -> (OrderType, Seq<u8>) {
    let variant = pick(le_word(bytes, 4), 3);
    (
        if variant == 0 {
            OrderType::Limit
        } else if variant == 1 {
            OrderType::ImmediateOrCancel
        } else {
            OrderType::PostOnly
        },
        rest_after(bytes, 4),
    )
}

/// The participant that the next byte names, and the rest.
pub open spec fn decode_owner(bytes: Seq<u8>) -> (OwnerId, Seq<u8>) {
    (OwnerId::reduced(le_word(bytes, 1) as u8), rest_after(bytes, 1))
}

/// Order parameters: side, limit price, quantity, order type, client id.
/// `None` where the price or the quantity is zero.
pub open spec fn decode_order(bytes: Seq<u8>) -> (Option<OrderParams>, Seq<u8>) {
    let (side, after_side) = decode_side(bytes);
    let limit_price = le_word(after_side, 8) as u64;
    let after_price = rest_after(after_side, 8);
    let max_qty = le_word(after_price, 8) as u64;
    let after_qty = rest_after(after_price, 8);
    let (order_type, after_type) = decode_order_type(after_qty);
    let client_id = le_word(after_type, 8) as u64;
    if limit_price == 0 {
        (None, after_price)
    } else if max_qty == 0 {
        (None, after_qty)
    } else {
        (
            Some(OrderParams { side, limit_price, max_qty, order_type, client_id }),
            rest_after(after_type, 8),
        )
    }
}

/// One action and the bytes that follow it.
pub open spec fn decode_action(bytes: Seq<u8>) -> (Option<Action>, Seq<u8>) {
    let variant = pick(le_word(bytes, 4), 5);
    let body = rest_after(bytes, 4);
    if variant == 0 {
        let (owner_id, after_owner) = decode_owner(body);
        let (order, after_order) = decode_order(after_owner);
        (
            match order {
                Some(instruction) => Some(Action::PlaceOrder { owner_id, instruction }),
                None => None,
            },
            after_order,
        )
    } else if variant == 1 {
        let (owner_id, after_owner) = decode_owner(body);
        let slot = le_word(after_owner, 1) as u8;
        let after_slot = rest_after(after_owner, 1);
        let by_client_id = le_word(after_slot, 1) % 2 == 1;
        (Some(Action::CancelOrder { owner_id, slot, by_client_id }), rest_after(after_slot, 1))
    } else if variant == 2 {
        (Some(Action::MatchOrders(le_word(body, 2) as u16)), rest_after(body, 2))
    } else if variant == 3 {
        (Some(Action::ConsumeEvents(le_word(body, 2) as u16)), rest_after(body, 2))
    } else {
        let (owner_id, after_owner) = decode_owner(body);
        (Some(Action::SettleFunds(owner_id)), after_owner)
    }
}

/// The log that a byte stream decodes to, or `None` where an order in it is
/// malformed.
pub open spec fn decode_log(bytes: Seq<u8>) -> Option<Seq<Action>>
    decreases bytes.len(),
{
    if bytes.len() == 0 {
        Some(Seq::empty())
    } else {
        let (action, rest) = decode_action(bytes);
        match action {
            Some(a) => match decode_log(rest) {
                Some(tail) => Some(seq![a] + tail),
                None => None,
            },
            None => None,
        }
    }
}

/// Opens a source on a byte stream with `arbitrary::Unstructured::new`:
/// nothing of the stream has been handed out.
#[verifier::external_body]
fn byte_source<'a>(data: &'a [u8]) -> (source: Unstructured<'a>)
    ensures
        unread(source) == data@,
{
    Unstructured::new(data)
}

/// Asks `arbitrary::Unstructured::is_empty` whether any byte is left.
#[verifier::external_body]
fn exhausted(source: &Unstructured<'_>) -> (r: bool)
    ensures
        r == (unread(*source).len() == 0),
{
    source.is_empty()
}

/// Takes `width` bytes with `arbitrary::Unstructured::fill_buffer`, which
/// copies as many bytes as the source still has, pads the buffer with zeros,
/// and moves the source past what it copied.
#[verifier::external_body]
fn take_bytes(source: &mut Unstructured<'_>, width: usize) -> (buffer: Vec<u8>)
    requires
        width <= 8,
    ensures
        buffer@.len() == width,
        forall|i: int| 0 <= i < width ==> buffer@[i] as nat == byte_at(unread(*old(source)), i),
        unread(*final(source)) == rest_after(unread(*old(source)), width as int),
{
    let mut buffer = vec![0u8; width];
    let _ = source.fill_buffer(&mut buffer);
    buffer
}

fn padded_byte(buffer: &Vec<u8>, i: usize) -> (r: u64)
    ensures
        r == byte_at(buffer@, i as int),
{
    if i < buffer.len() {
        buffer[i] as u64
    } else {
        0
    }
}

fn take_word(source: &mut Unstructured<'_>, width: usize) -> (r: u64)
    requires
        1 <= width <= 8,
    ensures
        r == le_word(unread(*old(source)), width as int),
        unread(*final(source)) == rest_after(unread(*old(source)), width as int),
{
    let buffer = take_bytes(source, width);
    let ghost bytes = unread(*old(source));
    proof {
        assert forall|i: int| 0 <= i < 8 implies #[trigger] byte_at(buffer@, i) == (if i < width {
            byte_at(bytes, i)
        } else {
            0
        }) by {}
    }
    padded_byte(&buffer, 0) + padded_byte(&buffer, 1) * 0x100 + padded_byte(&buffer, 2) * 0x1_0000
        + padded_byte(&buffer, 3) * 0x100_0000 + padded_byte(&buffer, 4) * 0x1_0000_0000
        + padded_byte(&buffer, 5) * 0x100_0000_0000 + padded_byte(&buffer, 6)
        * 0x1_0000_0000_0000 + padded_byte(&buffer, 7) * 0x100_0000_0000_0000
}

fn take_variant(source: &mut Unstructured<'_>, variants: u64) -> (r: u64)
    requires
        1 <= variants <= 8,
    ensures
        r == pick(le_word(unread(*old(source)), 4), variants as nat),
        unread(*final(source)) == rest_after(unread(*old(source)), 4),
{
    let selector = take_word(source, 4);
    selector * variants / 0x1_0000_0000
}

fn take_owner(source: &mut Unstructured<'_>) -> (r: OwnerId)
    ensures
        r == decode_owner(unread(*old(source))).0,
        unread(*final(source)) == decode_owner(unread(*old(source))).1,
{
    let raw = take_word(source, 1);
    OwnerId::from_raw(raw as u8)
}

fn take_order(source: &mut Unstructured<'_>) -> (r: Option<OrderParams>)
    ensures
        r == decode_order(unread(*old(source))).0,
        r.is_some() ==> unread(*final(source)) == decode_order(unread(*old(source))).1,
        unread(*final(source)).len() <= unread(*old(source)).len(),
{
    let side = if take_variant(source, 2) == 0 {
        Side::Bid
    } else {
        Side::Ask
    };
    let limit_price = take_word(source, 8);
    if limit_price == 0 {
        return None;
    }
    let max_qty = take_word(source, 8);
    if max_qty == 0 {
        return None;
    }
    let variant = take_variant(source, 3);
    let order_type = if variant == 0 {
        OrderType::Limit
    } else if variant == 1 {
        OrderType::ImmediateOrCancel
    } else {
        OrderType::PostOnly
    };
    let client_id = take_word(source, 8);
    Some(OrderParams { side, limit_price, max_qty, order_type, client_id })
}

fn take_action(source: &mut Unstructured<'_>) -> (r: Option<Action>)
    requires
        unread(*old(source)).len() > 0,
    ensures
        r == decode_action(unread(*old(source))).0,
        r.is_some() ==> unread(*final(source)) == decode_action(unread(*old(source))).1,
        unread(*final(source)).len() < unread(*old(source)).len(),
{
    let variant = take_variant(source, 5);
    if variant == 0 {
        let owner_id = take_owner(source);
        match take_order(source) {
            Some(instruction) => Some(Action::PlaceOrder { owner_id, instruction }),
            None => None,
        }
    } else if variant == 1 {
        let owner_id = take_owner(source);
        let slot = take_word(source, 1) as u8;
        let by_client_id = take_word(source, 1) % 2 == 1;
        Some(Action::CancelOrder { owner_id, slot, by_client_id })
    } else if variant == 2 {
        Some(Action::MatchOrders(take_word(source, 2) as u16))
    } else if variant == 3 {
        Some(Action::ConsumeEvents(take_word(source, 2) as u16))
    } else {
        Some(Action::SettleFunds(take_owner(source)))
    }
}

/// Decodes a byte stream into an action log. The result is `None` exactly
/// where the stream holds an order with a zero price or a zero quantity.
pub fn decode_actions(data: &[u8]) -> (log: Option<Vec<Action>>)
    ensures
        match log {
            Some(actions) => decode_log(data@) == Some(actions@),
            None => decode_log(data@).is_none(),
        },
{
    let mut source = byte_source(data);
    let mut actions: Vec<Action> = Vec::new();
    while !exhausted(&source)
        invariant
            decode_log(data@) == match decode_log(unread(source)) {
                Some(tail) => Some(actions@ + tail),
                None => None,
            },
        decreases unread(source).len(),
    {
        let ghost before = unread(source);
        let ghost done = actions@;
        match take_action(&mut source) {
            Some(action) => {
                actions.push(action);
                proof {
                    match decode_log(unread(source)) {
                        Some(tail) => {
                            assert(actions@ + tail =~= done + (seq![action] + tail));
                        },
                        None => {},
                    }
                }
            },
            None => {
                return None;
            },
        }
    }
    proof {
        assert(actions@ + Seq::<Action>::empty() =~= actions@);
    }
    Some(actions)
}

} // verus!
