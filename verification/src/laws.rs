//! Facts that relate the parts of the harness to each other.

use crate::action::{Action, OwnerId};
use crate::bounds::{best_bid_price, bound_map, has_term, last_term, uncapped_total, BoundKind};
use crate::driver::{
    all_cancels, all_settles, cycle, liquidation_of, owner_cancels, push_cancel, replay_of,
    slot_limit, with_forced_cycles, FORCED_CYCLE_VERBOSITY,
};
use crate::executor::{planned, resident_order, verdict_of, ExchangeError, Failure, Instruction, Verdict};
use crate::invariants::bounds_of;
use crate::world::{addressable, live_orders, OrderSlot, OwnerState};
use vstd::prelude::*;

verus! {

/// Whether two logs give every participant the same ceilings and leave the
/// same best bid behind.
pub open spec fn same_bounds(a: Seq<Action>, b: Seq<Action>) -> bool {
    &&& best_bid_price(a) == best_bid_price(b)
    &&& forall|kind: BoundKind, owner: OwnerId| #[trigger]
        has_term(kind, a, owner) == has_term(kind, b, owner)
    &&& forall|kind: BoundKind, owner: OwnerId| #[trigger]
        uncapped_total(kind, a, owner) == uncapped_total(kind, b, owner)
}

/// Whether no action of the sequence places an order.
pub open spec fn places_nothing(actions: Seq<Action>) -> bool {
    forall|i: int| 0 <= i < actions.len() ==> !(#[trigger] actions[i] is PlaceOrder)
}

/// Logs with the same ceilings have the same bound maps.
pub proof fn lemma_same_bounds_same_maps(a: Seq<Action>, b: Seq<Action>)
    requires
        same_bounds(a, b),
    ensures
        bounds_of(a) == bounds_of(b),
        forall|kind: BoundKind| bound_map(kind, a) == bound_map(kind, b),
{
    assert forall|kind: BoundKind| bound_map(kind, a) == bound_map(kind, b) by {
        assert forall|o: OwnerId|
            bound_map(kind, a).contains_key(o) == bound_map(kind, b).contains_key(o) by {
            assert(has_term(kind, a, o) == has_term(kind, b, o));
        }
        assert forall|o: OwnerId| bound_map(kind, a).contains_key(o) implies bound_map(kind, a)[o]
            == bound_map(kind, b)[o] by {
            assert(uncapped_total(kind, a, o) == uncapped_total(kind, b, o));
        }
        assert(bound_map(kind, a) =~= bound_map(kind, b));
    }
}

/// Appending the same action to two logs with the same ceilings keeps their
/// ceilings the same.
pub proof fn lemma_push_keeps_same_bounds(a: Seq<Action>, b: Seq<Action>, x: Action)
    requires
        same_bounds(a, b),
    ensures
        same_bounds(a.push(x), b.push(x)),
{
    let ax = a.push(x);
    let bx = b.push(x);
    assert(ax.drop_last() =~= a);
    assert(bx.drop_last() =~= b);
    assert(ax.last() == x && bx.last() == x);
    assert forall|kind: BoundKind, owner: OwnerId| #[trigger]
        has_term(kind, ax, owner) == has_term(kind, bx, owner) by {
        assert(last_term(kind, ax) == last_term(kind, bx));
        assert(has_term(kind, a, owner) == has_term(kind, b, owner));
    }
    assert forall|kind: BoundKind, owner: OwnerId| #[trigger]
        uncapped_total(kind, ax, owner) == uncapped_total(kind, bx, owner) by {
        assert(last_term(kind, ax) == last_term(kind, bx));
        assert(uncapped_total(kind, a, owner) == uncapped_total(kind, b, owner));
    }
}

/// Appending an action that places no order changes no ceiling.
pub proof fn lemma_push_inert(a: Seq<Action>, x: Action)
    requires
        !(x is PlaceOrder),
    ensures
        same_bounds(a.push(x), a),
{
    let ax = a.push(x);
    assert(ax.drop_last() =~= a);
    assert(ax.last() == x);
    assert forall|kind: BoundKind, owner: OwnerId| #[trigger]
        has_term(kind, ax, owner) == has_term(kind, a, owner) by {
        assert(last_term(kind, ax).is_none());
        if a.len() == 0 {
            assert(!has_term(kind, a, owner));
        }
    }
    assert forall|kind: BoundKind, owner: OwnerId| #[trigger]
        uncapped_total(kind, ax, owner) == uncapped_total(kind, a, owner) by {
        assert(last_term(kind, ax).is_none());
    }
}

/// Ceilings never shrink as a log grows: one more action takes no entry
/// away, lowers no total and does not lower the best bid.
pub proof fn lemma_ceilings_never_shrink(log: Seq<Action>, x: Action)
    ensures
        best_bid_price(log) <= best_bid_price(log.push(x)),
        forall|kind: BoundKind, owner: OwnerId| #[trigger]
            has_term(kind, log, owner) ==> has_term(kind, log.push(x), owner),
        forall|kind: BoundKind, owner: OwnerId|
            uncapped_total(kind, log, owner) <= #[trigger] uncapped_total(
                kind,
                log.push(x),
                owner,
            ),
{
    assert(log.push(x).drop_last() =~= log);
}

/// Having the same ceilings is transitive.
pub proof fn lemma_same_bounds_chain(a: Seq<Action>, b: Seq<Action>, c: Seq<Action>)
    requires
        same_bounds(a, b),
        same_bounds(b, c),
    ensures
        same_bounds(a, c),
{
    assert forall|kind: BoundKind, owner: OwnerId| #[trigger]
        has_term(kind, a, owner) == has_term(kind, c, owner) by {
        assert(has_term(kind, a, owner) == has_term(kind, b, owner));
        assert(has_term(kind, b, owner) == has_term(kind, c, owner));
    }
    assert forall|kind: BoundKind, owner: OwnerId| #[trigger]
        uncapped_total(kind, a, owner) == uncapped_total(kind, c, owner) by {
        assert(uncapped_total(kind, a, owner) == uncapped_total(kind, b, owner));
        assert(uncapped_total(kind, b, owner) == uncapped_total(kind, c, owner));
    }
}

/// Appending actions that place no order changes no ceiling.
pub proof fn lemma_append_inert(a: Seq<Action>, tail: Seq<Action>)
    requires
        places_nothing(tail),
    ensures
        same_bounds(a + tail, a),
    decreases tail.len(),
{
    if tail.len() == 0 {
        assert(a + tail =~= a);
    } else {
        let init = tail.drop_last();
        assert forall|i: int| 0 <= i < init.len() implies !(#[trigger] init[i] is PlaceOrder) by {
            assert(init[i] == tail[i]);
        }
        lemma_append_inert(a, init);
        assert(a + tail =~= (a + init).push(tail.last()));
        lemma_push_inert(a + init, tail.last());
        lemma_same_bounds_chain(a + tail, a + init, a);
    }
}

/// Forcing a cycle after every action changes no ceiling.
pub proof fn lemma_forced_cycles_keep_bounds(log: Seq<Action>)
    ensures
        same_bounds(with_forced_cycles(log), log),
    decreases log.len(),
{
    if log.len() > 0 {
        let init = log.drop_last();
        let x = log.last();
        lemma_forced_cycles_keep_bounds(init);
        let forced = with_forced_cycles(init);
        lemma_push_keeps_same_bounds(forced, init, x);
        assert(init.push(x) =~= log);
        assert(places_nothing(cycle()));
        lemma_append_inert(forced.push(x), cycle());
        lemma_same_bounds_chain(with_forced_cycles(log), forced.push(x), log);
    }
}

/// The cancellations of one participant place no order.
pub proof fn lemma_owner_cancels_place_nothing(
    list: Seq<Action>,
    owner: OwnerId,
    slots: Seq<OrderSlot>,
    n: int,
)
    requires
        places_nothing(list),
    ensures
        places_nothing(owner_cancels(list, owner, slots, n)),
    decreases n,
{
    if n > 0 {
        lemma_owner_cancels_place_nothing(list, owner, slots, n - 1);
        let before = owner_cancels(list, owner, slots, n - 1);
        assert(places_nothing(cycle()));
        assert(places_nothing(push_cancel(before, owner, (n - 1) as u8)));
    }
}

/// The cancellations of a wind-down place no order.
pub proof fn lemma_cancels_place_nothing(owners: Seq<Option<OwnerState>>, n: int)
    ensures
        places_nothing(all_cancels(owners, n)),
    decreases n,
{
    if n > 0 {
        lemma_cancels_place_nothing(owners, n - 1);
        let before = all_cancels(owners, n - 1);
        let owner = OwnerId((n - 1) as u8);
        match live_orders(owners, owner) {
            Some(orders) => {
                lemma_owner_cancels_place_nothing(
                    before,
                    owner,
                    orders.slots@,
                    slot_limit(orders.slots@),
                );
            },
            None => {},
        }
    }
}

/// The settlements of a wind-down place no order.
pub proof fn lemma_settles_place_nothing(owners: Seq<Option<OwnerState>>, n: int)
    ensures
        places_nothing(all_settles(owners, n)),
    decreases n,
{
    if n > 0 {
        lemma_settles_place_nothing(owners, n - 1);
    }
}

/// A wind-down places no order.
pub proof fn lemma_liquidation_places_nothing(owners: Seq<Option<OwnerState>>)
    ensures
        places_nothing(liquidation_of(owners)),
{
    let n = addressable(owners);
    lemma_cancels_place_nothing(owners, n);
    lemma_settles_place_nothing(owners, n);
    assert(places_nothing(cycle()));
}

/// The cancellation of a slot of a participant by order id.
pub open spec fn cancel_of(owner: OwnerId, slot: u8) -> Action {
    Action::CancelOrder { owner_id: owner, slot, by_client_id: false }
}

/// Appending a cancellation keeps what the list held and adds the
/// cancellation.
pub proof fn lemma_push_cancel_contains(list: Seq<Action>, owner: OwnerId, slot: u8)
    ensures
        push_cancel(list, owner, slot).contains(cancel_of(owner, slot)),
        forall|a: Action| list.contains(a) ==> push_cancel(list, owner, slot).contains(a),
{
    let out = push_cancel(list, owner, slot);
    assert(out[out.len() - 1] == cancel_of(owner, slot));
    assert forall|a: Action| list.contains(a) implies out.contains(a) by {
        let i = choose|i: int| 0 <= i < list.len() && list[i] == a;
        assert(out[i] == a);
    }
}

/// The cancellations of one participant keep what the list held.
pub proof fn lemma_owner_cancels_keep(
    list: Seq<Action>,
    owner: OwnerId,
    slots: Seq<OrderSlot>,
    n: int,
)
    ensures
        forall|a: Action| list.contains(a) ==> owner_cancels(list, owner, slots, n).contains(a),
    decreases n,
{
    if n > 0 {
        lemma_owner_cancels_keep(list, owner, slots, n - 1);
        lemma_push_cancel_contains(owner_cancels(list, owner, slots, n - 1), owner, (n - 1) as u8);
    }
}

/// The cancellations of one participant hold one for each of the first `n`
/// slots with an order.
pub proof fn lemma_owner_cancels_cover(
    list: Seq<Action>,
    owner: OwnerId,
    slots: Seq<OrderSlot>,
    n: int,
    slot: u8,
)
    requires
        slot < n,
        slots[slot as int].order_id > 0,
    ensures
        owner_cancels(list, owner, slots, n).contains(cancel_of(owner, slot)),
    decreases n,
{
    let before = owner_cancels(list, owner, slots, n - 1);
    lemma_push_cancel_contains(before, owner, (n - 1) as u8);
    if slot < n - 1 {
        lemma_owner_cancels_cover(list, owner, slots, n - 1, slot);
    }
}

/// The cancellations of a wind-down hold one for every slot with an order
/// of each of the first `n` participants.
pub proof fn lemma_all_cancels_cover(
    owners: Seq<Option<OwnerState>>,
    n: int,
    owner: OwnerId,
    slot: u8,
)
    requires
        owner.0 < n,
        live_orders(owners, owner).is_some(),
        slot < slot_limit(live_orders(owners, owner).unwrap().slots@),
        live_orders(owners, owner).unwrap().slots@[slot as int].order_id > 0,
    ensures
        all_cancels(owners, n).contains(cancel_of(owner, slot)),
    decreases n,
{
    let before = all_cancels(owners, n - 1);
    let current = OwnerId((n - 1) as u8);
    if owner.0 == n - 1 {
        assert(current == owner);
        let slots = live_orders(owners, owner).unwrap().slots@;
        lemma_owner_cancels_cover(before, owner, slots, slot_limit(slots), slot);
    } else {
        lemma_all_cancels_cover(owners, n - 1, owner, slot);
        match live_orders(owners, current) {
            Some(orders) => {
                lemma_owner_cancels_keep(
                    before,
                    current,
                    orders.slots@,
                    slot_limit(orders.slots@),
                );
            },
            None => {},
        }
    }
}

/// The settlements of a wind-down hold one for each of the first `n`
/// participants with an open-order record.
pub proof fn lemma_all_settles_cover(owners: Seq<Option<OwnerState>>, n: int, owner: OwnerId)
    requires
        owner.0 < n,
        live_orders(owners, owner).is_some(),
    ensures
        all_settles(owners, n).contains(Action::SettleFunds(owner)),
    decreases n,
{
    let before = all_settles(owners, n - 1);
    let out = all_settles(owners, n);
    if owner.0 == n - 1 {
        assert(OwnerId((n - 1) as u8) == owner);
        assert(out[out.len() - 1] == Action::SettleFunds(owner));
    } else {
        lemma_all_settles_cover(owners, n - 1, owner);
        let i = choose|i: int| 0 <= i < before.len() && before[i] == Action::SettleFunds(owner);
        assert(out[i] == Action::SettleFunds(owner));
    }
}

/// A wind-down leaves no order resting and no record unsettled: it cancels
/// every slot that holds an order of a participant with an open-order
/// record, and it settles every such participant.
pub proof fn lemma_liquidation_is_complete(
    owners: Seq<Option<OwnerState>>,
    owner: OwnerId,
    slot: u8,
)
    requires
        live_orders(owners, owner).is_some(),
    ensures
        liquidation_of(owners).contains(Action::SettleFunds(owner)),
        slot < slot_limit(live_orders(owners, owner).unwrap().slots@)
            && live_orders(owners, owner).unwrap().slots@[slot as int].order_id > 0
            ==> liquidation_of(owners).contains(cancel_of(owner, slot)),
{
    let n = addressable(owners);
    let cancels = all_cancels(owners, n);
    let settles = all_settles(owners, n);
    let plan = liquidation_of(owners);
    lemma_all_settles_cover(owners, n, owner);
    let k = choose|k: int| 0 <= k < settles.len() && settles[k] == Action::SettleFunds(owner);
    assert(plan[cancels.len() + cycle().len() + k] == Action::SettleFunds(owner));
    let slots = live_orders(owners, owner).unwrap().slots@;
    if slot < slot_limit(slots) && slots[slot as int].order_id > 0 {
        lemma_all_cancels_cover(owners, n, owner, slot);
        let i = choose|i: int| 0 <= i < cancels.len() && cancels[i] == cancel_of(owner, slot);
        assert(plan[i] == cancel_of(owner, slot));
    }
}

/// The ceilings computed from a log are the ceilings of everything that a
/// run executes: the replay at any verbosity followed by the wind-down from
/// any state gives every participant the same four ceilings as the log.
pub proof fn lemma_bounds_cover_the_run(
    log: Seq<Action>,
    verbosity: u32,
    owners: Seq<Option<OwnerState>>,
)
    ensures
        bounds_of(replay_of(log, verbosity) + liquidation_of(owners)) == bounds_of(log),
{
    let replay = replay_of(log, verbosity);
    if verbosity >= FORCED_CYCLE_VERBOSITY {
        lemma_forced_cycles_keep_bounds(log);
    }
    assert(same_bounds(replay, log));
    lemma_liquidation_places_nothing(owners);
    lemma_append_inert(replay, liquidation_of(owners));
    lemma_same_bounds_chain(replay + liquidation_of(owners), replay, log);
    lemma_same_bounds_same_maps(replay + liquidation_of(owners), log);
}

/// A cancellation by client id of an order whose client id is zero is sent
/// to the exchange and marked; a refusal for the zero id is then absorbed,
/// and an acceptance aborts the run.
pub proof fn lemma_zero_client_id_must_be_refused(
    owners: Seq<Option<OwnerState>>,
    owner_id: OwnerId,
    slot: u8,
)
    requires
        resident_order(owners, owner_id, slot).is_some(),
        resident_order(owners, owner_id, slot).unwrap().1.client_order_id == 0,
    ensures
        ({
            let call = planned(Action::CancelOrder { owner_id, slot, by_client_id: true }, owners);
            &&& call.is_some()
            &&& call.unwrap().instruction == Instruction::CancelOrderByClientId(0)
            &&& call.unwrap().expects_zero_id
            &&& verdict_of(call.unwrap().instruction, true, Ok(())) == Verdict::Fatal(
                Failure::ZeroClientIdAccepted,
            )
            &&& verdict_of(
                call.unwrap().instruction,
                true,
                Err(ExchangeError::ClientOrderIdIsZero),
            ) == Verdict::Absorbed
        }),
{
}

} // verus!
