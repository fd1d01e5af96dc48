//! The order in which a run executes actions: the replay of the generated
//! log, and the wind-down that cancels every resting order and settles every
//! participant.

use crate::action::{Action, OwnerId, CYCLE_LIMIT};
use crate::world::{addressable, live_orders, OrderSlot, OwnerState, OPEN_ORDER_SLOTS, OWNER_TABLE_LIMIT};
use vstd::prelude::*;

verus! {

/// Verbosity from which a matching round and a consuming of events are
/// forced after every action of the log.
pub const FORCED_CYCLE_VERBOSITY: u32 = 4;

/// A cycle is forced whenever the wind-down list has grown to a multiple of
/// this length.
pub const CYCLE_PERIOD: usize = 8;

/// A matching round followed by a consuming of events.
pub open spec fn cycle() -> Seq<Action> {
    seq![Action::MatchOrders(CYCLE_LIMIT), Action::ConsumeEvents(CYCLE_LIMIT)]
}

/// The log with a cycle after each of its actions.
pub open spec fn with_forced_cycles(log: Seq<Action>) -> Seq<Action>
    decreases log.len(),
{
    if log.len() == 0 {
        Seq::empty()
    } else {
        with_forced_cycles(log.drop_last()).push(log.last()) + cycle()
    }
}

/// What a run replays for a log at a verbosity.
pub open spec fn replay_of(log: Seq<Action>, verbosity: u32) -> Seq<Action> {
    if verbosity >= FORCED_CYCLE_VERBOSITY {
        with_forced_cycles(log)
    } else {
        log
    }
}

/// The actions to replay for a log: the log itself, or at the highest
/// verbosity the log with a cycle forced after each action.
pub fn replay_schedule(actions: &Vec<Action>, verbosity: u32) -> (schedule: Vec<Action>)
    ensures
        schedule@ == replay_of(actions@, verbosity),
{
    let forced = verbosity >= FORCED_CYCLE_VERBOSITY;
    let mut schedule: Vec<Action> = Vec::new();
    let mut i: usize = 0;
    while i < actions.len()
        invariant
            i <= actions.len(),
            forced == (verbosity >= FORCED_CYCLE_VERBOSITY),
            schedule@ == replay_of(actions@.take(i as int), verbosity),
        decreases actions.len() - i,
    {
        proof {
            assert(actions@.take(i + 1).drop_last() =~= actions@.take(i as int));
            assert(actions@.take(i + 1).last() == actions@[i as int]);
        }
        let ghost before = schedule@;
        schedule.push(actions[i]);
        if forced {
            schedule.push(Action::MatchOrders(CYCLE_LIMIT));
            schedule.push(Action::ConsumeEvents(CYCLE_LIMIT));
            proof {
                assert(schedule@ =~= before.push(actions@[i as int]) + cycle());
            }
        } else {
            proof {
                assert(schedule@ =~= actions@.take(i + 1));
            }
        }
        i += 1;
    }
    proof {
        assert(actions@.take(actions@.len() as int) =~= actions@);
    }
    schedule
}

/// The list after a cancellation of `slot` of `owner` is appended: a cycle
/// comes first where the list's length is a multiple of the period.
pub open spec fn push_cancel(list: Seq<Action>, owner: OwnerId, slot: u8) -> Seq<Action> {
    let start = if list.len() % CYCLE_PERIOD as nat == 0 {
        list + cycle()
    } else {
        list
    };
    start.push(Action::CancelOrder { owner_id: owner, slot, by_client_id: false })
}

/// Number of slots of a record that a cancellation can name.
pub open spec fn slot_limit(slots: Seq<OrderSlot>) -> int {
    if slots.len() <= OPEN_ORDER_SLOTS {
        slots.len() as int
    } else {
        OPEN_ORDER_SLOTS as int
    }
}

/// The list after cancellations are appended for those of the first `n`
/// slots that hold an order.
pub open spec fn owner_cancels(list: Seq<Action>, owner: OwnerId, slots: Seq<OrderSlot>, n: int) -> Seq<
    Action,
>
    decreases n,
{
    if n <= 0 {
        list
    } else {
        let before = owner_cancels(list, owner, slots, n - 1);
        if slots[n - 1].order_id > 0 {
            push_cancel(before, owner, (n - 1) as u8)
        } else {
            before
        }
    }
}

/// Cancellations for every order held by the first `n` participants, in
/// ascending order of identifier and slot.
pub open spec fn all_cancels(owners: Seq<Option<OwnerState>>, n: int) -> Seq<Action>
    decreases n,
{
    if n <= 0 {
        Seq::empty()
    } else {
        let before = all_cancels(owners, n - 1);
        let owner = OwnerId((n - 1) as u8);
        match live_orders(owners, owner) {
            Some(orders) => owner_cancels(before, owner, orders.slots@, slot_limit(orders.slots@)),
            None => before,
        }
    }
}

/// A settlement for each of the first `n` participants that has an
/// open-order record, in ascending order of identifier.
pub open spec fn all_settles(owners: Seq<Option<OwnerState>>, n: int) -> Seq<Action>
    decreases n,
{
    if n <= 0 {
        Seq::empty()
    } else {
        let before = all_settles(owners, n - 1);
        let owner = OwnerId((n - 1) as u8);
        match live_orders(owners, owner) {
            Some(orders) => before.push(Action::SettleFunds(owner)),
            None => before,
        }
    }
}

/// The wind-down for a state: all cancellations, one more cycle, then all
/// settlements.
pub open spec fn liquidation_of(owners: Seq<Option<OwnerState>>) -> Seq<Action> {
    all_cancels(owners, addressable(owners)) + cycle() + all_settles(owners, addressable(owners))
}

/// Builds the wind-down from what the exchange holds once the log has been
/// replayed: for every participant with an open-order record, in ascending
/// order of identifier, a cancellation of every slot that holds an order,
/// with a cycle forced at every multiple of the period; then one cycle; then
/// a settlement for each of those participants.
pub fn liquidation_plan(owners: &Vec<Option<OwnerState>>) -> (plan: Vec<Action>)
    ensures
        plan@ == liquidation_of(owners@),
{
    let n: usize = if owners.len() <= OWNER_TABLE_LIMIT {
        owners.len()
    } else {
        OWNER_TABLE_LIMIT
    };
    let mut plan: Vec<Action> = Vec::new();
    let mut i: usize = 0;
    while i < n
        invariant
            n == addressable(owners@),
            i <= n,
            plan@ == all_cancels(owners@, i as int),
        decreases n - i,
    {
        let owner = OwnerId(i as u8);
        match &owners[i] {
            Some(state) => match &state.open_orders {
                Some(orders) => {
                    let m: usize = if orders.slots.len() <= OPEN_ORDER_SLOTS as usize {
                        orders.slots.len()
                    } else {
                        OPEN_ORDER_SLOTS as usize
                    };
                    let ghost start = plan@;
                    let mut slot: usize = 0;
                    while slot < m
                        invariant
                            m == slot_limit(orders.slots@),
                            slot <= m,
                            plan@ == owner_cancels(start, owner, orders.slots@, slot as int),
                        decreases m - slot,
                    {
                        if orders.slots[slot].order_id > 0 {
                            let ghost before = plan@;
                            if plan.len() % CYCLE_PERIOD == 0 {
                                plan.push(Action::MatchOrders(CYCLE_LIMIT));
                                plan.push(Action::ConsumeEvents(CYCLE_LIMIT));
                                proof {
                                    assert(plan@ =~= before + cycle());
                                }
                            }
                            plan.push(
                                Action::CancelOrder {
                                    owner_id: owner,
                                    slot: slot as u8,
                                    by_client_id: false,
                                },
                            );
                        }
                        slot += 1;
                    }
                },
                None => {},
            },
            None => {},
        }
        i += 1;
    }
    let ghost cancels = plan@;
    plan.push(Action::MatchOrders(CYCLE_LIMIT));
    plan.push(Action::ConsumeEvents(CYCLE_LIMIT));
    proof {
        assert(plan@ =~= cancels + cycle());
    }
    let mut k: usize = 0;
    while k < n
        invariant
            n == addressable(owners@),
            k <= n,
            plan@ == cancels + cycle() + all_settles(owners@, k as int),
        decreases n - k,
    {
        let ghost before = plan@;
        match &owners[k] {
            Some(state) => {
                if state.open_orders.is_some() {
                    plan.push(Action::SettleFunds(OwnerId(k as u8)));
                    proof {
                        assert(plan@ =~= cancels + cycle() + all_settles(owners@, k + 1));
                    }
                }
            },
            None => {},
        }
        k += 1;
    }
    plan
}

} // verus!
