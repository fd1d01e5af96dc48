//! Conservative ceilings on what each participant can gain or spend of each
//! asset, computed from an action log before any of it is executed.
//!
//! Every ceiling is a saturating sum of per-order terms, so it equals the
//! exact sum capped at `u64::MAX`.

use crate::action::{Action, OrderParams, OwnerId, Side, COIN_LOT_SIZE, PC_LOT_SIZE};
use std::collections::HashMap;
use vstd::prelude::*;

verus! {

broadcast use vstd::std_specs::hash::group_hash_axioms;

/// Worst-case taker fee: one part in this many of the cost.
pub const TAKER_FEE_DIVISOR: u64 = 100;

/// Best-case maker rebate: one part in this many of the proceeds.
pub const MAKER_REBATE_DIVISOR: u64 = 1000;

/// Which ceiling is meant: an asset and a direction.
#[derive(Debug, Clone, Copy, PartialEq, Eq, Structural)]
pub enum BoundKind {
    CoinGained,
    CoinSpent,
    PcGained,
    PcSpent,
}

/// A natural number cut off at the largest `u64`.
pub open spec fn capped(n: nat) -> u64 {
    if n > u64::MAX {
        u64::MAX
    } else {
        n as u64
    }
}

/// Base-asset units that an order can move at most.
pub open spec fn coin_volume(order: OrderParams) -> u64 {
    capped((order.max_qty * COIN_LOT_SIZE) as nat)
}

/// Quote-asset units for a quantity traded at a price, each product capped.
pub open spec fn pc_value(qty: u64, price: u64) -> u64 {
    capped((capped((qty * price) as nat) * PC_LOT_SIZE) as nat)
}

/// A value inflated by one part in `divisor`, capped.
pub open spec fn with_margin(value: u64, divisor: u64) -> u64
    recommends
        divisor > 0,
{
    capped((value + value / divisor) as nat)
}

/// What one placed order adds to a ceiling of its owner, or `None` where the
/// order's side does not count for that ceiling. `best_bid` is the highest
/// limit price among the bids placed earlier in the log.
///
/// A bid can gain its full base volume and spend its full cost plus the
/// worst-case taker fee. An ask can spend its full base volume and gain the
/// larger of what it gets by taking the best earlier bid and what it gets by
/// resting at its own price plus the maker rebate.
pub open spec fn order_term(kind: BoundKind, order: OrderParams, best_bid: u64) -> Option<u64> {
    match (kind, order.side) {
        (BoundKind::CoinGained, Side::Bid) => Some(coin_volume(order)),
        (BoundKind::CoinSpent, Side::Ask) => Some(coin_volume(order)),
        (BoundKind::PcSpent, Side::Bid) => Some(
            with_margin(pc_value(order.max_qty, order.limit_price), TAKER_FEE_DIVISOR),
        ),
        (BoundKind::PcGained, Side::Ask) => {
            let take = pc_value(order.max_qty, best_bid);
            let provide = with_margin(
                pc_value(order.max_qty, order.limit_price),
                MAKER_REBATE_DIVISOR,
            );
            Some(if take >= provide { take } else { provide })
        },
        _ => None,
    }
}

/// Highest limit price among the bids placed in `log`, 0 where there is none.
pub open spec fn best_bid_price(log: Seq<Action>) -> u64
    decreases log.len(),
{
    if log.len() == 0 {
        0
    } else {
        let before = best_bid_price(log.drop_last());
        match log.last() {
            Action::PlaceOrder { owner_id, instruction } => if instruction.side == Side::Bid
                && instruction.limit_price > before {
                instruction.limit_price
            } else {
                before
            },
            _ => before,
        }
    }
}

/// The owner and the term that the last action of `log` contributes.
pub open spec fn last_term(kind: BoundKind, log: Seq<Action>) -> Option<(OwnerId, u64)>
    recommends
        log.len() > 0,
{
    match log.last() {
        Action::PlaceOrder { owner_id, instruction } => match order_term(
            kind,
            instruction,
            best_bid_price(log.drop_last()),
        ) {
            Some(v) => Some((owner_id, v)),
            None => None,
        },
        _ => None,
    }
}

/// Exact sum of the terms that `log` contributes to a ceiling of `owner`.
pub open spec fn uncapped_total(kind: BoundKind, log: Seq<Action>, owner: OwnerId) -> nat
    decreases log.len(),
{
    if log.len() == 0 {
        0
    } else {
        let before = uncapped_total(kind, log.drop_last(), owner);
        match last_term(kind, log) {
            Some((o, v)) => if o == owner {
                before + v as nat
            } else {
                before
            },
            None => before,
        }
    }
}

/// Whether `log` contributes any term to a ceiling of `owner`.
pub open spec fn has_term(kind: BoundKind, log: Seq<Action>, owner: OwnerId) -> bool
    decreases log.len(),
{
    log.len() > 0 && (has_term(kind, log.drop_last(), owner) || match last_term(kind, log) {
        Some((o, v)) => o == owner,
        None => false,
    })
}

/// The ceilings of one kind for a whole log: an entry for each owner with at
/// least one counted order, holding the capped sum of that owner's terms.
pub open spec fn bound_map(kind: BoundKind, log: Seq<Action>) -> Map<OwnerId, u64> {
    Map::new(
        |o: OwnerId| has_term(kind, log, o),
        |o: OwnerId| capped(uncapped_total(kind, log, o)),
    )
}

/// An owner without a counted order has a total of zero.
pub proof fn lemma_no_term_zero_total(kind: BoundKind, log: Seq<Action>, owner: OwnerId)
    requires
        !has_term(kind, log, owner),
    ensures
        uncapped_total(kind, log, owner) == 0,
    decreases log.len(),
{
    if log.len() > 0 {
        lemma_no_term_zero_total(kind, log.drop_last(), owner);
    }
}

/// Ceilings per owner.
pub struct BoundMap {
    entries: HashMap<u8, u64>,
}

impl View for BoundMap {
    type V = Map<OwnerId, u64>;

    closed spec fn view(&self) -> Map<OwnerId, u64> {
        Map::new(|o: OwnerId| self.entries@.contains_key(o.0), |o: OwnerId| self.entries@[o.0])
    }
}

impl BoundMap {
    /// The entry of `owner`, if there is one.
    pub fn get(&self, owner: OwnerId) -> (r: Option<u64>)
        ensures
            r == (if self@.contains_key(owner) {
                Some(self@[owner])
            } else {
                None
            }),
    {
        match self.entries.get(&owner.0) {
            Some(v) => Some(*v),
            None => None,
        }
    }

    /// The ceiling that applies to `owner`: the entry, or 0 without one.
    pub fn ceiling(&self, owner: OwnerId) -> (r: u64)
        ensures
            r == (if self@.contains_key(owner) {
                self@[owner]
            } else {
                0
            }),
    {
        match self.get(owner) {
            Some(v) => v,
            None => 0,
        }
    }
}

fn sat_mul(a: u64, b: u64) -> (r: u64)
    ensures
        r == capped((a * b) as nat),
{
    assert(a * b >= 0) by (nonlinear_arith);
    match a.checked_mul(b) {
        Some(v) => v,
        None => u64::MAX,
    }
}

fn pc_value_of(qty: u64, price: u64) -> (r: u64)
    ensures
        r == pc_value(qty, price),
{
    sat_mul(sat_mul(qty, price), PC_LOT_SIZE)
}

fn add_margin(value: u64, divisor: u64) -> (r: u64)
    requires
        divisor > 0,
    ensures
        r == with_margin(value, divisor),
{
    value.saturating_add(value / divisor)
}

/// Computes what one order adds to a ceiling of its owner.
pub fn order_contribution(kind: BoundKind, order: &OrderParams, best_bid: u64) -> (r: Option<u64>)
    ensures
        r == order_term(kind, *order, best_bid),
{
    match (kind, order.side) {
        (BoundKind::CoinGained, Side::Bid) => Some(sat_mul(order.max_qty, COIN_LOT_SIZE)),
        (BoundKind::CoinSpent, Side::Ask) => Some(sat_mul(order.max_qty, COIN_LOT_SIZE)),
        (BoundKind::PcSpent, Side::Bid) => Some(
            add_margin(pc_value_of(order.max_qty, order.limit_price), TAKER_FEE_DIVISOR),
        ),
        (BoundKind::PcGained, Side::Ask) => {
            let take = pc_value_of(order.max_qty, best_bid);
            let provide = add_margin(
                pc_value_of(order.max_qty, order.limit_price),
                MAKER_REBATE_DIVISOR,
            );
            Some(if take >= provide { take } else { provide })
        },
        _ => None,
    }
}

/// Scans the log once and accumulates the ceilings of one kind.
pub fn accumulate_bounds(kind: BoundKind, actions: &Vec<Action>) -> (m: BoundMap)
    ensures
        m@ == bound_map(kind, actions@),
{
    let mut best_bid: u64 = 0;
    let mut entries: HashMap<u8, u64> = HashMap::new();
    let n: usize = actions.len();
    let mut i: usize = 0;
    while i < n
        invariant
            n == actions.len(),
            i <= n,
            best_bid == best_bid_price(actions@.take(i as int)),
            forall|k: u8| #[trigger]
                entries@.contains_key(k) == has_term(kind, actions@.take(i as int), OwnerId(k)),
            forall|k: u8| #[trigger]
                entries@.contains_key(k) ==> entries@[k] == capped(
                    uncapped_total(kind, actions@.take(i as int), OwnerId(k)),
                ),
        decreases n - i,
    {
        let ghost before = actions@.take(i as int);
        let ghost after = actions@.take(i + 1);
        proof {
            assert(after.drop_last() =~= before);
            assert(after.last() == actions@[i as int]);
        }
        let action: Action = actions[i];
        match action {
            Action::PlaceOrder { owner_id, instruction } => {
                match order_contribution(kind, &instruction, best_bid) {
                    Some(v) => {
                        proof {
                            assert(owner_id == OwnerId(owner_id.0));
                            if !entries@.contains_key(owner_id.0) {
                                lemma_no_term_zero_total(kind, before, owner_id);
                            }
                        }
                        let prev: u64 = match entries.get(&owner_id.0) {
                            Some(p) => *p,
                            None => 0,
                        };
                        entries.insert(owner_id.0, prev.saturating_add(v));
                    },
                    None => {},
                }
                match instruction.side {
                    Side::Bid => {
                        if instruction.limit_price > best_bid {
                            best_bid = instruction.limit_price;
                        }
                    },
                    Side::Ask => {},
                }
            },
            _ => {},
        }
        i += 1;
    }
    proof {
        assert(actions@.take(n as int) =~= actions@);
    }
    let m = BoundMap { entries };
    proof {
        assert forall|o: OwnerId| #[trigger] m@.contains_key(o) == has_term(kind, actions@, o) by {
            assert(o == OwnerId(o.0));
        }
        assert(m@ =~= bound_map(kind, actions@));
    }
    m
}

/// Most base asset that each owner can gain: the sum over the owner's bids of
/// quantity times the base lot size.
pub fn get_max_possible_coin_gained(actions: &Vec<Action>) -> (m: BoundMap)
    ensures
        m@ == bound_map(BoundKind::CoinGained, actions@),
{
    accumulate_bounds(BoundKind::CoinGained, actions)
}

/// Most quote asset that each owner can spend: the sum over the owner's bids
/// of quantity times limit price times the quote lot size, plus the
/// worst-case taker fee.
pub fn get_max_possible_pc_spent(actions: &Vec<Action>) -> (m: BoundMap)
    ensures
        m@ == bound_map(BoundKind::PcSpent, actions@),
{
    accumulate_bounds(BoundKind::PcSpent, actions)
}

/// Most base asset that each owner can spend: the sum over the owner's asks
/// of quantity times the base lot size.
pub fn get_max_possible_coin_spent(actions: &Vec<Action>) -> (m: BoundMap)
    ensures
        m@ == bound_map(BoundKind::CoinSpent, actions@),
{
    accumulate_bounds(BoundKind::CoinSpent, actions)
}

/// Most quote asset that each owner can gain: the sum over the owner's asks
/// of the larger of taking the best earlier bid and resting at the ask's own
/// price with the maker rebate.
pub fn get_max_possible_pc_gained(actions: &Vec<Action>) -> (m: BoundMap)
    ensures
        m@ == bound_map(BoundKind::PcGained, actions@),
{
    accumulate_bounds(BoundKind::PcGained, actions)
}

} // verus!
