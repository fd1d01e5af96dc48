//! The checks made at the end of a run: value is conserved, nobody gained or
//! lost more than the precomputed ceilings allow, and nothing stays locked.

use crate::action::{Action, OwnerId};
use crate::bounds::{
    bound_map, get_max_possible_coin_gained, get_max_possible_coin_spent,
    get_max_possible_pc_gained, get_max_possible_pc_spent, BoundKind, BoundMap,
};
use crate::world::{addressable, state_of, OwnerState, OWNER_TABLE_LIMIT};
use vstd::prelude::*;

verus! {

/// Base asset that every participant starts with.
pub const INITIAL_COIN_BALANCE: u64 = 1_000_000_000;

/// Quote asset that every participant starts with.
pub const INITIAL_PC_BALANCE: u64 = 3_000_000_000;

/// One of the two assets of the market.
#[derive(Debug, Clone, Copy, PartialEq, Eq, Structural)]
pub enum Asset {
    Coin,
    Pc,
}

/// An invariant that a finished run broke, with the magnitudes observed and
/// expected.
#[derive(Debug, Clone, Copy, PartialEq, Eq, Structural)]
pub enum Violation {
    /// Balances plus accrued fees differ from what was handed out.
    NotConserved { asset: Asset, held: u128, expected: u128 },
    /// A participant holds more than the ceiling on gains allows.
    GainedTooMuch { owner: OwnerId, asset: Asset, gained: u64, bound: u64 },
    /// A participant holds less than the ceiling on spending allows.
    LostTooMuch { owner: OwnerId, asset: Asset, spent: u64, bound: u64 },
    /// A participant's open-order record still holds funds.
    ResidualLocked { owner: OwnerId, asset: Asset, total: u64 },
}

/// The four ceilings of a log.
pub struct Bounds {
    pub coin_gained: BoundMap,
    pub coin_spent: BoundMap,
    pub pc_gained: BoundMap,
    pub pc_spent: BoundMap,
}

/// The four ceilings as maps.
pub struct BoundsView {
    pub coin_gained: Map<OwnerId, u64>,
    pub coin_spent: Map<OwnerId, u64>,
    pub pc_gained: Map<OwnerId, u64>,
    pub pc_spent: Map<OwnerId, u64>,
}

impl View for Bounds {
    type V = BoundsView;

    open spec fn view(&self) -> BoundsView {
        BoundsView {
            coin_gained: self.coin_gained@,
            coin_spent: self.coin_spent@,
            pc_gained: self.pc_gained@,
            pc_spent: self.pc_spent@,
        }
    }
}

/// The ceilings that a log determines.
pub open spec fn bounds_of(log: Seq<Action>) -> BoundsView {
    BoundsView {
        coin_gained: bound_map(BoundKind::CoinGained, log),
        coin_spent: bound_map(BoundKind::CoinSpent, log),
        pc_gained: bound_map(BoundKind::PcGained, log),
        pc_spent: bound_map(BoundKind::PcSpent, log),
    }
}

/// Computes all four ceilings from a log that has not been executed.
pub fn compute_bounds(actions: &Vec<Action>) -> (bounds: Bounds)
    ensures
        bounds@ == bounds_of(actions@),
{
    Bounds {
        coin_gained: get_max_possible_coin_gained(actions),
        coin_spent: get_max_possible_coin_spent(actions),
        pc_gained: get_max_possible_pc_gained(actions),
        pc_spent: get_max_possible_pc_spent(actions),
    }
}

/// Computing the ceilings is a function of the log: equal logs give equal
/// maps, so computing them twice over one log gives the same maps twice.
pub proof fn lemma_bounds_deterministic(first: Seq<Action>, second: Seq<Action>)
    requires
        first =~= second,
    ensures
        bounds_of(first) == bounds_of(second),
        forall|kind: BoundKind| bound_map(kind, first) == bound_map(kind, second),
{
}

/// The ceiling that a map holds for an owner: 0 without an entry.
pub open spec fn ceiling_of(bounds: Map<OwnerId, u64>, owner: OwnerId) -> u64 {
    if bounds.contains_key(owner) {
        bounds[owner]
    } else {
        0
    }
}

/// What every participant starts with of an asset.
pub open spec fn initial_balance(asset: Asset) -> u64 {
    match asset {
        Asset::Coin => INITIAL_COIN_BALANCE,
        Asset::Pc => INITIAL_PC_BALANCE,
    }
}

/// What a participant holds of an asset.
pub open spec fn balance_of(state: OwnerState, asset: Asset) -> u64 {
    match asset {
        Asset::Coin => state.coin_balance,
        Asset::Pc => state.pc_balance,
    }
}

/// Number of participants among the first `n` entries of the table.
pub open spec fn owner_count(owners: Seq<Option<OwnerState>>, n: int) -> nat
    decreases n,
{
    if n <= 0 {
        0
    } else {
        owner_count(owners, n - 1) + if owners[n - 1].is_some() {
            1nat
        } else {
            0nat
        }
    }
}

/// Sum of what the participants among the first `n` entries hold of an asset.
pub open spec fn total_balance(owners: Seq<Option<OwnerState>>, asset: Asset, n: int) -> nat
    decreases n,
{
    if n <= 0 {
        0
    } else {
        total_balance(owners, asset, n - 1) + match owners[n - 1] {
            Some(state) => balance_of(state, asset) as nat,
            None => 0nat,
        }
    }
}

/// What the participants hold of an asset, with the fees that the exchange
/// accrued in it.
pub open spec fn held(owners: Seq<Option<OwnerState>>, asset: Asset, fees: u64) -> nat {
    total_balance(owners, asset, addressable(owners)) + fees as nat
}

/// What was handed out of an asset.
pub open spec fn handed_out(owners: Seq<Option<OwnerState>>, asset: Asset) -> nat {
    owner_count(owners, addressable(owners)) * initial_balance(asset) as nat
}

/// Conservation: balances plus accrued fees equal what was handed out.
pub open spec fn conserved(owners: Seq<Option<OwnerState>>, asset: Asset, fees: u64) -> bool {
    held(owners, asset, fees) == handed_out(owners, asset)
}

/// The first invariant that one participant breaks, in the order: base
/// gained, quote gained, base spent, quote spent, base locked, quote locked.
pub open spec fn owner_violation(owner: OwnerId, state: OwnerState, bounds: BoundsView) -> Option<
    Violation,
> {
    let coin = state.coin_balance;
    let pc = state.pc_balance;
    if coin > INITIAL_COIN_BALANCE && coin - INITIAL_COIN_BALANCE > ceiling_of(
        bounds.coin_gained,
        owner,
    ) {
        Some(
            Violation::GainedTooMuch {
                owner,
                asset: Asset::Coin,
                gained: (coin - INITIAL_COIN_BALANCE) as u64,
                bound: ceiling_of(bounds.coin_gained, owner),
            },
        )
    } else if pc > INITIAL_PC_BALANCE && pc - INITIAL_PC_BALANCE > ceiling_of(
        bounds.pc_gained,
        owner,
    ) {
        Some(
            Violation::GainedTooMuch {
                owner,
                asset: Asset::Pc,
                gained: (pc - INITIAL_PC_BALANCE) as u64,
                bound: ceiling_of(bounds.pc_gained, owner),
            },
        )
    } else if coin < INITIAL_COIN_BALANCE && INITIAL_COIN_BALANCE - coin > ceiling_of(
        bounds.coin_spent,
        owner,
    ) {
        Some(
            Violation::LostTooMuch {
                owner,
                asset: Asset::Coin,
                spent: (INITIAL_COIN_BALANCE - coin) as u64,
                bound: ceiling_of(bounds.coin_spent, owner),
            },
        )
    } else if pc < INITIAL_PC_BALANCE && INITIAL_PC_BALANCE - pc > ceiling_of(
        bounds.pc_spent,
        owner,
    ) {
        Some(
            Violation::LostTooMuch {
                owner,
                asset: Asset::Pc,
                spent: (INITIAL_PC_BALANCE - pc) as u64,
                bound: ceiling_of(bounds.pc_spent, owner),
            },
        )
    } else {
        match state.open_orders {
            Some(orders) => if orders.native_coin_total != 0 {
                Some(
                    Violation::ResidualLocked {
                        owner,
                        asset: Asset::Coin,
                        total: orders.native_coin_total,
                    },
                )
            } else if orders.native_pc_total != 0 {
                Some(
                    Violation::ResidualLocked {
                        owner,
                        asset: Asset::Pc,
                        total: orders.native_pc_total,
                    },
                )
            } else {
                None
            },
            None => None,
        }
    }
}

/// The first violation among the first `n` participants, in ascending order
/// of identifier.
pub open spec fn first_owner_violation(
    owners: Seq<Option<OwnerState>>,
    bounds: BoundsView,
    n: int,
) -> Option<Violation>
    decreases n,
{
    if n <= 0 {
        None
    } else {
        match first_owner_violation(owners, bounds, n - 1) {
            Some(v) => Some(v),
            None => match owners[n - 1] {
                Some(state) => owner_violation(OwnerId((n - 1) as u8), state, bounds),
                None => None,
            },
        }
    }
}

/// What the final check reports: a broken conservation of the base asset,
/// else of the quote asset, else the first violation of a participant, else
/// success.
pub open spec fn run_verdict(
    owners: Seq<Option<OwnerState>>,
    coin_fees: u64,
    pc_fees: u64,
    bounds: BoundsView,
) -> Result<(), Violation> {
    if !conserved(owners, Asset::Coin, coin_fees) {
        Err(
            Violation::NotConserved {
                asset: Asset::Coin,
                held: held(owners, Asset::Coin, coin_fees) as u128,
                expected: handed_out(owners, Asset::Coin) as u128,
            },
        )
    } else if !conserved(owners, Asset::Pc, pc_fees) {
        Err(
            Violation::NotConserved {
                asset: Asset::Pc,
                held: held(owners, Asset::Pc, pc_fees) as u128,
                expected: handed_out(owners, Asset::Pc) as u128,
            },
        )
    } else {
        match first_owner_violation(owners, bounds, addressable(owners)) {
            Some(v) => Err(v),
            None => Ok(()),
        }
    }
}

/// A violation found among the first participants stays the first one found
/// when more participants are looked at.
pub proof fn lemma_first_violation_stays(
    owners: Seq<Option<OwnerState>>,
    bounds: BoundsView,
    found: int,
    n: int,
)
    requires
        0 <= found <= n,
        first_owner_violation(owners, bounds, found).is_some(),
    ensures
        first_owner_violation(owners, bounds, n) == first_owner_violation(owners, bounds, found),
    decreases n - found,
{
    if found < n {
        lemma_first_violation_stays(owners, bounds, found, n - 1);
    }
}

/// Checks conservation of one asset and reports both sides where it fails.
pub fn check_conservation(owners: &Vec<Option<OwnerState>>, asset: Asset, fees: u64) -> (r: Result<
    (),
    Violation,
>)
    ensures
        r.is_ok() <==> conserved(owners@, asset, fees),
        r.is_err() ==> r == Err::<(), Violation>(
            Violation::NotConserved {
                asset,
                held: held(owners@, asset, fees) as u128,
                expected: handed_out(owners@, asset) as u128,
            },
        ),
{
    let n: usize = if owners.len() <= OWNER_TABLE_LIMIT {
        owners.len()
    } else {
        OWNER_TABLE_LIMIT
    };
    let initial: u64 = match asset {
        Asset::Coin => INITIAL_COIN_BALANCE,
        Asset::Pc => INITIAL_PC_BALANCE,
    };
    let mut total: u128 = 0;
    let mut count: u128 = 0;
    let mut i: usize = 0;
    while i < n
        invariant
            n == addressable(owners@),
            i <= n,
            count == owner_count(owners@, i as int),
            count <= i,
            total == total_balance(owners@, asset, i as int),
            total <= i * 0xffff_ffff_ffff_ffff,
        decreases n - i,
    {
        match &owners[i] {
            Some(state) => {
                let balance: u64 = match asset {
                    Asset::Coin => state.coin_balance,
                    Asset::Pc => state.pc_balance,
                };
                total = total + balance as u128;
                count = count + 1;
            },
            None => {},
        }
        i += 1;
    }
    let held_now: u128 = total + fees as u128;
    assert(count * initial <= 256 * 0xffff_ffff_ffff_ffff) by (nonlinear_arith)
        requires
            count <= 256,
            initial <= 0xffff_ffff_ffff_ffff,
    ;
    let expected: u128 = count * (initial as u128);
    if held_now == expected {
        Ok(())
    } else {
        Err(Violation::NotConserved { asset, held: held_now, expected })
    }
}

/// Checks one participant against the ceilings and for locked funds.
pub fn check_owner(owner: OwnerId, state: &OwnerState, bounds: &Bounds) -> (r: Option<Violation>)
    ensures
        r == owner_violation(owner, *state, bounds@),
{
    let coin: u64 = state.coin_balance;
    let pc: u64 = state.pc_balance;
    if coin > INITIAL_COIN_BALANCE {
        let gained: u64 = coin - INITIAL_COIN_BALANCE;
        let bound: u64 = bounds.coin_gained.ceiling(owner);
        if gained > bound {
            return Some(Violation::GainedTooMuch { owner, asset: Asset::Coin, gained, bound });
        }
    }
    if pc > INITIAL_PC_BALANCE {
        let gained: u64 = pc - INITIAL_PC_BALANCE;
        let bound: u64 = bounds.pc_gained.ceiling(owner);
        if gained > bound {
            return Some(Violation::GainedTooMuch { owner, asset: Asset::Pc, gained, bound });
        }
    }
    if coin < INITIAL_COIN_BALANCE {
        let spent: u64 = INITIAL_COIN_BALANCE - coin;
        let bound: u64 = bounds.coin_spent.ceiling(owner);
        if spent > bound {
            return Some(Violation::LostTooMuch { owner, asset: Asset::Coin, spent, bound });
        }
    }
    if pc < INITIAL_PC_BALANCE {
        let spent: u64 = INITIAL_PC_BALANCE - pc;
        let bound: u64 = bounds.pc_spent.ceiling(owner);
        if spent > bound {
            return Some(Violation::LostTooMuch { owner, asset: Asset::Pc, spent, bound });
        }
    }
    match &state.open_orders {
        Some(orders) => {
            if orders.native_coin_total != 0 {
                Some(
                    Violation::ResidualLocked {
                        owner,
                        asset: Asset::Coin,
                        total: orders.native_coin_total,
                    },
                )
            } else if orders.native_pc_total != 0 {
                Some(
                    Violation::ResidualLocked {
                        owner,
                        asset: Asset::Pc,
                        total: orders.native_pc_total,
                    },
                )
            } else {
                None
            }
        },
        None => None,
    }
}

/// The final check of a run, on the balances and records read after the
/// wind-down, the fees that the exchange accrued, and the ceilings computed
/// from the log. It succeeds exactly when both assets are conserved, every
/// participant is within its ceilings, and no record holds funds.
pub fn check_run(
    owners: &Vec<Option<OwnerState>>,
    coin_fees: u64,
    pc_fees: u64,
    bounds: &Bounds,
) -> (r: Result<(), Violation>)
    ensures
        r == run_verdict(owners@, coin_fees, pc_fees, bounds@),
        r.is_ok() <==> {
            &&& conserved(owners@, Asset::Coin, coin_fees)
            &&& conserved(owners@, Asset::Pc, pc_fees)
            &&& forall|owner: OwnerId| #[trigger]
                state_of(owners@, owner).is_some() ==> owner_violation(
                    owner,
                    state_of(owners@, owner).unwrap(),
                    bounds@,
                ).is_none()
        },
{
    match check_conservation(owners, Asset::Coin, coin_fees) {
        Err(v) => {
            return Err(v);
        },
        Ok(_) => {},
    }
    match check_conservation(owners, Asset::Pc, pc_fees) {
        Err(v) => {
            return Err(v);
        },
        Ok(_) => {},
    }
    let n: usize = if owners.len() <= OWNER_TABLE_LIMIT {
        owners.len()
    } else {
        OWNER_TABLE_LIMIT
    };
    let mut i: usize = 0;
    while i < n
        invariant
            n == addressable(owners@),
            i <= n,
            conserved(owners@, Asset::Coin, coin_fees),
            conserved(owners@, Asset::Pc, pc_fees),
            first_owner_violation(owners@, bounds@, i as int).is_none(),
            forall|owner: OwnerId| owner.0 < i && #[trigger] state_of(owners@, owner).is_some()
                ==> owner_violation(owner, state_of(owners@, owner).unwrap(), bounds@).is_none(),
        decreases n - i,
    {
        match &owners[i] {
            Some(state) => {
                match check_owner(OwnerId(i as u8), state, bounds) {
                    Some(v) => {
                        proof {
                            assert(owners@[i + 1 - 1] == Some(*state));
                            assert(first_owner_violation(owners@, bounds@, i + 1) == Some(v));
                            lemma_first_violation_stays(owners@, bounds@, i + 1, n as int);
                            assert(state_of(owners@, OwnerId(i as u8)).is_some());
                        }
                        return Err(v);
                    },
                    None => {},
                }
            },
            None => {},
        }
        proof {
            assert forall|owner: OwnerId|
                owner.0 < i + 1 && #[trigger] state_of(owners@, owner).is_some() implies owner_violation(
                owner,
                state_of(owners@, owner).unwrap(),
                bounds@,
            ).is_none() by {
                if owner.0 == i {
                    assert(owner == OwnerId(i as u8));
                }
            }
        }
        i += 1;
    }
    proof {
        assert forall|owner: OwnerId| #[trigger]
            state_of(owners@, owner).is_some() implies owner.0 < n by {}
    }
    Ok(())
}

} // verus!
