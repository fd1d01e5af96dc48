//! The figures of the diagnostic line that a run prints after an action:
//! where the base asset is at that moment.

use crate::world::{addressable, OwnerState, OWNER_TABLE_LIMIT};
use vstd::prelude::*;

verus! {

/// A quantity of base asset that is summed over the participants.
#[derive(Debug, Clone, Copy, PartialEq, Eq, Structural)]
pub enum Tally {
    /// Free funds in the open-order record.
    Free,
    /// Free and locked funds in the open-order record.
    FreeAndLocked,
    /// The balance of the participant's own holding.
    Balance,
}

/// Where the base asset is: in the open-order records, free or locked, in
/// the participants' holdings, and in accrued fees.
#[derive(Debug, Clone, Copy, PartialEq, Eq, Structural)]
pub struct CoinSummary {
    pub free: u128,
    pub free_and_locked: u128,
    /// What is locked; `None` where the records report more free funds than
    /// funds in all.
    pub locked: Option<u128>,
    pub balances: u128,
    pub fees: u64,
    /// Everything together: records, holdings and fees.
    pub total: u128,
}

/// What one participant contributes to a tally.
pub open spec fn tally_of(state: OwnerState, what: Tally) -> nat {
    match what {
        Tally::Free => match state.open_orders {
            Some(orders) => orders.native_coin_free as nat,
            None => 0,
        },
        Tally::FreeAndLocked => match state.open_orders {
            Some(orders) => orders.native_coin_total as nat,
            None => 0,
        },
        Tally::Balance => state.coin_balance as nat,
    }
}

/// A tally over the first `n` entries of the table.
pub open spec fn tally_sum(owners: Seq<Option<OwnerState>>, what: Tally, n: int) -> nat
    decreases n,
{
    if n <= 0 {
        0
    } else {
        tally_sum(owners, what, n - 1) + match owners[n - 1] {
            Some(state) => tally_of(state, what),
            None => 0nat,
        }
    }
}

/// The summary of a state and the fees accrued in the base asset.
pub open spec fn summary_of(owners: Seq<Option<OwnerState>>, fees: u64) -> CoinSummary {
    let n = addressable(owners);
    let free = tally_sum(owners, Tally::Free, n);
    let free_and_locked = tally_sum(owners, Tally::FreeAndLocked, n);
    let balances = tally_sum(owners, Tally::Balance, n);
    CoinSummary {
        free: free as u128,
        free_and_locked: free_and_locked as u128,
        locked: if free <= free_and_locked {
            Some((free_and_locked - free) as u128)
        } else {
            None
        },
        balances: balances as u128,
        fees,
        total: (free_and_locked + balances + fees) as u128,
    }
}

fn tally(owners: &Vec<Option<OwnerState>>, what: Tally) -> (sum: u128)
    ensures
        sum == tally_sum(owners@, what, addressable(owners@)),
        sum <= OWNER_TABLE_LIMIT * 0xffff_ffff_ffff_ffff,
{
    let n: usize = if owners.len() <= OWNER_TABLE_LIMIT {
        owners.len()
    } else {
        OWNER_TABLE_LIMIT
    };
    let mut sum: u128 = 0;
    let mut i: usize = 0;
    while i < n
        invariant
            n == addressable(owners@),
            i <= n,
            sum == tally_sum(owners@, what, i as int),
            sum <= i * 0xffff_ffff_ffff_ffff,
        decreases n - i,
    {
        match &owners[i] {
            Some(state) => {
                let part: u64 = match what {
                    Tally::Free => match &state.open_orders {
                        Some(orders) => orders.native_coin_free,
                        None => 0,
                    },
                    Tally::FreeAndLocked => match &state.open_orders {
                        Some(orders) => orders.native_coin_total,
                        None => 0,
                    },
                    Tally::Balance => state.coin_balance,
                };
                sum = sum + part as u128;
            },
            None => {},
        }
        i += 1;
    }
    sum
}

/// Sums up where the base asset is, without overflow.
pub fn coin_summary(owners: &Vec<Option<OwnerState>>, fees: u64) -> (summary: CoinSummary)
    ensures
        summary == summary_of(owners@, fees),
{
    let free = tally(owners, Tally::Free);
    let free_and_locked = tally(owners, Tally::FreeAndLocked);
    let balances = tally(owners, Tally::Balance);
    CoinSummary {
        free,
        free_and_locked,
        locked: if free <= free_and_locked {
            Some(free_and_locked - free)
        } else {
            None
        },
        balances,
        fees,
        total: free_and_locked + balances + fees as u128,
    }
}

} // verus!
