use dex_harness::action::{Action, OrderParams, OrderType, OwnerId, Side};
use dex_harness::driver::liquidation_plan;
use dex_harness::executor::plan_action;
use dex_harness::invariants::{
    check_conservation, check_owner, check_run, compute_bounds, Asset, Violation,
    INITIAL_COIN_BALANCE, INITIAL_PC_BALANCE,
};
use dex_harness::world::{OpenOrders, OrderSlot, OwnerState};

fn state(coin: u64, pc: u64, coin_total: u64, pc_total: u64) -> Option<OwnerState> {
    let mut slots = Vec::new();
    for _ in 0..128 {
        slots.push(OrderSlot { side: None, order_id: 0, client_order_id: 0 });
    }
    Some(OwnerState {
        orders_key: (0, 0, 0, 0),
        coin_balance: coin,
        pc_balance: pc,
        open_orders: Some(OpenOrders {
            slots,
            native_coin_free: coin_total,
            native_coin_total: coin_total,
            native_pc_free: pc_total,
            native_pc_total: pc_total,
        }),
    })
}

fn place(owner: u8, side: Side, qty: u64, price: u64) -> Action {
    Action::PlaceOrder {
        owner_id: OwnerId(owner),
        instruction: OrderParams::new(side, price, qty, OrderType::Limit, 0).unwrap(),
    }
}

#[test]
fn untouched_owners_pass() {
    let world = vec![None, state(INITIAL_COIN_BALANCE, INITIAL_PC_BALANCE, 0, 0)];
    let bounds = compute_bounds(&Vec::new());
    assert_eq!(check_run(&world, 0, 0, &bounds), Ok(()));
    assert_eq!(check_run(&Vec::new(), 0, 0, &bounds), Ok(()));
}

#[test]
fn conservation_counts_fees() {
    let world = vec![
        state(INITIAL_COIN_BALANCE - 10, INITIAL_PC_BALANCE, 0, 0),
        state(INITIAL_COIN_BALANCE + 7, INITIAL_PC_BALANCE, 0, 0),
    ];
    assert_eq!(check_conservation(&world, Asset::Coin, 3), Ok(()));
    assert_eq!(check_conservation(&world, Asset::Pc, 0), Ok(()));
    assert_eq!(
        check_conservation(&world, Asset::Coin, 4),
        Err(Violation::NotConserved {
            asset: Asset::Coin,
            held: 2_000_000_001,
            expected: 2_000_000_000
        })
    );
    assert_eq!(
        check_conservation(&world, Asset::Pc, 1),
        Err(Violation::NotConserved {
            asset: Asset::Pc,
            held: 6_000_000_001,
            expected: 6_000_000_000
        })
    );
}

#[test]
fn conservation_does_not_overflow() {
    let world = vec![state(u64::MAX, u64::MAX, 0, 0), state(u64::MAX, u64::MAX, 0, 0)];
    assert_eq!(
        check_conservation(&world, Asset::Coin, u64::MAX),
        Err(Violation::NotConserved {
            asset: Asset::Coin,
            held: 3 * (u64::MAX as u128),
            expected: 2_000_000_000
        })
    );
}

#[test]
fn gain_beyond_the_ceiling_is_reported() {
    let log = vec![place(1, Side::Bid, 10, 5)];
    let bounds = compute_bounds(&log);
    let within = state(INITIAL_COIN_BALANCE + 1_000_000, INITIAL_PC_BALANCE - 5_050, 0, 0);
    assert_eq!(check_owner(OwnerId(1), within.as_ref().unwrap(), &bounds), None);
    let beyond = state(INITIAL_COIN_BALANCE + 1_000_001, INITIAL_PC_BALANCE - 5_050, 0, 0);
    assert_eq!(
        check_owner(OwnerId(1), beyond.as_ref().unwrap(), &bounds),
        Some(Violation::GainedTooMuch {
            owner: OwnerId(1),
            asset: Asset::Coin,
            gained: 1_000_001,
            bound: 1_000_000
        })
    );
    let pc_gain = state(INITIAL_COIN_BALANCE, INITIAL_PC_BALANCE + 1, 0, 0);
    assert_eq!(
        check_owner(OwnerId(1), pc_gain.as_ref().unwrap(), &bounds),
        Some(Violation::GainedTooMuch { owner: OwnerId(1), asset: Asset::Pc, gained: 1, bound: 0 })
    );
}

#[test]
fn loss_beyond_the_ceiling_is_reported() {
    let log = vec![place(1, Side::Bid, 10, 5)];
    let bounds = compute_bounds(&log);
    let pc_loss = state(INITIAL_COIN_BALANCE, INITIAL_PC_BALANCE - 5_051, 0, 0);
    assert_eq!(
        check_owner(OwnerId(1), pc_loss.as_ref().unwrap(), &bounds),
        Some(Violation::LostTooMuch {
            owner: OwnerId(1),
            asset: Asset::Pc,
            spent: 5_051,
            bound: 5_050
        })
    );
    let coin_loss = state(INITIAL_COIN_BALANCE - 1, INITIAL_PC_BALANCE, 0, 0);
    assert_eq!(
        check_owner(OwnerId(1), coin_loss.as_ref().unwrap(), &bounds),
        Some(Violation::LostTooMuch { owner: OwnerId(1), asset: Asset::Coin, spent: 1, bound: 0 })
    );
    assert_eq!(
        check_owner(OwnerId(2), coin_loss.as_ref().unwrap(), &bounds),
        Some(Violation::LostTooMuch { owner: OwnerId(2), asset: Asset::Coin, spent: 1, bound: 0 })
    );
}

#[test]
fn locked_funds_are_reported() {
    let bounds = compute_bounds(&Vec::new());
    let coin = state(INITIAL_COIN_BALANCE, INITIAL_PC_BALANCE, 5, 6);
    assert_eq!(
        check_owner(OwnerId(0), coin.as_ref().unwrap(), &bounds),
        Some(Violation::ResidualLocked { owner: OwnerId(0), asset: Asset::Coin, total: 5 })
    );
    let pc = state(INITIAL_COIN_BALANCE, INITIAL_PC_BALANCE, 0, 6);
    assert_eq!(
        check_owner(OwnerId(0), pc.as_ref().unwrap(), &bounds),
        Some(Violation::ResidualLocked { owner: OwnerId(0), asset: Asset::Pc, total: 6 })
    );
}

#[test]
fn run_reports_the_first_owner_in_order() {
    let bounds = compute_bounds(&Vec::new());
    let world = vec![
        state(INITIAL_COIN_BALANCE, INITIAL_PC_BALANCE, 0, 0),
        state(INITIAL_COIN_BALANCE + 1, INITIAL_PC_BALANCE, 0, 0),
        state(INITIAL_COIN_BALANCE - 1, INITIAL_PC_BALANCE, 0, 0),
    ];
    assert_eq!(
        check_run(&world, 0, 0, &bounds),
        Err(Violation::GainedTooMuch { owner: OwnerId(1), asset: Asset::Coin, gained: 1, bound: 0 })
    );
    assert_eq!(
        check_run(&world, 1, 0, &bounds),
        Err(Violation::NotConserved {
            asset: Asset::Coin,
            held: 3_000_000_001,
            expected: 3_000_000_000
        })
    );
}

#[test]
fn scenario_single_bid_then_wind_down() {
    let log = vec![
        place(1, Side::Bid, 10, 5),
        Action::MatchOrders(100),
        Action::ConsumeEvents(100),
        Action::CancelOrder { owner_id: OwnerId(1), slot: 0, by_client_id: false },
        Action::SettleFunds(OwnerId(1)),
    ];
    let bounds = compute_bounds(&log);
    assert_eq!(bounds.coin_gained.ceiling(OwnerId(1)), 1_000_000);
    assert_eq!(bounds.pc_spent.ceiling(OwnerId(1)), 5_050);
    assert_eq!(bounds.coin_spent.ceiling(OwnerId(1)), 0);
    assert_eq!(bounds.pc_gained.ceiling(OwnerId(1)), 0);
    let mut world: Vec<Option<OwnerState>> = Vec::new();
    let first = plan_action(log[0], &world).unwrap();
    assert_eq!(first.provision, Some(OwnerId(1)));
    world = vec![None, state(INITIAL_COIN_BALANCE, INITIAL_PC_BALANCE, 0, 0)];
    assert!(plan_action(log[1], &world).is_some());
    assert!(plan_action(log[2], &world).is_some());
    assert!(plan_action(log[3], &world).is_none());
    assert!(plan_action(log[4], &world).is_some());
    assert_eq!(
        liquidation_plan(&world),
        vec![
            Action::MatchOrders(100),
            Action::ConsumeEvents(100),
            Action::SettleFunds(OwnerId(1)),
        ]
    );
    assert_eq!(check_run(&world, 0, 0, &bounds), Ok(()));
}

#[test]
fn scenario_cancel_for_owner_never_provisioned() {
    let log = vec![Action::CancelOrder { owner_id: OwnerId(7), slot: 0, by_client_id: false }];
    let bounds = compute_bounds(&log);
    let world: Vec<Option<OwnerState>> = Vec::new();
    assert!(plan_action(log[0], &world).is_none());
    assert_eq!(
        liquidation_plan(&world),
        vec![Action::MatchOrders(100), Action::ConsumeEvents(100)]
    );
    assert!(plan_action(Action::ConsumeEvents(100), &world).is_none());
    assert_eq!(check_run(&world, 0, 0, &bounds), Ok(()));
}

#[test]
fn scenario_crossing_orders_conserve_value() {
    let log = vec![
        place(1, Side::Bid, 10, 5),
        place(2, Side::Ask, 10, 5),
        Action::MatchOrders(100),
        Action::ConsumeEvents(100),
    ];
    let bounds = compute_bounds(&log);
    let fee: u64 = 11;
    let rebate: u64 = 1;
    let world = vec![
        None,
        state(INITIAL_COIN_BALANCE + 1_000_000, INITIAL_PC_BALANCE - 5_000 - fee, 0, 0),
        state(INITIAL_COIN_BALANCE - 1_000_000, INITIAL_PC_BALANCE + 5_000 + rebate, 0, 0),
    ];
    assert_eq!(check_run(&world, 0, fee - rebate, &bounds), Ok(()));
    assert_eq!(
        check_run(&world, 0, fee, &bounds),
        Err(Violation::NotConserved {
            asset: Asset::Pc,
            held: 6_000_000_001,
            expected: 6_000_000_000
        })
    );
}

#[test]
fn coin_summary_adds_up() {
    let world = vec![
        None,
        state(100, 7, 30, 0),
        Some(OwnerState { orders_key: (0, 0, 0, 0), coin_balance: 5, pc_balance: 0, open_orders: None }),
        state(u64::MAX, 0, u64::MAX, 1),
    ];
    let summary = dex_harness::diagnostics::coin_summary(&world, 11);
    let max = u64::MAX as u128;
    assert_eq!(summary.free, 30 + max);
    assert_eq!(summary.free_and_locked, 30 + max);
    assert_eq!(summary.locked, Some(0));
    assert_eq!(summary.balances, 105 + max);
    assert_eq!(summary.fees, 11);
    assert_eq!(summary.total, 30 + max + 105 + max + 11);
    let mut odd = state(0, 0, 0, 0);
    if let Some(s) = odd.as_mut() {
        if let Some(o) = s.open_orders.as_mut() {
            o.native_coin_free = 9;
            o.native_coin_total = 4;
        }
    }
    let summary = dex_harness::diagnostics::coin_summary(&vec![odd], 0);
    assert_eq!(summary.locked, None);
    assert_eq!(summary.total, 4);
    let mut locked = state(1, 0, 0, 0);
    if let Some(s) = locked.as_mut() {
        if let Some(o) = s.open_orders.as_mut() {
            o.native_coin_free = 4;
            o.native_coin_total = 9;
        }
    }
    let summary = dex_harness::diagnostics::coin_summary(&vec![locked], 2);
    assert_eq!(summary.locked, Some(5));
    assert_eq!(summary.total, 12);
}
