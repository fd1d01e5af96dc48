use dex_harness::action::{Action, OrderParams, OrderType, OwnerId, Side};
use dex_harness::executor::{
    classify_outcome, plan_action, AccountRef, Dispatch, ExchangeError, Failure, Instruction,
    Verdict,
};
use dex_harness::world::{OpenOrders, OrderSlot, OwnerState};

fn free_slots() -> Vec<OrderSlot> {
    let mut slots = Vec::new();
    for _ in 0..128 {
        slots.push(OrderSlot { side: None, order_id: 0, client_order_id: 0 });
    }
    slots
}

fn owner_with(slots: Vec<OrderSlot>, key: (u64, u64, u64, u64)) -> Option<OwnerState> {
    Some(OwnerState {
        orders_key: key,
        coin_balance: 1_000_000_000,
        pc_balance: 3_000_000_000,
        open_orders: Some(OpenOrders {
            slots,
            native_coin_free: 0,
            native_coin_total: 0,
            native_pc_free: 0,
            native_pc_total: 0,
        }),
    })
}

fn owner_without_record(key: (u64, u64, u64, u64)) -> Option<OwnerState> {
    Some(OwnerState {
        orders_key: key,
        coin_balance: 1_000_000_000,
        pc_balance: 3_000_000_000,
        open_orders: None,
    })
}

fn call_for(instruction: Instruction, expects_zero_id: bool) -> Dispatch {
    Dispatch { provision: None, instruction, accounts: Vec::new(), expects_zero_id }
}

#[test]
fn place_bid_pays_from_the_quote_holding() {
    let params = OrderParams::new(Side::Bid, 5, 10, OrderType::Limit, 0).unwrap();
    let call = plan_action(
        Action::PlaceOrder { owner_id: OwnerId(1), instruction: params },
        &Vec::new(),
    )
    .unwrap();
    assert_eq!(call.provision, Some(OwnerId(1)));
    assert_eq!(call.instruction, Instruction::NewOrder(params));
    assert!(!call.expects_zero_id);
    assert_eq!(
        call.accounts,
        vec![
            AccountRef::Market,
            AccountRef::OwnerOrders(OwnerId(1)),
            AccountRef::RequestQueue,
            AccountRef::OwnerPc(OwnerId(1)),
            AccountRef::OwnerSigner(OwnerId(1)),
            AccountRef::CoinVault,
            AccountRef::PcVault,
            AccountRef::TokenProgram,
            AccountRef::RentSysvar,
        ]
    );
}

#[test]
fn place_ask_pays_from_the_base_holding() {
    let params = OrderParams::new(Side::Ask, 5, 10, OrderType::Limit, 0).unwrap();
    let call = plan_action(
        Action::PlaceOrder { owner_id: OwnerId(2), instruction: params },
        &Vec::new(),
    )
    .unwrap();
    assert_eq!(call.accounts[3], AccountRef::OwnerCoin(OwnerId(2)));
    assert_eq!(call.accounts.len(), 9);
}

#[test]
fn cancel_of_unknown_owner_is_a_no_op() {
    let action = Action::CancelOrder { owner_id: OwnerId(7), slot: 0, by_client_id: false };
    assert!(plan_action(action, &Vec::new()).is_none());
    let world = vec![None, None, None, None, None, None, None, None];
    assert!(plan_action(action, &world).is_none());
}

#[test]
fn cancel_without_record_or_of_free_slot_is_a_no_op() {
    let world = vec![owner_without_record((1, 0, 0, 0)), owner_with(free_slots(), (2, 0, 0, 0))];
    let a = Action::CancelOrder { owner_id: OwnerId(0), slot: 0, by_client_id: false };
    let b = Action::CancelOrder { owner_id: OwnerId(1), slot: 5, by_client_id: true };
    assert!(plan_action(a, &world).is_none());
    assert!(plan_action(b, &world).is_none());
}

#[test]
fn cancel_of_slot_out_of_range_is_a_no_op() {
    let mut slots = free_slots();
    slots[127] = OrderSlot { side: Some(Side::Bid), order_id: 9, client_order_id: 1 };
    let world = vec![owner_with(slots, (1, 0, 0, 0))];
    let inside = Action::CancelOrder { owner_id: OwnerId(0), slot: 127, by_client_id: false };
    let outside = Action::CancelOrder { owner_id: OwnerId(0), slot: 128, by_client_id: false };
    assert!(plan_action(inside, &world).is_some());
    assert!(plan_action(outside, &world).is_none());
    let last = Action::CancelOrder { owner_id: OwnerId(0), slot: 255, by_client_id: false };
    assert!(plan_action(last, &world).is_none());
}

#[test]
fn cancel_by_order_id() {
    let mut slots = free_slots();
    slots[3] = OrderSlot { side: Some(Side::Ask), order_id: 77, client_order_id: 0 };
    let world = vec![None, owner_with(slots, (1, 0, 0, 0))];
    let action = Action::CancelOrder { owner_id: OwnerId(1), slot: 3, by_client_id: false };
    let call = plan_action(action, &world).unwrap();
    assert_eq!(call.provision, None);
    assert_eq!(
        call.instruction,
        Instruction::CancelOrder { side: Side::Ask, order_id: 77, owner_slot: 3 }
    );
    assert!(!call.expects_zero_id);
    assert_eq!(
        call.accounts,
        vec![
            AccountRef::Market,
            AccountRef::OwnerOrders(OwnerId(1)),
            AccountRef::RequestQueue,
            AccountRef::OwnerSigner(OwnerId(1)),
        ]
    );
}

#[test]
fn cancel_by_client_id() {
    let mut slots = free_slots();
    slots[0] = OrderSlot { side: Some(Side::Bid), order_id: 5, client_order_id: 42 };
    let world = vec![owner_with(slots, (1, 0, 0, 0))];
    let action = Action::CancelOrder { owner_id: OwnerId(0), slot: 0, by_client_id: true };
    let call = plan_action(action, &world).unwrap();
    assert_eq!(call.instruction, Instruction::CancelOrderByClientId(42));
    assert!(!call.expects_zero_id);
}

#[test]
fn cancel_by_zero_client_id_expects_a_rejection() {
    let mut slots = free_slots();
    slots[0] = OrderSlot { side: Some(Side::Bid), order_id: 5, client_order_id: 0 };
    let world = vec![owner_with(slots, (1, 0, 0, 0))];
    let action = Action::CancelOrder { owner_id: OwnerId(0), slot: 0, by_client_id: true };
    let call = plan_action(action, &world).unwrap();
    assert_eq!(call.instruction, Instruction::CancelOrderByClientId(0));
    assert!(call.expects_zero_id);
    assert_eq!(
        classify_outcome(&call, Err(ExchangeError::ClientOrderIdIsZero)),
        Verdict::Absorbed
    );
    assert_eq!(classify_outcome(&call, Ok(())), Verdict::Fatal(Failure::ZeroClientIdAccepted));
}

#[test]
fn match_orders_accounts() {
    let call = plan_action(Action::MatchOrders(100), &Vec::new()).unwrap();
    assert_eq!(call.instruction, Instruction::MatchOrders(100));
    assert_eq!(
        call.accounts,
        vec![
            AccountRef::Market,
            AccountRef::RequestQueue,
            AccountRef::EventQueue,
            AccountRef::Bids,
            AccountRef::Asks,
            AccountRef::CoinVault,
            AccountRef::PcVault,
        ]
    );
}

#[test]
fn consume_events_without_live_records_is_a_no_op() {
    assert!(plan_action(Action::ConsumeEvents(100), &Vec::new()).is_none());
    let world = vec![None, owner_without_record((3, 0, 0, 0))];
    assert!(plan_action(Action::ConsumeEvents(100), &world).is_none());
}

#[test]
fn consume_events_orders_records_by_key() {
    let world = vec![
        owner_with(free_slots(), (9, 0, 0, 0)),
        owner_without_record((0, 0, 0, 0)),
        owner_with(free_slots(), (2, 5, 0, 0)),
        None,
        owner_with(free_slots(), (2, 4, 9, 9)),
    ];
    let call = plan_action(Action::ConsumeEvents(17), &world).unwrap();
    assert_eq!(call.instruction, Instruction::ConsumeEvents(17));
    assert_eq!(call.provision, None);
    assert_eq!(
        call.accounts,
        vec![
            AccountRef::OwnerOrders(OwnerId(4)),
            AccountRef::OwnerOrders(OwnerId(2)),
            AccountRef::OwnerOrders(OwnerId(0)),
            AccountRef::Market,
            AccountRef::EventQueue,
            AccountRef::CoinVault,
            AccountRef::PcVault,
        ]
    );
}

#[test]
fn settle_needs_a_known_owner_with_a_record() {
    let world = vec![owner_without_record((1, 0, 0, 0)), owner_with(free_slots(), (2, 0, 0, 0))];
    assert!(plan_action(Action::SettleFunds(OwnerId(0)), &world).is_none());
    assert!(plan_action(Action::SettleFunds(OwnerId(5)), &world).is_none());
    let call = plan_action(Action::SettleFunds(OwnerId(1)), &world).unwrap();
    assert_eq!(call.instruction, Instruction::SettleFunds);
    assert_eq!(
        call.accounts,
        vec![
            AccountRef::Market,
            AccountRef::OwnerOrders(OwnerId(1)),
            AccountRef::OwnerSigner(OwnerId(1)),
            AccountRef::CoinVault,
            AccountRef::PcVault,
            AccountRef::OwnerCoin(OwnerId(1)),
            AccountRef::OwnerPc(OwnerId(1)),
            AccountRef::VaultSigner,
            AccountRef::TokenProgram,
        ]
    );
}

#[test]
fn new_order_rejections() {
    let params = OrderParams::new(Side::Bid, 5, 10, OrderType::Limit, 0).unwrap();
    let call = call_for(Instruction::NewOrder(params), false);
    assert_eq!(classify_outcome(&call, Ok(())), Verdict::Done);
    assert_eq!(classify_outcome(&call, Err(ExchangeError::InsufficientFunds)), Verdict::Absorbed);
    assert_eq!(classify_outcome(&call, Err(ExchangeError::RequestQueueFull)), Verdict::Absorbed);
    assert_eq!(
        classify_outcome(&call, Err(ExchangeError::ClientOrderIdIsZero)),
        Verdict::Fatal(Failure::Rejected(ExchangeError::ClientOrderIdIsZero))
    );
    assert_eq!(
        classify_outcome(&call, Err(ExchangeError::Other(3))),
        Verdict::Fatal(Failure::Rejected(ExchangeError::Other(3)))
    );
}

#[test]
fn cancel_rejections() {
    let by_id = call_for(
        Instruction::CancelOrder { side: Side::Bid, order_id: 1, owner_slot: 0 },
        false,
    );
    assert_eq!(classify_outcome(&by_id, Ok(())), Verdict::Done);
    assert_eq!(classify_outcome(&by_id, Err(ExchangeError::RequestQueueFull)), Verdict::Absorbed);
    assert_eq!(
        classify_outcome(&by_id, Err(ExchangeError::InsufficientFunds)),
        Verdict::Fatal(Failure::Rejected(ExchangeError::InsufficientFunds))
    );
    assert_eq!(
        classify_outcome(&by_id, Err(ExchangeError::ClientOrderIdIsZero)),
        Verdict::Fatal(Failure::Rejected(ExchangeError::ClientOrderIdIsZero))
    );
    let by_client = call_for(Instruction::CancelOrderByClientId(0), true);
    assert_eq!(
        classify_outcome(&by_client, Err(ExchangeError::RequestQueueFull)),
        Verdict::Absorbed
    );
}

#[test]
fn global_instructions_tolerate_no_rejection() {
    for instruction in
        [Instruction::MatchOrders(1), Instruction::ConsumeEvents(1), Instruction::SettleFunds]
    {
        let call = call_for(instruction, false);
        assert_eq!(classify_outcome(&call, Ok(())), Verdict::Done);
        assert_eq!(
            classify_outcome(&call, Err(ExchangeError::RequestQueueFull)),
            Verdict::Fatal(Failure::Rejected(ExchangeError::RequestQueueFull))
        );
        assert_eq!(
            classify_outcome(&call, Err(ExchangeError::InsufficientFunds)),
            Verdict::Fatal(Failure::Rejected(ExchangeError::InsufficientFunds))
        );
    }
}

#[test]
fn consume_events_keeps_table_order_among_equal_keys() {
    let world = vec![
        owner_with(free_slots(), (5, 5, 5, 5)),
        owner_with(free_slots(), (5, 5, 5, 4)),
        None,
        owner_with(free_slots(), (5, 5, 5, 5)),
        owner_with(free_slots(), (0, 9, 9, 9)),
        owner_with(free_slots(), (5, 5, 5, 5)),
    ];
    let call = plan_action(Action::ConsumeEvents(1), &world).unwrap();
    assert_eq!(
        call.accounts[..5],
        [
            AccountRef::OwnerOrders(OwnerId(4)),
            AccountRef::OwnerOrders(OwnerId(1)),
            AccountRef::OwnerOrders(OwnerId(0)),
            AccountRef::OwnerOrders(OwnerId(3)),
            AccountRef::OwnerOrders(OwnerId(5)),
        ]
    );
    assert_eq!(call.accounts.len(), 9);
}
