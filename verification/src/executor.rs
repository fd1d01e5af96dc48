//! Planning of the exchange instruction for one action, with the ordered
//! account list that the exchange's protocol asks for, and the judgement of
//! what the exchange answered.

use crate::action::{Action, OrderParams, OwnerId, Side};
use crate::world::{
    addressable, live_orders, lookup_orders, AccountKey, OrderSlot, OwnerState, OPEN_ORDER_SLOTS,
    OWNER_TABLE_LIMIT,
};
use itertools::Itertools;
use vstd::prelude::*;

verus! {

/// An account handed to the exchange, named by its role.
#[derive(Debug, Clone, Copy, PartialEq, Eq, Structural)]
pub enum AccountRef {
    Market,
    RequestQueue,
    EventQueue,
    Bids,
    Asks,
    CoinVault,
    PcVault,
    VaultSigner,
    TokenProgram,
    RentSysvar,
    OwnerOrders(OwnerId),
    OwnerSigner(OwnerId),
    OwnerCoin(OwnerId),
    OwnerPc(OwnerId),
}

/// An instruction of the exchange. A cancellation by order id carries owner
/// words that are all zero on the wire.
#[derive(Debug, Clone, Copy, PartialEq, Eq, Structural)]
pub enum Instruction {
    NewOrder(OrderParams),
    CancelOrder { side: Side, order_id: u128, owner_slot: u8 },
    CancelOrderByClientId(u64),
    MatchOrders(u16),
    ConsumeEvents(u16),
    SettleFunds,
}

/// One call of the exchange: the participant to provision before it, if any,
/// the instruction, its accounts in protocol order, and whether the exchange
/// is expected to refuse it for a zero client order id.
#[derive(Debug)]
pub struct Dispatch {
    pub provision: Option<OwnerId>,
    pub instruction: Instruction,
    pub accounts: Vec<AccountRef>,
    pub expects_zero_id: bool,
}

/// A `Dispatch` with its account list as a sequence.
pub struct DispatchView {
    pub provision: Option<OwnerId>,
    pub instruction: Instruction,
    pub accounts: Seq<AccountRef>,
    pub expects_zero_id: bool,
}

impl View for Dispatch {
    type V = DispatchView;

    open spec fn view(&self) -> DispatchView {
        DispatchView {
            provision: self.provision,
            instruction: self.instruction,
            accounts: self.accounts@,
            expects_zero_id: self.expects_zero_id,
        }
    }
}

/// The view of an optional call.
pub open spec fn call_view(call: Option<Dispatch>) -> Option<DispatchView> {
    match call {
        Some(d) => Some(d@),
        None => None,
    }
}

/// Accounts of a new order: the quote holding pays for a bid, the base
/// holding for an ask.
pub open spec fn place_accounts(owner: OwnerId, side: Side) -> Seq<AccountRef> {
    seq![
        AccountRef::Market,
        AccountRef::OwnerOrders(owner),
        AccountRef::RequestQueue,
        if side == Side::Bid { AccountRef::OwnerPc(owner) } else { AccountRef::OwnerCoin(owner) },
        AccountRef::OwnerSigner(owner),
        AccountRef::CoinVault,
        AccountRef::PcVault,
        AccountRef::TokenProgram,
        AccountRef::RentSysvar,
    ]
}

/// Accounts of a cancellation.
pub open spec fn cancel_accounts(owner: OwnerId) -> Seq<AccountRef> {
    seq![
        AccountRef::Market,
        AccountRef::OwnerOrders(owner),
        AccountRef::RequestQueue,
        AccountRef::OwnerSigner(owner),
    ]
}

/// Accounts of a matching round.
pub open spec fn match_accounts() -> Seq<AccountRef> {
    seq![
        AccountRef::Market,
        AccountRef::RequestQueue,
        AccountRef::EventQueue,
        AccountRef::Bids,
        AccountRef::Asks,
        AccountRef::CoinVault,
        AccountRef::PcVault,
    ]
}

/// Accounts that follow the open-order records when events are consumed.
pub open spec fn consume_tail() -> Seq<AccountRef> {
    seq![AccountRef::Market, AccountRef::EventQueue, AccountRef::CoinVault, AccountRef::PcVault]
}

/// Accounts of a settlement.
pub open spec fn settle_accounts(owner: OwnerId) -> Seq<AccountRef> {
    seq![
        AccountRef::Market,
        AccountRef::OwnerOrders(owner),
        AccountRef::OwnerSigner(owner),
        AccountRef::CoinVault,
        AccountRef::PcVault,
        AccountRef::OwnerCoin(owner),
        AccountRef::OwnerPc(owner),
        AccountRef::VaultSigner,
        AccountRef::TokenProgram,
    ]
}

/// The occupied slot that a cancellation refers to: `None` where the slot is
/// out of range, the participant unknown or without a record, or the slot
/// free.
pub open spec fn resident_order(owners: Seq<Option<OwnerState>>, owner: OwnerId, slot: u8) -> Option<
    (Side, OrderSlot),
> {
    match live_orders(owners, owner) {
        Some(orders) => if slot < OPEN_ORDER_SLOTS && slot < orders.slots@.len() {
            match orders.slots@[slot as int].side {
                Some(side) => Some((side, orders.slots@[slot as int])),
                None => None,
            }
        } else {
            None
        },
        None => None,
    }
}

/// The call that places an order: the participant is provisioned first.
pub open spec fn place_call(owner_id: OwnerId, instruction: OrderParams) -> DispatchView {
    DispatchView {
        provision: Some(owner_id),
        instruction: Instruction::NewOrder(instruction),
        accounts: place_accounts(owner_id, instruction.side),
        expects_zero_id: false,
    }
}

/// The call that runs a matching round.
pub open spec fn match_call(limit: u16) -> DispatchView {
    DispatchView {
        provision: None,
        instruction: Instruction::MatchOrders(limit),
        accounts: match_accounts(),
        expects_zero_id: false,
    }
}

/// The call that an action other than consuming events leads to, or `None`
/// where the action is a no-op.
pub open spec fn planned(action: Action, owners: Seq<Option<OwnerState>>) -> Option<DispatchView> {
    match action {
        Action::PlaceOrder { owner_id, instruction } => Some(place_call(owner_id, instruction)),
        Action::CancelOrder { owner_id, slot, by_client_id } => match resident_order(
            owners,
            owner_id,
            slot,
        ) {
            Some((side, entry)) => Some(
                DispatchView {
                    provision: None,
                    instruction: if by_client_id {
                        Instruction::CancelOrderByClientId(entry.client_order_id)
                    } else {
                        Instruction::CancelOrder { side, order_id: entry.order_id, owner_slot: slot }
                    },
                    accounts: cancel_accounts(owner_id),
                    expects_zero_id: by_client_id && entry.client_order_id == 0,
                },
            ),
            None => None,
        },
        Action::MatchOrders(limit) => Some(match_call(limit)),
        Action::ConsumeEvents(limit) => None,
        Action::SettleFunds(owner_id) => match live_orders(owners, owner_id) {
            Some(orders) => Some(
                DispatchView {
                    provision: None,
                    instruction: Instruction::SettleFunds,
                    accounts: settle_accounts(owner_id),
                    expects_zero_id: false,
                },
            ),
            None => None,
        },
    }
}

/// Order of account keys: word by word, the first word weighing most.
pub open spec fn key_le(a: AccountKey, b: AccountKey) -> bool {
    a.0 < b.0 || (a.0 == b.0 && (a.1 < b.1 || (a.1 == b.1 && (a.2 < b.2 || (a.2 == b.2 && a.3
        <= b.3)))))
}

/// Whether the keys of the entries never descend.
pub open spec fn keys_ascending(entries: Seq<(AccountKey, u8)>) -> bool {
    forall|i: int, j: int|
        0 <= i < j < entries.len() ==> key_le(#[trigger] entries[i].0, #[trigger] entries[j].0)
}

/// The entries with a given key, in the order in which they stand.
pub open spec fn with_key(entries: Seq<(AccountKey, u8)>, key: AccountKey) -> Seq<(AccountKey, u8)> {
    entries.filter(|entry: (AccountKey, u8)| entry.0 == key)
}

/// Whether `sorted` is `entries` sorted stably by key: the same entries, in
/// ascending order of their keys, those of equal key in their old order.
pub open spec fn sorted_stably(sorted: Seq<(AccountKey, u8)>, entries: Seq<(AccountKey, u8)>) -> bool {
    &&& sorted.to_multiset() == entries.to_multiset()
    &&& sorted.len() == entries.len()
    &&& keys_ascending(sorted)
    &&& forall|key: AccountKey| #[trigger] with_key(sorted, key) == with_key(entries, key)
}

/// Key and identifier of each of the first `n` participants that has an
/// open-order record, in table order.
pub open spec fn live_entries(owners: Seq<Option<OwnerState>>, n: int) -> Seq<(AccountKey, u8)>
    decreases n,
{
    if n <= 0 {
        Seq::empty()
    } else {
        let before = live_entries(owners, n - 1);
        match live_orders(owners, OwnerId((n - 1) as u8)) {
            Some(orders) => before.push((owners[n - 1].unwrap().orders_key, (n - 1) as u8)),
            None => before,
        }
    }
}

/// Whether `call` is what consuming events with `limit` leads to: nothing
/// where no participant has an open-order record; else the records of all
/// such participants, each once, in ascending order of their keys and, for
/// equal keys, of their identifiers, followed by the market's accounts.
pub open spec fn consume_planned(
    owners: Seq<Option<OwnerState>>,
    limit: u16,
    call: Option<DispatchView>,
) -> bool {
    let live = live_entries(owners, addressable(owners));
    match call {
        None => live.len() == 0,
        Some(d) => {
            &&& live.len() > 0
            &&& d.provision.is_none()
            &&& !d.expects_zero_id
            &&& d.instruction == Instruction::ConsumeEvents(limit)
            &&& d.accounts.len() == live.len() + 4
            &&& d.accounts.subrange(live.len() as int, (live.len() + 4) as int) == consume_tail()
            &&& exists|sorted: Seq<(AccountKey, u8)>|
                {
                    &&& sorted_stably(sorted, live)
                    &&& forall|i: int|
                        0 <= i < sorted.len() ==> #[trigger] d.accounts[i]
                            == AccountRef::OwnerOrders(OwnerId(sorted[i].1))
                }
        },
    }
}

/// Whether `call` is what `action` leads to in the state `owners`.
pub open spec fn plan_matches(
    action: Action,
    owners: Seq<Option<OwnerState>>,
    call: Option<DispatchView>,
) -> bool {
    match action {
        Action::ConsumeEvents(limit) => consume_planned(owners, limit, call),
        _ => call == planned(action, owners),
    }
}

/// Sorts entries by their key with `itertools::Itertools::sorted_by_key`,
/// which sorts stably in ascending order of the key: the result holds the
/// same entries as the argument, as often, its keys never descend, and
/// entries of equal key keep their order.
#[verifier::external_body]
fn sorted_by_account_key(entries: Vec<(AccountKey, u8)>) -> (out: Vec<(AccountKey, u8)>)
    ensures
        sorted_stably(out@, entries@),
{
    entries.into_iter().sorted_by_key(|entry| entry.0).collect()
}

/// Plans the placing of an order.
pub fn plan_place_order(owner_id: OwnerId, instruction: OrderParams) -> (call: Dispatch)
    ensures
        call@ == place_call(owner_id, instruction),
{
    let payer = match instruction.side {
        Side::Bid => AccountRef::OwnerPc(owner_id),
        Side::Ask => AccountRef::OwnerCoin(owner_id),
    };
    let accounts = vec![
        AccountRef::Market,
        AccountRef::OwnerOrders(owner_id),
        AccountRef::RequestQueue,
        payer,
        AccountRef::OwnerSigner(owner_id),
        AccountRef::CoinVault,
        AccountRef::PcVault,
        AccountRef::TokenProgram,
        AccountRef::RentSysvar,
    ];
    proof {
        assert(accounts@ =~= place_accounts(owner_id, instruction.side));
    }
    Dispatch {
        provision: Some(owner_id),
        instruction: Instruction::NewOrder(instruction),
        accounts,
        expects_zero_id: false,
    }
}

/// Plans a cancellation: a no-op unless the slot holds an order of a known
/// participant. A cancellation by a client order id of zero is sent and
/// marked as one that the exchange must refuse.
pub fn plan_cancel_order(
    owners: &Vec<Option<OwnerState>>,
    owner_id: OwnerId,
    slot: u8,
    by_client_id: bool,
) -> (call: Option<Dispatch>)
    ensures
        call_view(call) == planned(Action::CancelOrder { owner_id, slot, by_client_id }, owners@),
{
    if slot >= OPEN_ORDER_SLOTS {
        return None;
    }
    let orders = match lookup_orders(owners, owner_id) {
        Some(orders) => orders,
        None => {
            return None;
        },
    };
    if slot as usize >= orders.slots.len() {
        return None;
    }
    let entry: OrderSlot = orders.slots[slot as usize];
    let side = match entry.side {
        Some(side) => side,
        None => {
            return None;
        },
    };
    let instruction = if by_client_id {
        Instruction::CancelOrderByClientId(entry.client_order_id)
    } else {
        Instruction::CancelOrder { side, order_id: entry.order_id, owner_slot: slot }
    };
    let accounts = vec![
        AccountRef::Market,
        AccountRef::OwnerOrders(owner_id),
        AccountRef::RequestQueue,
        AccountRef::OwnerSigner(owner_id),
    ];
    proof {
        assert(accounts@ =~= cancel_accounts(owner_id));
    }
    Some(
        Dispatch {
            provision: None,
            instruction,
            accounts,
            expects_zero_id: by_client_id && entry.client_order_id == 0,
        },
    )
}

/// Plans a matching round.
pub fn plan_match_orders(limit: u16) -> (call: Dispatch)
    ensures
        call@ == match_call(limit),
{
    let accounts = vec![
        AccountRef::Market,
        AccountRef::RequestQueue,
        AccountRef::EventQueue,
        AccountRef::Bids,
        AccountRef::Asks,
        AccountRef::CoinVault,
        AccountRef::PcVault,
    ];
    proof {
        assert(accounts@ =~= match_accounts());
    }
    Dispatch {
        provision: None,
        instruction: Instruction::MatchOrders(limit),
        accounts,
        expects_zero_id: false,
    }
}

/// Plans the consuming of events: a no-op where no participant has an
/// open-order record.
pub fn plan_consume_events(owners: &Vec<Option<OwnerState>>, limit: u16) -> (call: Option<Dispatch>)
    ensures
        consume_planned(owners@, limit, call_view(call)),
{
    let n: usize = if owners.len() <= OWNER_TABLE_LIMIT {
        owners.len()
    } else {
        OWNER_TABLE_LIMIT
    };
    let mut entries: Vec<(AccountKey, u8)> = Vec::new();
    let mut i: usize = 0;
    while i < n
        invariant
            n == addressable(owners@),
            i <= n,
            entries@ == live_entries(owners@, i as int),
        decreases n - i,
    {
        match &owners[i] {
            Some(state) => {
                if state.open_orders.is_some() {
                    entries.push((state.orders_key, i as u8));
                }
            },
            None => {},
        }
        i += 1;
    }
    if entries.len() == 0 {
        return None;
    }
    let ghost live = entries@;
    let sorted = sorted_by_account_key(entries);
    let mut accounts: Vec<AccountRef> = Vec::new();
    let mut k: usize = 0;
    while k < sorted.len()
        invariant
            k <= sorted.len(),
            accounts@.len() == k,
            forall|j: int|
                0 <= j < k ==> #[trigger] accounts@[j] == AccountRef::OwnerOrders(
                    OwnerId(sorted@[j].1),
                ),
        decreases sorted.len() - k,
    {
        accounts.push(AccountRef::OwnerOrders(OwnerId(sorted[k].1)));
        k += 1;
    }
    accounts.push(AccountRef::Market);
    accounts.push(AccountRef::EventQueue);
    accounts.push(AccountRef::CoinVault);
    accounts.push(AccountRef::PcVault);
    proof {
        assert(accounts@.subrange(live.len() as int, (live.len() + 4) as int) =~= consume_tail());
    }
    let call = Dispatch {
        provision: None,
        instruction: Instruction::ConsumeEvents(limit),
        accounts,
        expects_zero_id: false,
    };
    proof {
        let d = call@;
        assert(sorted_stably(sorted@, live));
        assert(forall|i: int|
            0 <= i < sorted@.len() ==> #[trigger] d.accounts[i] == AccountRef::OwnerOrders(
                OwnerId(sorted@[i].1),
            ));
    }
    Some(call)
}

/// Plans a settlement: a no-op unless the participant is known and has an
/// open-order record.
pub fn plan_settle_funds(owners: &Vec<Option<OwnerState>>, owner_id: OwnerId) -> (call: Option<
    Dispatch,
>)
    ensures
        call_view(call) == planned(Action::SettleFunds(owner_id), owners@),
{
    match lookup_orders(owners, owner_id) {
        Some(orders) => {
            let accounts = vec![
                AccountRef::Market,
                AccountRef::OwnerOrders(owner_id),
                AccountRef::OwnerSigner(owner_id),
                AccountRef::CoinVault,
                AccountRef::PcVault,
                AccountRef::OwnerCoin(owner_id),
                AccountRef::OwnerPc(owner_id),
                AccountRef::VaultSigner,
                AccountRef::TokenProgram,
            ];
            proof {
                assert(accounts@ =~= settle_accounts(owner_id));
            }
            Some(
                Dispatch {
                    provision: None,
                    instruction: Instruction::SettleFunds,
                    accounts,
                    expects_zero_id: false,
                },
            )
        },
        None => None,
    }
}

/// Plans the call that one action leads to, given what the exchange
/// holds for each participant; `None` for an action that is a no-op there.
pub fn plan_action(action: Action, owners: &Vec<Option<OwnerState>>) -> (call: Option<Dispatch>)
    ensures
        plan_matches(action, owners@, call_view(call)),
{
    match action {
        Action::PlaceOrder { owner_id, instruction } => Some(
            plan_place_order(owner_id, instruction),
        ),
        Action::CancelOrder { owner_id, slot, by_client_id } => plan_cancel_order(
            owners,
            owner_id,
            slot,
            by_client_id,
        ),
        Action::MatchOrders(limit) => Some(plan_match_orders(limit)),
        Action::ConsumeEvents(limit) => plan_consume_events(owners, limit),
        Action::SettleFunds(owner_id) => plan_settle_funds(owners, owner_id),
    }
}

/// A refusal of the exchange. `Other` carries the code of any refusal that
/// the harness does not single out.
#[derive(Debug, Clone, Copy, PartialEq, Eq, Structural)]
pub enum ExchangeError {
    InsufficientFunds,
    RequestQueueFull,
    ClientOrderIdIsZero,
    Other(u32),
}

/// Why a run was aborted after a call.
#[derive(Debug, Clone, Copy, PartialEq, Eq, Structural)]
pub enum Failure {
    /// The exchange refused the call for a reason that is not tolerated.
    Rejected(ExchangeError),
    /// The exchange accepted a cancellation by a client order id of zero.
    ZeroClientIdAccepted,
}

/// Judgement of what the exchange answered to a call.
#[derive(Debug, Clone, Copy, PartialEq, Eq, Structural)]
pub enum Verdict {
    /// The call succeeded.
    Done,
    /// The exchange refused the call in a way that is expected.
    Absorbed,
    /// The run must be aborted.
    Fatal(Failure),
}

/// Whether a refusal is expected of the given instruction. Insufficient funds
/// are tolerated of a new order, a full request queue of a new order and of
/// a cancellation, and a zero client order id of a cancellation that was
/// marked as expecting it.
pub open spec fn tolerated(
    instruction: Instruction,
    expects_zero_id: bool,
    error: ExchangeError,
) -> bool {
    match instruction {
        Instruction::NewOrder(_) => error == ExchangeError::InsufficientFunds || error
            == ExchangeError::RequestQueueFull,
        Instruction::CancelOrder { .. } | Instruction::CancelOrderByClientId(_) => error
            == ExchangeError::RequestQueueFull || (expects_zero_id && error
            == ExchangeError::ClientOrderIdIsZero),
        _ => false,
    }
}

/// The judgement that an answer of the exchange calls for.
pub open spec fn verdict_of(
    instruction: Instruction,
    expects_zero_id: bool,
    outcome: Result<(), ExchangeError>,
) -> Verdict {
    match outcome {
        Ok(_) => if expects_zero_id && (instruction is CancelOrder
            || instruction is CancelOrderByClientId) {
            Verdict::Fatal(Failure::ZeroClientIdAccepted)
        } else {
            Verdict::Done
        },
        Err(error) => if tolerated(instruction, expects_zero_id, error) {
            Verdict::Absorbed
        } else {
            Verdict::Fatal(Failure::Rejected(error))
        },
    }
}

/// Judges the exchange's answer to a call: expected refusals are absorbed,
/// every other refusal is fatal, and so is the acceptance of a cancellation
/// that had to be refused.
pub fn classify_outcome(call: &Dispatch, outcome: Result<(), ExchangeError>) -> (verdict: Verdict)
    ensures
        verdict == verdict_of(call.instruction, call.expects_zero_id, outcome),
{
    let cancels = match call.instruction {
        Instruction::CancelOrder { .. } => true,
        Instruction::CancelOrderByClientId(_) => true,
        _ => false,
    };
    let places = match call.instruction {
        Instruction::NewOrder(_) => true,
        _ => false,
    };
    match outcome {
        Ok(_) => {
            if call.expects_zero_id && cancels {
                Verdict::Fatal(Failure::ZeroClientIdAccepted)
            } else {
                Verdict::Done
            }
        },
        Err(error) => {
            let absorbed = match error {
                ExchangeError::InsufficientFunds => places,
                ExchangeError::RequestQueueFull => places || cancels,
                ExchangeError::ClientOrderIdIsZero => cancels && call.expects_zero_id,
                ExchangeError::Other(_) => false,
            };
            if absorbed {
                Verdict::Absorbed
            } else {
                Verdict::Fatal(Failure::Rejected(error))
            }
        },
    }
}

} // verus!
