//! The order book: every order ever accepted, the subset still working, and
//! the lifecycle events that evolve them. Events are applied one at a time
//! in arrival order; the meaning of each is given by `step`.
use vstd::prelude::*;
use std::collections::HashMap;
use crate::ambient::{lemma_fresh_id_not_nil, new_uuid, now_millis};
use crate::exchange::Exchange;
use super::router::OrderRouter;
use super::{first_violation, order_is_valid, transition_allowed, validate_order, Order, OrderStatus};

verus! {

broadcast use vstd::std_specs::hash::group_hash_axioms;

/// A change requested for, or observed on, an order.
pub enum OrderEvent {
    New(Order),
    Update {
        order_id: u128,
        status: Option<OrderStatus>,
        filled_qty: Option<i64>,
        avg_fill_price: Option<i64>,
    },
    Cancel { order_id: u128, reason: String },
    Reject { order_id: u128, reason: String },
    Error { order_id: Option<u128>, message: String },
}

/// What applying one event did.
#[derive(Debug, Clone, Copy, PartialEq, Eq, Structural)]
pub enum EventOutcome {
    /// The order was changed.
    Applied,
    /// The event asks for no change.
    Informational,
    /// No order has the event's identifier; the event was dropped.
    UnknownOrder,
    /// The change would break the state machine or the fill rules; the
    /// event was dropped.
    Refused,
}

/// `s` with every occurrence of `id` left out, order kept.
pub open spec fn without(s: Seq<u128>, id: u128) -> Seq<u128>
    decreases s.len(),
{
    if s.len() == 0 {
        s
    } else if s.last() == id {
        without(s.drop_last(), id)
    } else {
        without(s.drop_last(), id).push(s.last())
    }
}

/// Execution state an order may hold: the filled amount lies between zero
/// and the quantity, an average fill price exists only once something is
/// filled, and a fill time only on a filled order.
pub open spec fn execution_ok(o: Order) -> bool {
    &&& 0 <= o.filled_quantity <= o.quantity
    &&& o.average_fill_price is Some ==> o.filled_quantity > 0
    &&& o.filled_at is Some ==> o.status == OrderStatus::Filled
}

/// Every stored order sits under its own identifier, passed validation and
/// holds consistent execution state.
pub open spec fn store_ok(store: Map<u128, Order>) -> bool {
    forall|id: u128| #[trigger]
        store.contains_key(id) ==> store[id].id == id && order_is_valid(store[id]) && execution_ok(
            store[id],
        )
}

/// The active list holds each non-terminal stored order exactly once and
/// nothing else.
pub open spec fn active_ok(store: Map<u128, Order>, active: Seq<u128>) -> bool {
    &&& active.no_duplicates()
    &&& forall|id: u128|
        #![trigger active.contains(id)]
        #![trigger store.contains_key(id)]
        active.contains(id) <==> (store.contains_key(id) && !store[id].status.spec_is_terminal())
}

/// Every order present before is present after, with the same quantity and
/// at least the same filled amount.
pub open spec fn fills_only_grow(before: Map<u128, Order>, after: Map<u128, Order>) -> bool {
    forall|id: u128| #[trigger]
        before.contains_key(id) ==> after.contains_key(id) && after[id].quantity == before[id].quantity
            && after[id].filled_quantity >= before[id].filled_quantity
}

/// Every order present before has moved along the transition table.
pub open spec fn statuses_follow_table(before: Map<u128, Order>, after: Map<u128, Order>) -> bool {
    forall|id: u128| #[trigger]
        before.contains_key(id) ==> after.contains_key(id) && transition_allowed(
            before[id].status,
            after[id].status,
        )
}

/// How an event may move a status: along the transition table, or, from a
/// status still working, straight to a closing status.
pub open spec fn status_may_follow(from: OrderStatus, to: OrderStatus) -> bool {
    ||| transition_allowed(from, to)
    ||| !from.spec_is_terminal() && (to == OrderStatus::Cancelled || to == OrderStatus::Rejected
        || to == OrderStatus::Failed)
}

/// Every order present before has moved as `status_may_follow` allows.
pub open spec fn statuses_move_forward(before: Map<u128, Order>, after: Map<u128, Order>) -> bool {
    forall|id: u128| #[trigger]
        before.contains_key(id) ==> after.contains_key(id) && status_may_follow(
            before[id].status,
            after[id].status,
        )
}

/// Whether `e` is an Update event.
pub open spec fn is_update(e: OrderEvent) -> bool {
    e is Update
}

/// The order as stored on acceptance: its identifier assigned, stamped at
/// `now`, in status Created, with nothing filled yet.
pub open spec fn accepted(order: Order, id: u128, now: i64) -> Order {
    Order {
        id,
        status: OrderStatus::Created,
        filled_quantity: 0,
        filled_at: None,
        average_fill_price: None,
        created_at: now,
        updated_at: now,
        ..order
    }
}

/// The identifier an order is stored under: its own, or `fresh` when it has
/// none.
pub open spec fn assigned_id(order: Order, fresh: u128) -> u128 {
    if order.id == 0 {
        fresh
    } else {
        order.id
    }
}

/// Whether an update keeps to the state machine and the fill rules.
pub open spec fn update_permitted(
    o: Order,
    status: Option<OrderStatus>,
    filled: Option<i64>,
    avg: Option<i64>,
) -> bool {
    let new_status = match status {
        Some(s) => s,
        None => o.status,
    };
    let new_filled = match filled {
        Some(f) => f,
        None => o.filled_quantity,
    };
    &&& transition_allowed(o.status, new_status)
    &&& o.filled_quantity <= new_filled <= o.quantity
    &&& (avg is Some || o.average_fill_price is Some) ==> new_filled > 0
}

/// The order with the fields present in an update overwritten, stamped at
/// `now`; reaching Filled records the fill time.
pub open spec fn updated(
    o: Order,
    status: Option<OrderStatus>,
    filled: Option<i64>,
    avg: Option<i64>,
    now: i64,
) -> Order {
    let new_status = match status {
        Some(s) => s,
        None => o.status,
    };
    Order {
        status: new_status,
        filled_quantity: match filled {
            Some(f) => f,
            None => o.filled_quantity,
        },
        average_fill_price: match avg {
            Some(p) => Some(p),
            None => o.average_fill_price,
        },
        filled_at: if new_status == OrderStatus::Filled && o.status != OrderStatus::Filled {
            Some(now)
        } else {
            o.filled_at
        },
        updated_at: now,
        ..o
    }
}

/// The order forced into `status` with `note` recorded, stamped at `now`.
pub open spec fn closed_as(o: Order, status: OrderStatus, note: String, now: i64) -> Order {
    Order { status, notes: Some(note), updated_at: now, ..o }
}

/// A closing event (Cancel, Reject, Error) forces its status on any order
/// still working, recording the note; on an order already closed in that
/// same status it only records the note again. Any other terminal order is
/// left alone.
pub open spec fn closing(o: Order, status: OrderStatus, note: String, now: i64) -> Option<Order> {
    if !o.status.spec_is_terminal() || o.status == status {
        Some(closed_as(o, status, note, now))
    } else {
        None
    }
}

/// The order an event is about, if any.
pub open spec fn event_target(e: OrderEvent) -> Option<u128> {
    match e {
        OrderEvent::New(_) => None,
        OrderEvent::Update { order_id, .. } => Some(order_id),
        OrderEvent::Cancel { order_id, .. } => Some(order_id),
        OrderEvent::Reject { order_id, .. } => Some(order_id),
        OrderEvent::Error { order_id, .. } => order_id,
    }
}

/// The order after event `e` is applied to it at `now`, or None when the
/// event asks for no change or for a forbidden one.
pub open spec fn event_result(o: Order, e: OrderEvent, now: i64) -> Option<Order> {
    match e {
        OrderEvent::New(_) => None,
        OrderEvent::Update { status, filled_qty, avg_fill_price, .. } => {
            if update_permitted(o, status, filled_qty, avg_fill_price) {
                Some(updated(o, status, filled_qty, avg_fill_price, now))
            } else {
                None
            }
        },
        OrderEvent::Cancel { reason, .. } => closing(o, OrderStatus::Cancelled, reason, now),
        OrderEvent::Reject { reason, .. } => closing(o, OrderStatus::Rejected, reason, now),
        OrderEvent::Error { message, .. } => closing(o, OrderStatus::Failed, message, now),
    }
}

/// The store and active list after one event; an order reaching a terminal
/// status leaves the active list.
pub open spec fn step(store: Map<u128, Order>, active: Seq<u128>, e: OrderEvent, now: i64) -> (
    Map<u128, Order>,
    Seq<u128>,
) {
    match event_target(e) {
        None => (store, active),
        Some(id) => {
            if !store.contains_key(id) {
                (store, active)
            } else {
                match event_result(store[id], e, now) {
                    None => (store, active),
                    Some(next) => (
                        store.insert(id, next),
                        if next.status.spec_is_terminal() {
                            without(active, id)
                        } else {
                            active
                        },
                    ),
                }
            }
        },
    }
}

/// What applying `e` reports.
pub open spec fn outcome_of(store: Map<u128, Order>, e: OrderEvent, now: i64) -> EventOutcome {
    match event_target(e) {
        None => EventOutcome::Informational,
        Some(id) => {
            if !store.contains_key(id) {
                EventOutcome::UnknownOrder
            } else if event_result(store[id], e, now) is None {
                EventOutcome::Refused
            } else {
                EventOutcome::Applied
            }
        },
    }
}

/// The store and active list after `events`, applied in order at `now`.
pub open spec fn replay(
    store: Map<u128, Order>,
    active: Seq<u128>,
    events: Seq<OrderEvent>,
    now: i64,
) -> (Map<u128, Order>, Seq<u128>)
    decreases events.len(),
{
    if events.len() == 0 {
        (store, active)
    } else {
        let prev = replay(store, active, events.drop_last(), now);
        step(prev.0, prev.1, events.last(), now)
    }
}

/// Statuses from which a caller may cancel.
pub open spec fn cancellable(s: OrderStatus) -> bool {
    s == OrderStatus::Created || s == OrderStatus::Submitted || s == OrderStatus::PartiallyFilled
}

/// The snapshots `get_active_orders` hands out.
pub open spec fn active_snapshot(store: Map<u128, Order>, active: Seq<u128>) -> Seq<Order> {
    active.map_values(|id: u128| store[id])
}

pub proof fn lemma_without_contains(s: Seq<u128>, id: u128, x: u128)
    ensures
        without(s, id).contains(x) <==> (s.contains(x) && x != id),
    decreases s.len(),
{
    if s.len() > 0 {
        let p = s.drop_last();
        let l = s.last();
        lemma_without_contains(p, id, x);
        lemma_push_contains(p, l, x);
        assert(s =~= p.push(l));
        if l != id {
            lemma_push_contains(without(p, id), l, x);
        }
    }
}

proof fn lemma_push_contains(p: Seq<u128>, l: u128, x: u128)
    ensures
        p.push(l).contains(x) <==> (p.contains(x) || l == x),
{
    if p.push(l).contains(x) {
        let k = choose|k: int| 0 <= k < p.push(l).len() && p.push(l)[k] == x;
        if k < p.len() {
            assert(p[k] == x);
        }
    }
    if p.contains(x) {
        let k = choose|k: int| 0 <= k < p.len() && p[k] == x;
        assert(p.push(l)[k] == x);
    }
    if l == x {
        assert(p.push(l)[p.len() as int] == x);
    }
}

pub proof fn lemma_without_no_duplicates(s: Seq<u128>, id: u128)
    requires
        s.no_duplicates(),
    ensures
        without(s, id).no_duplicates(),
    decreases s.len(),
{
    if s.len() > 0 {
        lemma_without_no_duplicates(s.drop_last(), id);
        if s.last() != id {
            lemma_without_contains(s.drop_last(), id, s.last());
            let w = without(s.drop_last(), id);
            assert(!s.drop_last().contains(s.last())) by {
                if s.drop_last().contains(s.last()) {
                    let k = choose|k: int| 0 <= k < s.drop_last().len() && s.drop_last()[k] == s.last();
                    assert(s[k] == s[s.len() - 1]);
                }
            }
            assert forall|i: int, j: int|
                0 <= i < w.push(s.last()).len() && 0 <= j < w.push(s.last()).len() && i != j
                    implies w.push(s.last())[i] != w.push(s.last())[j] by {
                if i == w.len() {
                    assert(w.contains(w[j]));
                } else if j == w.len() {
                    assert(w.contains(w[i]));
                }
            }
        }
    }
}

/// Applying one event keeps the store and active list consistent.
pub proof fn lemma_step_keeps_book_consistent(
    store: Map<u128, Order>,
    active: Seq<u128>,
    e: OrderEvent,
    now: i64,
)
    requires
        store_ok(store),
        active_ok(store, active),
    ensures
        store_ok(step(store, active, e, now).0),
        active_ok(step(store, active, e, now).0, step(store, active, e, now).1),
{
    if let Some(id) = event_target(e) {
        if store.contains_key(id) {
            if let Some(next) = event_result(store[id], e, now) {
                let store2 = store.insert(id, next);
                if next.status.spec_is_terminal() {
                    lemma_without_no_duplicates(active, id);
                    assert forall|x: u128|
                        #![trigger without(active, id).contains(x)]
                        #![trigger store2.contains_key(x)]
                        without(active, id).contains(x) <==> (store2.contains_key(x)
                            && !store2[x].status.spec_is_terminal()) by {
                        lemma_without_contains(active, id, x);
                    }
                } else {
                    assert(!store[id].status.spec_is_terminal()) by {
                        if store[id].status.spec_is_terminal() {
                            super::lemma_terminal_is_final(store[id].status, next.status);
                        }
                    }
                    assert forall|x: u128|
                        #![trigger active.contains(x)]
                        #![trigger store2.contains_key(x)]
                        active.contains(x) <==> (store2.contains_key(x)
                            && !store2[x].status.spec_is_terminal()) by {
                        if x != id {
                            assert(store2[x] == store[x]);
                        }
                    }
                }
            }
        }
    }
}

/// Fill amounts never go down and never pass the quantity: applying any
/// event to a consistent book keeps every order's quantity, does not
/// decrease its filled amount, and keeps the filled amount within the
/// quantity.
pub proof fn lemma_fill_never_decreases(store: Map<u128, Order>, active: Seq<u128>, e: OrderEvent, now: i64)
    requires
        store_ok(store),
        active_ok(store, active),
    ensures
        fills_only_grow(store, step(store, active, e, now).0),
        forall|id: u128| #[trigger]
            step(store, active, e, now).0.contains_key(id) ==> 0 <= step(store, active, e, now).0[id].filled_quantity
                <= step(store, active, e, now).0[id].quantity,
{
    lemma_step_keeps_book_consistent(store, active, e, now);
}

/// An Update event changes a status only as the transition table allows;
/// a closing event only closes an order still working; an event that asks
/// for any other change leaves the book as it was.
pub proof fn lemma_events_follow_table(store: Map<u128, Order>, active: Seq<u128>, e: OrderEvent, now: i64)
    ensures
        is_update(e) ==> statuses_follow_table(store, step(store, active, e, now).0),
        statuses_move_forward(store, step(store, active, e, now).0),
        outcome_of(store, e, now) != EventOutcome::Applied ==> step(store, active, e, now) == (store, active),
{
}

/// Replaying events on a consistent book keeps it consistent, and fill
/// amounts only grow over the whole sequence.
pub proof fn lemma_replay_invariants(store: Map<u128, Order>, active: Seq<u128>, events: Seq<OrderEvent>, now: i64)
    requires
        store_ok(store),
        active_ok(store, active),
    ensures
        store_ok(replay(store, active, events, now).0),
        active_ok(replay(store, active, events, now).0, replay(store, active, events, now).1),
        fills_only_grow(store, replay(store, active, events, now).0),
    decreases events.len(),
{
    if events.len() > 0 {
        lemma_replay_invariants(store, active, events.drop_last(), now);
        let prev = replay(store, active, events.drop_last(), now);
        lemma_step_keeps_book_consistent(prev.0, prev.1, events.last(), now);
        lemma_fill_never_decreases(prev.0, prev.1, events.last(), now);
    }
}

/// The order moved to `status`, stamped at `now`.
pub open spec fn restatus(o: Order, status: OrderStatus, now: i64) -> Order {
    Order { status, updated_at: now, ..o }
}

/// Whether a caller's cancellation of `id` is accepted: the order is active
/// and in a status from which cancelling is allowed.
pub open spec fn cancel_allowed(store: Map<u128, Order>, active: Seq<u128>, id: u128) -> bool {
    active.contains(id) && store.contains_key(id) && cancellable(store[id].status)
}

/// A successful cancellation settles the order: it leaves the active list
/// and every active snapshot, and it is reported Cancelled with the reason
/// as its notes.
pub proof fn lemma_cancel_settles_order(
    store: Map<u128, Order>,
    active: Seq<u128>,
    id: u128,
    reason: String,
    now: i64,
)
    requires
        store_ok(store),
        active_ok(store, active),
        cancel_allowed(store, active, id),
    ensures
        ({
            let store2 = store.insert(id, closed_as(store[id], OrderStatus::Cancelled, reason, now));
            let active2 = without(active, id);
            &&& !active2.contains(id)
            &&& forall|i: int|
                0 <= i < active_snapshot(store2, active2).len() ==> #[trigger] active_snapshot(
                    store2,
                    active2,
                )[i].id != id
            &&& store2[id].status == OrderStatus::Cancelled
            &&& store2[id].notes == Some(reason)
        }),
{
    let store2 = store.insert(id, closed_as(store[id], OrderStatus::Cancelled, reason, now));
    let active2 = without(active, id);
    lemma_without_contains(active, id, id);
    assert forall|i: int| 0 <= i < active_snapshot(store2, active2).len() implies #[trigger] active_snapshot(
        store2,
        active2,
    )[i].id != id by {
        let x = active2[i];
        lemma_without_contains(active, id, x);
        assert(active2.contains(x));
        assert(store.contains_key(x));
    }
}

/// Cancelling an order a second time is refused: after a successful
/// cancellation the order is no longer active.
pub proof fn lemma_second_cancel_refused(
    store: Map<u128, Order>,
    active: Seq<u128>,
    id: u128,
    reason: String,
    now: i64,
)
    requires
        store_ok(store),
        active_ok(store, active),
        cancel_allowed(store, active, id),
    ensures
        !cancel_allowed(
            store.insert(id, closed_as(store[id], OrderStatus::Cancelled, reason, now)),
            without(active, id),
            id,
        ),
{
    lemma_without_contains(active, id, id);
}

/// The order book. Every accepted order stays in the store for good; the
/// active list holds, in order of acceptance, the identifiers of those not
/// yet in a terminal status; emitted lifecycle events wait in `events`
/// until they are taken or processed.
pub struct OrderManager {
    orders: HashMap<u128, Order>,
    active_orders: Vec<u128>,
    events: Vec<OrderEvent>,
}

impl OrderManager {
    /// Every order ever accepted, by identifier.
    pub closed spec fn store(&self) -> Map<u128, Order> {
        self.orders@
    }

    /// Identifiers of the orders still working, in order of acceptance.
    pub closed spec fn active(&self) -> Seq<u128> {
        self.active_orders@
    }

    /// Events emitted and not yet taken or processed, oldest first.
    pub closed spec fn pending_events(&self) -> Seq<OrderEvent> {
        self.events@
    }

    pub open spec fn wf(&self) -> bool {
        store_ok(self.store()) && active_ok(self.store(), self.active())
    }

    pub fn new() -> (r: OrderManager)
        ensures
            r.wf(),
            r.store() == Map::<u128, Order>::empty(),
            r.active() == Seq::<u128>::empty(),
            r.pending_events() == Seq::<OrderEvent>::empty(),
    {
        OrderManager { orders: HashMap::new(), active_orders: Vec::new(), events: Vec::new() }
    }

    /// Accepts `order` at time `now`, stored under its own identifier or,
    /// when it has none, under `fresh_id`. Fails, changing nothing, when the
    /// order breaks a validation rule or its identifier is already taken.
    /// On success the order is stored and active, and a New event is emitted.
    pub fn place_order_at(&mut self, order: Order, fresh_id: u128, now: i64) -> (r: Result<u128, String>)
        requires
            old(self).wf(),
        ensures
            final(self).wf(),
            fills_only_grow(old(self).store(), final(self).store()),
            ({
                let id = assigned_id(order, fresh_id);
                let placed = accepted(order, id, now);
                &&& r is Ok <==> (order_is_valid(order) && !old(self).store().contains_key(id))
                &&& r matches Ok(rid) ==> rid == id && final(self).store() == old(self).store().insert(id, placed)
                    && final(self).active() == old(self).active().push(id)
                    && final(self).pending_events() == old(self).pending_events().push(OrderEvent::New(placed))
                &&& r matches Err(e) ==> final(self).store() == old(self).store() && final(self).active()
                    == old(self).active() && final(self).pending_events() == old(self).pending_events()
                    && (first_violation(order) matches Some(v) ==> e@ == v.text())
            }),
    {
        let id = if order.id == 0 {
            fresh_id
        } else {
            order.id
        };
        if let Err(v) = validate_order(&order) {
            return Err(v.message());
        }
        if self.orders.contains_key(&id) {
            return Err("Order identifier already in use".to_owned());
        }
        let placed = Order {
            id,
            status: OrderStatus::Created,
            filled_quantity: 0,
            filled_at: None,
            average_fill_price: None,
            created_at: now,
            updated_at: now,
            ..order
        };
        let copy = placed.snapshot();
        self.orders.insert(id, placed);
        proof {
            lemma_push_contains(self.active_orders@, id, id);
            assert forall|x: u128| self.active_orders@.contains(x) implies x != id by {}
        }
        let ghost before_active = self.active_orders@;
        self.active_orders.push(id);
        proof {
            assert forall|x: u128|
                #![trigger self.active_orders@.contains(x)]
                #![trigger self.orders@.contains_key(x)]
                self.active_orders@.contains(x) <==> (self.orders@.contains_key(x)
                    && !self.orders@[x].status.spec_is_terminal()) by {
                lemma_push_contains(before_active, id, x);
            }
            assert forall|i: int, j: int|
                0 <= i < self.active_orders@.len() && 0 <= j < self.active_orders@.len() && i != j
                    implies self.active_orders@[i] != self.active_orders@[j] by {
                if i == before_active.len() {
                    assert(before_active.contains(before_active[j]));
                } else if j == before_active.len() {
                    assert(before_active.contains(before_active[i]));
                }
            }
        }
        self.events.push(OrderEvent::New(copy));
        Ok(id)
    }

    /// Accepts `order` now, assigning a fresh identifier when it has none;
    /// see `place_order_at`. The identifier comes back at once: submission
    /// to a venue happens afterwards (`run_submission`).
    pub fn place_order(&mut self, order: Order) -> (r: Result<u128, String>)
        requires
            old(self).wf(),
        ensures
            final(self).wf(),
            fills_only_grow(old(self).store(), final(self).store()),
            !order_is_valid(order) ==> r is Err,
            order_is_valid(order) && order.id != 0 && !old(self).store().contains_key(order.id) ==> r
                is Ok,
            order_is_valid(order) && order.id == 0 && r is Err ==> exists|f: u128|
                f != 0 && #[trigger] old(self).store().contains_key(f),
            r is Err ==> final(self).store() == old(self).store() && final(self).active() == old(
                self,
            ).active() && final(self).pending_events() == old(self).pending_events(),
            r matches Ok(id) ==> {
                let placed = accepted(order, id, final(self).store()[id].created_at);
                &&& id != 0
                &&& order.id != 0 ==> id == order.id
                &&& !old(self).store().contains_key(id)
                &&& final(self).store() == old(self).store().insert(id, placed)
                &&& final(self).active() == old(self).active().push(id)
                &&& final(self).pending_events() == old(self).pending_events().push(OrderEvent::New(placed))
            },
    {
        let fresh = if order.id == 0 {
            let f = new_uuid();
            proof {
                lemma_fresh_id_not_nil(f);
            }
            f
        } else {
            order.id
        };
        let now = now_millis();
        let r = self.place_order_at(order, fresh, now);
        proof {
            if order_is_valid(order) && order.id == 0 && r is Err {
                assert(old(self).store().contains_key(fresh));
            }
        }
        r
    }

    /// A snapshot of the order stored under `order_id`.
    pub fn get_order(&self, order_id: u128) -> (r: Option<Order>)
        ensures
            r == (if self.store().contains_key(order_id) {
                Some(self.store()[order_id])
            } else {
                None
            }),
    {
        match self.orders.get(&order_id) {
            Some(o) => Some(o.snapshot()),
            None => None,
        }
    }

    /// Snapshots of the orders still working, in order of acceptance.
    pub fn get_active_orders(&self) -> (r: Vec<Order>)
        requires
            self.wf(),
        ensures
            r@ == active_snapshot(self.store(), self.active()),
    {
        let mut r: Vec<Order> = Vec::new();
        let mut i: usize = 0;
        while i < self.active_orders.len()
            invariant
                self.wf(),
                i <= self.active_orders.len(),
                r@ == active_snapshot(self.store(), self.active()).subrange(0, i as int),
            decreases self.active_orders.len() - i,
        {
            let id = self.active_orders[i];
            assert(self.active().contains(id));
            match self.orders.get(&id) {
                Some(o) => r.push(o.snapshot()),
                None => {},
            }
            i = i + 1;
            assert(r@ =~= active_snapshot(self.store(), self.active()).subrange(0, i as int));
        }
        assert(active_snapshot(self.store(), self.active()).subrange(0, i as int) =~= active_snapshot(
            self.store(),
            self.active(),
        ));
        r
    }

    /// Queues an event for the single consumer that applies events in
    /// arrival order.
    pub fn send_event(&mut self, event: OrderEvent)
        ensures
            final(self).pending_events() == old(self).pending_events().push(event),
            final(self).store() == old(self).store(),
            final(self).active() == old(self).active(),
    {
        self.events.push(event);
    }

    /// Hands out the queued events, oldest first, and empties the queue.
    pub fn take_events(&mut self) -> (r: Vec<OrderEvent>)
        ensures
            r@ == old(self).pending_events(),
            final(self).pending_events() == Seq::<OrderEvent>::empty(),
            final(self).store() == old(self).store(),
            final(self).active() == old(self).active(),
    {
        let mut taken: Vec<OrderEvent> = Vec::new();
        std::mem::swap(&mut taken, &mut self.events);
        taken
    }

    /// Applies every queued event in arrival order at time `now`, and
    /// returns how many changed an order.
    pub fn process_events_at(&mut self, now: i64) -> (r: usize)
        requires
            old(self).wf(),
        ensures
            final(self).wf(),
            (final(self).store(), final(self).active()) == replay(
                old(self).store(),
                old(self).active(),
                old(self).pending_events(),
                now,
            ),
            final(self).pending_events() == Seq::<OrderEvent>::empty(),
            fills_only_grow(old(self).store(), final(self).store()),
            r <= old(self).pending_events().len(),
    {
        let mut queue = self.take_events();
        let ghost all = queue@;
        let ghost store0 = self.store();
        let ghost active0 = self.active();
        let mut applied: usize = 0;
        let ghost mut i: int = 0;
        assert(all.subrange(0, 0) =~= Seq::<OrderEvent>::empty());
        assert(all.subrange(0, all.len() as int) =~= all);
        let total = queue.len();
        assert(all.len() == total);
        while queue.len() > 0
            invariant
                store_ok(store0),
                active_ok(store0, active0),
                all.len() <= usize::MAX,
                0 <= i <= all.len(),
                queue@ == all.subrange(i, all.len() as int),
                applied <= i,
                self.wf(),
                self.pending_events() == Seq::<OrderEvent>::empty(),
                (self.store(), self.active()) == replay(store0, active0, all.subrange(0, i), now),
                fills_only_grow(store0, self.store()),
            decreases queue.len(),
        {
            let e = queue.remove(0);
            proof {
                assert(all.subrange(0, i + 1).drop_last() =~= all.subrange(0, i));
                assert(all[i] == e);
                lemma_replay_invariants(store0, active0, all.subrange(0, i + 1), now);
            }
            if self.apply_event(e, now) == EventOutcome::Applied {
                applied = applied + 1;
            }
            proof {
                i = i + 1;
                assert(queue@ =~= all.subrange(i, all.len() as int));
            }
        }
        assert(all.subrange(0, i) =~= all);
        applied
    }

    /// Moves a Created order to PendingSubmission at `now` and returns a
    /// snapshot of it for the venue; any other order is left alone.
    pub fn begin_submission(&mut self, order_id: u128, now: i64) -> (r: Option<Order>)
        requires
            old(self).wf(),
        ensures
            final(self).wf(),
            fills_only_grow(old(self).store(), final(self).store()),
            statuses_follow_table(old(self).store(), final(self).store()),
            final(self).pending_events() == old(self).pending_events(),
            final(self).active() == old(self).active(),
            r is Some <==> (old(self).store().contains_key(order_id) && old(self).store()[order_id].status
                == OrderStatus::Created),
            r matches Some(o) ==> o == restatus(old(self).store()[order_id], OrderStatus::PendingSubmission, now)
                && final(self).store() == old(self).store().insert(order_id, o),
            r is None ==> final(self).store() == old(self).store(),
    {
        let o = match self.orders.get(&order_id) {
            Some(o) => o.snapshot(),
            None => return None,
        };
        if o.status != OrderStatus::Created {
            return None;
        }
        let next = Order { status: OrderStatus::PendingSubmission, updated_at: now, ..o };
        let copy = next.snapshot();
        self.commit(order_id, next);
        proof {
            assert forall|x: u128|
                #![trigger self.active_orders@.contains(x)]
                #![trigger self.orders@.contains_key(x)]
                self.active_orders@.contains(x) <==> (self.orders@.contains_key(x)
                    && !self.orders@[x].status.spec_is_terminal()) by {
                if x != order_id {
                    assert(self.orders@[x] == old(self).orders@[x]);
                }
            }
        }
        Some(copy)
    }

    /// Settles a submission at `now`: a PendingSubmission order becomes
    /// Submitted, with an Update event, when the venue took it, and Failed,
    /// leaving the active list, with an Error event carrying the venue's
    /// message, when it did not. Any other order is left alone.
    pub fn finish_submission(&mut self, order_id: u128, outcome: Result<(), String>, now: i64)
        requires
            old(self).wf(),
        ensures
            final(self).wf(),
            fills_only_grow(old(self).store(), final(self).store()),
            statuses_follow_table(old(self).store(), final(self).store()),
            !(old(self).store().contains_key(order_id) && old(self).store()[order_id].status
                == OrderStatus::PendingSubmission) ==> final(self).store() == old(self).store()
                && final(self).active() == old(self).active() && final(self).pending_events() == old(
                self,
            ).pending_events(),
            old(self).store().contains_key(order_id) && old(self).store()[order_id].status
                == OrderStatus::PendingSubmission ==> match outcome {
                Ok(()) => {
                    &&& final(self).store() == old(self).store().insert(
                        order_id,
                        restatus(old(self).store()[order_id], OrderStatus::Submitted, now),
                    )
                    &&& final(self).active() == old(self).active()
                    &&& final(self).pending_events() == old(self).pending_events().push(
                        OrderEvent::Update {
                            order_id,
                            status: Some(OrderStatus::Submitted),
                            filled_qty: None,
                            avg_fill_price: None,
                        },
                    )
                },
                Err(message) => {
                    &&& final(self).store() == old(self).store().insert(
                        order_id,
                        restatus(old(self).store()[order_id], OrderStatus::Failed, now),
                    )
                    &&& final(self).active() == without(old(self).active(), order_id)
                    &&& final(self).pending_events() == old(self).pending_events().push(
                        OrderEvent::Error { order_id: Some(order_id), message },
                    )
                },
            },
    {
        let o = match self.orders.get(&order_id) {
            Some(o) => o.snapshot(),
            None => return ,
        };
        if o.status != OrderStatus::PendingSubmission {
            return ;
        }
        let (status, event) = match outcome {
            Ok(()) => (
                OrderStatus::Submitted,
                OrderEvent::Update {
                    order_id,
                    status: Some(OrderStatus::Submitted),
                    filled_qty: None,
                    avg_fill_price: None,
                },
            ),
            Err(message) => (
                OrderStatus::Failed,
                OrderEvent::Error { order_id: Some(order_id), message },
            ),
        };
        let next = Order { status, updated_at: now, ..o };
        let ghost store0 = self.store();
        let ghost active0 = self.active();
        self.commit(order_id, next);
        proof {
            if status == OrderStatus::Failed {
                lemma_without_no_duplicates(active0, order_id);
            }
            assert forall|x: u128|
                #![trigger self.active_orders@.contains(x)]
                #![trigger self.orders@.contains_key(x)]
                self.active_orders@.contains(x) <==> (self.orders@.contains_key(x)
                    && !self.orders@[x].status.spec_is_terminal()) by {
                if status == OrderStatus::Failed {
                    lemma_without_contains(active0, order_id, x);
                }
                if x != order_id {
                    assert(self.orders@[x] == store0[x]);
                }
            }
        }
        self.events.push(event);
    }

    /// Runs the submission of a freshly placed order: marks it
    /// PendingSubmission, hands it to the router, then settles it as
    /// Submitted or Failed from the router's answer, which it returns. An
    /// order that is not in status Created is not submitted (None).
    pub fn run_submission(&mut self, router: &mut OrderRouter, order_id: u128) -> (r: Option<
        Result<(), String>,
    >)
        requires
            old(self).wf(),
        ensures
            final(self).wf(),
            fills_only_grow(old(self).store(), final(self).store()),
            r is Some <==> (old(self).store().contains_key(order_id) && old(self).store()[order_id].status
                == OrderStatus::Created),
            r is None ==> final(self).store() == old(self).store() && final(self).active() == old(
                self,
            ).active() && *final(router) == *old(router),
            r matches Some(res) ==> {
                let o = old(self).store()[order_id];
                let i = old(router).venue_index_for(o);
                let status = if res is Ok {
                    OrderStatus::Submitted
                } else {
                    OrderStatus::Failed
                };
                &&& res is Ok <==> (i >= 0 && old(router).venues()[i].spec_connected())
                &&& final(self).store() == old(self).store().insert(
                    order_id,
                    restatus(o, status, final(self).store()[order_id].updated_at),
                )
                &&& final(self).active() == if res is Ok {
                    old(self).active()
                } else {
                    without(old(self).active(), order_id)
                }
                &&& final(self).pending_events() == old(self).pending_events().push(
                    match res {
                        Ok(()) => OrderEvent::Update {
                            order_id,
                            status: Some(OrderStatus::Submitted),
                            filled_qty: None,
                            avg_fill_price: None,
                        },
                        Err(message) => OrderEvent::Error { order_id: Some(order_id), message },
                    },
                )
                &&& exists|t: i64|
                    old(router).submitted_to(
                        *final(router),
                        #[trigger] restatus(o, OrderStatus::PendingSubmission, t),
                        res is Ok,
                    )
            },
    {
        let now = now_millis();
        let order = match self.begin_submission(order_id, now) {
            Some(o) => o,
            None => return None,
        };
        let res = router.submit_order(order);
        assert(old(router).submitted_to(
            *router,
            restatus(old(self).store()[order_id], OrderStatus::PendingSubmission, now),
            res is Ok,
        ));
        let copy = match &res {
            Ok(()) => Ok(()),
            Err(e) => Err(e.clone()),
        };
        let later = now_millis();
        self.finish_submission(order_id, copy, later);
        Some(res)
    }

    /// Checks whether `order_id` may be cancelled by a caller, and whether
    /// the venue must be asked: the order must be active and in status
    /// Created, Submitted or PartiallyFilled; only a Created order never
    /// reached a venue.
    pub fn cancellation_check(&self, order_id: u128) -> (r: Result<bool, String>)
        requires
            self.wf(),
        ensures
            r is Ok <==> cancel_allowed(self.store(), self.active(), order_id),
            r matches Ok(ask_venue) ==> ask_venue == (self.store()[order_id].status
                != OrderStatus::Created),
    {
        let status = match self.orders.get(&order_id) {
            Some(o) => o.status,
            None => return Err("Order not found or not active".to_owned()),
        };
        if status.is_terminal() {
            return Err("Order not found or not active".to_owned());
        }
        match status {
            OrderStatus::Created => Ok(false),
            OrderStatus::Submitted | OrderStatus::PartiallyFilled => Ok(true),
            _ => Err("Order cannot be cancelled in its current status".to_owned()),
        }
    }

    /// Cancels `order_id` locally at `now`: it becomes Cancelled with
    /// `reason` as its notes, leaves the active list, and a Cancel event is
    /// emitted. Fails, changing nothing, unless `cancellation_check` passes.
    pub fn apply_cancel(&mut self, order_id: u128, reason: String, now: i64) -> (r: Result<(), String>)
        requires
            old(self).wf(),
        ensures
            final(self).wf(),
            fills_only_grow(old(self).store(), final(self).store()),
            r is Ok <==> cancel_allowed(old(self).store(), old(self).active(), order_id),
            r is Ok ==> final(self).store() == old(self).store().insert(
                order_id,
                closed_as(old(self).store()[order_id], OrderStatus::Cancelled, reason, now),
            ) && final(self).active() == without(old(self).active(), order_id)
                && final(self).pending_events() == old(self).pending_events().push(
                OrderEvent::Cancel { order_id, reason },
            ),
            r is Err ==> final(self).store() == old(self).store() && final(self).active() == old(
                self,
            ).active() && final(self).pending_events() == old(self).pending_events(),
    {
        if let Err(e) = self.cancellation_check(order_id) {
            return Err(e);
        }
        let o = match self.orders.get(&order_id) {
            Some(o) => o.snapshot(),
            None => return Err("Order not found or not active".to_owned()),
        };
        let note = reason.clone();
        let next = Order { status: OrderStatus::Cancelled, notes: Some(note), updated_at: now, ..o };
        let ghost store0 = self.store();
        let ghost active0 = self.active();
        self.commit(order_id, next);
        proof {
            lemma_without_no_duplicates(active0, order_id);
            assert forall|x: u128|
                #![trigger self.active_orders@.contains(x)]
                #![trigger self.orders@.contains_key(x)]
                self.active_orders@.contains(x) <==> (self.orders@.contains_key(x)
                    && !self.orders@[x].status.spec_is_terminal()) by {
                lemma_without_contains(active0, order_id, x);
                if x != order_id {
                    assert(self.orders@[x] == store0[x]);
                }
            }
        }
        self.events.push(OrderEvent::Cancel { order_id, reason });
        Ok(())
    }

    /// Cancels an order on a caller's request. A Created order never
    /// reached a venue and is cancelled locally; otherwise the router is
    /// asked to cancel at the venue first, and the order is cancelled
    /// locally whatever the venue answers. Fails, changing nothing and
    /// asking no venue, unless the order is active and cancellable.
    pub fn cancel_order(&mut self, router: &mut OrderRouter, order_id: u128, reason: String) -> (r:
        Result<(), String>)
        requires
            old(self).wf(),
        ensures
            final(self).wf(),
            fills_only_grow(old(self).store(), final(self).store()),
            r is Ok <==> cancel_allowed(old(self).store(), old(self).active(), order_id),
            r is Ok ==> final(self).store() == old(self).store().insert(
                order_id,
                closed_as(
                    old(self).store()[order_id],
                    OrderStatus::Cancelled,
                    reason,
                    final(self).store()[order_id].updated_at,
                ),
            ) && final(self).active() == without(old(self).active(), order_id)
                && final(self).pending_events() == old(self).pending_events().push(
                OrderEvent::Cancel { order_id, reason },
            ),
            r is Err ==> final(self).store() == old(self).store() && final(self).active() == old(
                self,
            ).active() && final(self).pending_events() == old(self).pending_events(),
            r is Err || old(self).store()[order_id].status == OrderStatus::Created ==> *final(router)
                == *old(router),
            r is Ok && old(self).store()[order_id].status != OrderStatus::Created ==> old(
                router,
            ).cancel_probed(*final(router), order_id),
    {
        let ask_venue = match self.cancellation_check(order_id) {
            Ok(b) => b,
            Err(e) => return Err(e),
        };
        if ask_venue {
            let _ = router.cancel_order(order_id);
        }
        let now = now_millis();
        self.apply_cancel(order_id, reason, now)
    }

    /// Moves `order_id` to `status` now if the state machine allows it;
    /// reports whether it did.
    pub fn update_order_status(&mut self, order_id: u128, status: OrderStatus) -> (r: bool)
        requires
            old(self).wf(),
        ensures
            final(self).wf(),
            fills_only_grow(old(self).store(), final(self).store()),
            statuses_follow_table(old(self).store(), final(self).store()),
            r <==> (old(self).store().contains_key(order_id) && transition_allowed(
                old(self).store()[order_id].status,
                status,
            )),
            r ==> final(self).store()[order_id].status == status,
            exists|now: i64|
                (final(self).store(), final(self).active()) == #[trigger] step(
                    old(self).store(),
                    old(self).active(),
                    OrderEvent::Update { order_id, status: Some(status), filled_qty: None, avg_fill_price: None },
                    now,
                ),
            !r ==> final(self).store() == old(self).store() && final(self).active() == old(
                self,
            ).active(),
            final(self).pending_events() == old(self).pending_events(),
    {
        let now = now_millis();
        let outcome = self.apply_event(
            OrderEvent::Update { order_id, status: Some(status), filled_qty: None, avg_fill_price: None },
            now,
        );
        assert((self.store(), self.active()) == step(
            old(self).store(),
            old(self).active(),
            OrderEvent::Update { order_id, status: Some(status), filled_qty: None, avg_fill_price: None },
            now,
        ));
        outcome == EventOutcome::Applied
    }

    /// Applies every queued event in arrival order, stamped now.
    pub fn process_events(&mut self) -> (r: usize)
        requires
            old(self).wf(),
        ensures
            final(self).wf(),
            final(self).pending_events() == Seq::<OrderEvent>::empty(),
            fills_only_grow(old(self).store(), final(self).store()),
            r <= old(self).pending_events().len(),
            exists|now: i64|
                (final(self).store(), final(self).active()) == #[trigger] replay(
                    old(self).store(),
                    old(self).active(),
                    old(self).pending_events(),
                    now,
                ),
    {
        let now = now_millis();
        let r = self.process_events_at(now);
        assert((self.store(), self.active()) == replay(
            old(self).store(),
            old(self).active(),
            old(self).pending_events(),
            now,
        ));
        r
    }

    fn remove_active(&mut self, id: u128)
        ensures
            final(self).active() == without(old(self).active(), id),
            final(self).store() == old(self).store(),
            final(self).pending_events() == old(self).pending_events(),
    {
        let mut kept: Vec<u128> = Vec::new();
        let mut i: usize = 0;
        while i < self.active_orders.len()
            invariant
                self.active_orders@ == old(self).active_orders@,
                self.orders@ == old(self).orders@,
                self.events@ == old(self).events@,
                i <= self.active_orders.len(),
                kept@ == without(self.active_orders@.subrange(0, i as int), id),
            decreases self.active_orders.len() - i,
        {
            let ghost all = self.active_orders@;
            assert(all.subrange(0, i + 1).drop_last() =~= all.subrange(0, i as int));
            let x = self.active_orders[i];
            if x != id {
                kept.push(x);
            }
            i = i + 1;
        }
        assert(self.active_orders@.subrange(0, i as int) =~= self.active_orders@);
        self.active_orders = kept;
    }

    /// Stores `next` under `id` and, when it is terminal, drops `id` from the
    /// active list.
    fn commit(&mut self, id: u128, next: Order)
        ensures
            final(self).store() == old(self).store().insert(id, next),
            final(self).active() == if next.status.spec_is_terminal() {
                without(old(self).active(), id)
            } else {
                old(self).active()
            },
            final(self).pending_events() == old(self).pending_events(),
    {
        let terminal = next.status.is_terminal();
        self.orders.insert(id, next);
        if terminal {
            self.remove_active(id);
        }
    }

    /// Applies one lifecycle event at time `now`, as `step` describes. An
    /// event for an unknown order, or one asking for a forbidden change, is
    /// dropped and reported as such; it never stops the book.
    pub fn apply_event(&mut self, event: OrderEvent, now: i64) -> (r: EventOutcome)
        requires
            old(self).wf(),
        ensures
            final(self).wf(),
            (final(self).store(), final(self).active()) == step(old(self).store(), old(self).active(), event, now),
            r == outcome_of(old(self).store(), event, now),
            final(self).pending_events() == old(self).pending_events(),
            fills_only_grow(old(self).store(), final(self).store()),
            statuses_move_forward(old(self).store(), final(self).store()),
            is_update(event) ==> statuses_follow_table(old(self).store(), final(self).store()),
    {
        proof {
            lemma_step_keeps_book_consistent(self.store(), self.active(), event, now);
            lemma_fill_never_decreases(self.store(), self.active(), event, now);
            lemma_events_follow_table(self.store(), self.active(), event, now);
        }
        let target: Option<u128> = match &event {
            OrderEvent::New(_) => None,
            OrderEvent::Update { order_id, .. } => Some(*order_id),
            OrderEvent::Cancel { order_id, .. } => Some(*order_id),
            OrderEvent::Reject { order_id, .. } => Some(*order_id),
            OrderEvent::Error { order_id, .. } => *order_id,
        };
        let id = match target {
            None => return EventOutcome::Informational,
            Some(id) => id,
        };
        let o = match self.orders.get(&id) {
            Some(o) => o.snapshot(),
            None => return EventOutcome::UnknownOrder,
        };
        let next: Option<Order> = match event {
            OrderEvent::New(_) => None,
            OrderEvent::Update { status, filled_qty, avg_fill_price, .. } => updated_order(
                o,
                status,
                filled_qty,
                avg_fill_price,
                now,
            ),
            OrderEvent::Cancel { reason, .. } => closed_order(o, OrderStatus::Cancelled, reason, now),
            OrderEvent::Reject { reason, .. } => closed_order(o, OrderStatus::Rejected, reason, now),
            OrderEvent::Error { message, .. } => closed_order(o, OrderStatus::Failed, message, now),
        };
        match next {
            None => EventOutcome::Refused,
            Some(next) => {
                self.commit(id, next);
                EventOutcome::Applied
            },
        }
    }
}

fn updated_order(
    o: Order,
    status: Option<OrderStatus>,
    filled: Option<i64>,
    avg: Option<i64>,
    now: i64,
) -> (r: Option<Order>)
    ensures
        r == (if update_permitted(o, status, filled, avg) {
            Some(updated(o, status, filled, avg, now))
        } else {
            None
        }),
{
    let new_status = match status {
        Some(s) => s,
        None => o.status,
    };
    let new_filled = match filled {
        Some(f) => f,
        None => o.filled_quantity,
    };
    if !o.status.can_transition_to(&new_status) {
        return None;
    }
    if new_filled < o.filled_quantity || new_filled > o.quantity {
        return None;
    }
    if (avg.is_some() || o.average_fill_price.is_some()) && new_filled <= 0 {
        return None;
    }
    let filled_at = if new_status == OrderStatus::Filled && o.status != OrderStatus::Filled {
        Some(now)
    } else {
        o.filled_at
    };
    let average_fill_price = match avg {
        Some(p) => Some(p),
        None => o.average_fill_price,
    };
    Some(
        Order {
            status: new_status,
            filled_quantity: new_filled,
            average_fill_price,
            filled_at,
            updated_at: now,
            ..o
        },
    )
}

fn closed_order(o: Order, status: OrderStatus, note: String, now: i64) -> (r: Option<Order>)
    ensures
        r == closing(o, status, note, now),
{
    if o.status.is_terminal() && o.status != status {
        return None;
    }
    Some(Order { status, notes: Some(note), updated_at: now, ..o })
}

} // verus!
