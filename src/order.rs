//! Orders, their status state machine, and the order book that owns every
//! order ever accepted together with the set of orders still working.
use vstd::prelude::*;
use crate::strategy::{TimeInForce, TradeDirection};

pub mod manager;
pub mod router;

pub use manager::{EventOutcome, OrderEvent, OrderManager};
pub use router::OrderRouter;

verus! {

/// Quantities and prices are fixed-point integers: one whole unit is this
/// many ticks (eight decimal places).
pub const UNITS_PER_WHOLE: i64 = 100_000_000;

/// Lifecycle status of an order.
#[derive(Debug, Clone, Copy, PartialEq, Eq, Structural)]
pub enum OrderStatus {
    Created,
    PendingSubmission,
    Submitted,
    PartiallyFilled,
    Filled,
    Cancelled,
    Rejected,
    Failed,
}

/// The transition table of the order state machine. Staying in the same
/// status is always permitted; every pair not listed is forbidden.
pub open spec fn transition_allowed(from: OrderStatus, to: OrderStatus) -> bool {
    ||| from == to
    ||| from == OrderStatus::Created && to == OrderStatus::PendingSubmission
    ||| from == OrderStatus::PendingSubmission && (to == OrderStatus::Submitted
        || to == OrderStatus::Rejected || to == OrderStatus::Failed)
    ||| from == OrderStatus::Submitted && (to == OrderStatus::PartiallyFilled
        || to == OrderStatus::Filled || to == OrderStatus::Cancelled || to == OrderStatus::Rejected
        || to == OrderStatus::Failed)
    ||| from == OrderStatus::PartiallyFilled && (to == OrderStatus::Filled
        || to == OrderStatus::Cancelled || to == OrderStatus::Failed)
}

impl OrderStatus {
    /// Filled, Cancelled, Rejected and Failed admit no further change.
    pub open spec fn spec_is_terminal(self) -> bool {
        self == OrderStatus::Filled || self == OrderStatus::Cancelled
            || self == OrderStatus::Rejected || self == OrderStatus::Failed
    }

    pub fn is_terminal(&self) -> (r: bool)
        ensures
            r == self.spec_is_terminal(),
    {
        match self {
            OrderStatus::Filled | OrderStatus::Cancelled | OrderStatus::Rejected
            | OrderStatus::Failed => true,
            _ => false,
        }
    }

    /// Whether the state machine permits moving from this status to `next`.
    pub fn can_transition_to(&self, next: &OrderStatus) -> (r: bool)
        ensures
            r == transition_allowed(*self, *next),
    {
        match (self, next) {
            (OrderStatus::Created, OrderStatus::PendingSubmission) => true,
            (OrderStatus::PendingSubmission, OrderStatus::Submitted) => true,
            (OrderStatus::PendingSubmission, OrderStatus::Rejected) => true,
            (OrderStatus::PendingSubmission, OrderStatus::Failed) => true,
            (OrderStatus::Submitted, OrderStatus::PartiallyFilled) => true,
            (OrderStatus::Submitted, OrderStatus::Filled) => true,
            (OrderStatus::Submitted, OrderStatus::Cancelled) => true,
            (OrderStatus::Submitted, OrderStatus::Rejected) => true,
            (OrderStatus::Submitted, OrderStatus::Failed) => true,
            (OrderStatus::PartiallyFilled, OrderStatus::Filled) => true,
            (OrderStatus::PartiallyFilled, OrderStatus::Cancelled) => true,
            (OrderStatus::PartiallyFilled, OrderStatus::Failed) => true,
            (s1, s2) => *s1 == *s2,
        }
    }
}

/// No status is left once a terminal one is reached, except by staying put.
pub proof fn lemma_terminal_is_final(from: OrderStatus, to: OrderStatus)
    requires
        from.spec_is_terminal(),
        transition_allowed(from, to),
    ensures
        to == from,
{
}

/// Kinds of order.
#[derive(Debug, Clone, Copy, PartialEq, Eq, Structural)]
pub enum OrderType {
    Market,
    Limit,
    StopLoss,
    StopLimit,
    TrailingStop,
}

/// A trade order. Amounts are fixed-point (see `UNITS_PER_WHOLE`); times are
/// milliseconds since the Unix epoch; `id` is a 128-bit identifier, zero
/// standing for "not assigned yet".
#[derive(Debug, Clone)]
pub struct Order {
    pub id: u128,
    pub client_order_id: String,
    pub symbol: String,
    pub direction: TradeDirection,
    pub order_type: OrderType,
    pub quantity: i64,
    pub filled_quantity: i64,
    pub price: Option<i64>,
    pub stop_price: Option<i64>,
    pub time_in_force: TimeInForce,
    pub status: OrderStatus,
    pub exchange: String,
    pub created_at: i64,
    pub updated_at: i64,
    pub filled_at: Option<i64>,
    pub average_fill_price: Option<i64>,
    pub strategy_id: Option<String>,
    pub notes: Option<String>,
}

pub(crate) fn copy_text(o: &Option<String>) -> (r: Option<String>)
    ensures
        r == *o,
{
    match o {
        Some(s) => Some(s.clone()),
        None => None,
    }
}

impl Order {
    /// An independent copy of the order, equal to it in every field.
    pub fn snapshot(&self) -> (r: Order)
        ensures
            r == *self,
    {
        Order {
            id: self.id,
            client_order_id: self.client_order_id.clone(),
            symbol: self.symbol.clone(),
            direction: self.direction,
            order_type: self.order_type,
            quantity: self.quantity,
            filled_quantity: self.filled_quantity,
            price: self.price,
            stop_price: self.stop_price,
            time_in_force: self.time_in_force,
            status: self.status,
            exchange: self.exchange.clone(),
            created_at: self.created_at,
            updated_at: self.updated_at,
            filled_at: self.filled_at,
            average_fill_price: self.average_fill_price,
            strategy_id: copy_text(&self.strategy_id),
            notes: copy_text(&self.notes),
        }
    }
}

/// The static rules an order must meet to be accepted.
#[derive(Debug, Clone, Copy, PartialEq, Eq, Structural)]
pub enum OrderRejection {
    EmptySymbol,
    NonPositiveQuantity,
    LimitWithoutPrice,
    MarketWithPrice,
    StopWithoutStopPrice,
}

/// The first rule that `o` breaks, checked in a fixed order, if any.
pub open spec fn first_violation(o: Order) -> Option<OrderRejection> {
    if o.symbol@.len() == 0 {
        Some(OrderRejection::EmptySymbol)
    } else if o.quantity <= 0 {
        Some(OrderRejection::NonPositiveQuantity)
    } else if o.order_type == OrderType::Limit && o.price is None {
        Some(OrderRejection::LimitWithoutPrice)
    } else if o.order_type == OrderType::Market && o.price is Some {
        Some(OrderRejection::MarketWithPrice)
    } else if (o.order_type == OrderType::StopLoss || o.order_type == OrderType::StopLimit)
        && o.stop_price is None {
        Some(OrderRejection::StopWithoutStopPrice)
    } else {
        None
    }
}

/// Symbol present, quantity positive, and price fields as the kind demands.
pub open spec fn order_is_valid(o: Order) -> bool {
    first_violation(o) is None
}

impl OrderRejection {
    pub open spec fn text(self) -> Seq<char> {
        match self {
            OrderRejection::EmptySymbol => "Order symbol cannot be empty"@,
            OrderRejection::NonPositiveQuantity => "Order quantity must be positive"@,
            OrderRejection::LimitWithoutPrice => "Limit orders must specify a price"@,
            OrderRejection::MarketWithPrice => "Market orders should not specify a price"@,
            OrderRejection::StopWithoutStopPrice => "Stop orders must specify a stop price"@,
        }
    }

    /// A sentence describing the broken rule.
    pub fn message(&self) -> (r: String)
        ensures
            r@ == self.text(),
    {
        match self {
            OrderRejection::EmptySymbol => "Order symbol cannot be empty".to_owned(),
            OrderRejection::NonPositiveQuantity => "Order quantity must be positive".to_owned(),
            OrderRejection::LimitWithoutPrice => "Limit orders must specify a price".to_owned(),
            OrderRejection::MarketWithPrice => "Market orders should not specify a price".to_owned(),
            OrderRejection::StopWithoutStopPrice => "Stop orders must specify a stop price".to_owned(),
        }
    }
}

/// Checks the static rules in order and reports the first one broken.
pub fn validate_order(order: &Order) -> (r: Result<(), OrderRejection>)
    ensures
        r is Ok <==> order_is_valid(*order),
        r matches Err(e) ==> first_violation(*order) == Some(e),
{
    if order.symbol.as_str().is_empty() {
        return Err(OrderRejection::EmptySymbol);
    }
    if order.quantity <= 0 {
        return Err(OrderRejection::NonPositiveQuantity);
    }
    if order.order_type == OrderType::Limit && order.price.is_none() {
        return Err(OrderRejection::LimitWithoutPrice);
    }
    if order.order_type == OrderType::Market && order.price.is_some() {
        return Err(OrderRejection::MarketWithPrice);
    }
    if (order.order_type == OrderType::StopLoss || order.order_type == OrderType::StopLimit)
        && order.stop_price.is_none() {
        return Err(OrderRejection::StopWithoutStopPrice);
    }
    Ok(())
}

} // verus!
