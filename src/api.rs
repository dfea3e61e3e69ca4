//! Request and response bodies of the transport layer, and the reading of
//! the words a client uses for an order's side, kind and time in force.
use vstd::prelude::*;
use crate::order::OrderType;
use crate::strategy::{TimeInForce, TradeDirection};

verus! {

/// Body of a failed request.
pub struct ErrorResponse {
    pub error: String,
}

/// Body of a successful request.
pub struct SuccessResponse<T> {
    pub data: T,
}

/// Request to make a strategy the active one.
pub struct SetActiveStrategyRequest {
    pub name: String,
}

/// Request to cancel an order, with an optional reason.
pub struct CancelOrderRequest {
    pub reason: Option<String>,
}

/// The text in lower case.
pub uninterp spec fn lower_of(s: Seq<char>) -> Seq<char>;

/// Relies on `str::to_lowercase`: the lower-case form of the text, which
/// depends on the characters alone.
#[verifier::external_body]
fn lowercase(s: &str) -> (r: String)
    ensures
        r@ == lower_of(s@),
{
    s.to_lowercase()
}

/// The side a lower-case word names.
pub open spec fn direction_named(t: Seq<char>) -> Option<TradeDirection> {
    if t == "buy"@ {
        Some(TradeDirection::Buy)
    } else if t == "sell"@ {
        Some(TradeDirection::Sell)
    } else {
        None
    }
}

/// The order kind a lower-case word names.
pub open spec fn order_type_named(t: Seq<char>) -> Option<OrderType> {
    if t == "market"@ {
        Some(OrderType::Market)
    } else if t == "limit"@ {
        Some(OrderType::Limit)
    } else if t == "stop"@ || t == "stoploss"@ {
        Some(OrderType::StopLoss)
    } else if t == "stoplimit"@ {
        Some(OrderType::StopLimit)
    } else if t == "trailingstop"@ {
        Some(OrderType::TrailingStop)
    } else {
        None
    }
}

/// The time in force a code names; no code means good-til-canceled.
pub open spec fn time_in_force_named(t: Option<Seq<char>>) -> Option<TimeInForce> {
    match t {
        None => Some(TimeInForce::GoodTilCanceled),
        Some(c) => if c == "gtc"@ {
            Some(TimeInForce::GoodTilCanceled)
        } else if c == "ioc"@ {
            Some(TimeInForce::ImmediateOrCancel)
        } else if c == "fok"@ {
            Some(TimeInForce::FillOrKill)
        } else if c == "day"@ {
            Some(TimeInForce::DayOnly)
        } else {
            None
        },
    }
}

fn same_text(a: &String, b: &str) -> (r: bool)
    ensures
        r == (a@ == b@),
{
    *a == b.to_owned()
}

/// Reads a side from a word already in lower case.
pub fn direction_from_lowercase(t: &str) -> (r: Option<TradeDirection>)
    ensures
        r == direction_named(t@),
{
    let w = t.to_owned();
    if same_text(&w, "buy") {
        Some(TradeDirection::Buy)
    } else if same_text(&w, "sell") {
        Some(TradeDirection::Sell)
    } else {
        None
    }
}

/// Reads a side, in any letter case.
pub fn parse_direction(text: &str) -> (r: Option<TradeDirection>)
    ensures
        r == direction_named(lower_of(text@)),
{
    let lowered = lowercase(text);
    direction_from_lowercase(lowered.as_str())
}

/// Reads an order kind from a word already in lower case.
pub fn order_type_from_lowercase(t: &str) -> (r: Option<OrderType>)
    ensures
        r == order_type_named(t@),
{
    let w = t.to_owned();
    if same_text(&w, "market") {
        Some(OrderType::Market)
    } else if same_text(&w, "limit") {
        Some(OrderType::Limit)
    } else if same_text(&w, "stop") || same_text(&w, "stoploss") {
        Some(OrderType::StopLoss)
    } else if same_text(&w, "stoplimit") {
        Some(OrderType::StopLimit)
    } else if same_text(&w, "trailingstop") {
        Some(OrderType::TrailingStop)
    } else {
        None
    }
}

/// Reads an order kind, in any letter case.
pub fn parse_order_type(text: &str) -> (r: Option<OrderType>)
    ensures
        r == order_type_named(lower_of(text@)),
{
    let lowered = lowercase(text);
    order_type_from_lowercase(lowered.as_str())
}

/// Reads a time-in-force code (`gtc`, `ioc`, `fok`, `day`); none given
/// means good-til-canceled.
pub fn parse_time_in_force(code: Option<&str>) -> (r: Option<TimeInForce>)
    ensures
        r == time_in_force_named(
            match code {
                Some(c) => Some(c@),
                None => None,
            },
        ),
{
    match code {
        None => Some(TimeInForce::GoodTilCanceled),
        Some(c) => {
            let w = c.to_owned();
            if same_text(&w, "gtc") {
                Some(TimeInForce::GoodTilCanceled)
            } else if same_text(&w, "ioc") {
                Some(TimeInForce::ImmediateOrCancel)
            } else if same_text(&w, "fok") {
                Some(TimeInForce::FillOrKill)
            } else if same_text(&w, "day") {
                Some(TimeInForce::DayOnly)
            } else {
                None
            }
        },
    }
}

impl CancelOrderRequest {
    /// The reason given, or "User requested" when none was.
    pub fn reason_or_default(&self) -> (r: String)
        ensures
            r@ == match self.reason {
                Some(s) => s@,
                None => "User requested"@,
            },
    {
        match &self.reason {
            Some(s) => s.clone(),
            None => "User requested".to_owned(),
        }
    }
}

} // verus!
