//! A simulated crypto venue. It keeps its own shadow record of each order it
//! was handed and advances it with the time elapsed since submission.
use vstd::prelude::*;
use std::collections::HashMap;
use crate::ambient::{new_uuid, now_millis, simple_text, uuid_simple};
use crate::order::{Order, OrderStatus as OrderOrderStatus, UNITS_PER_WHOLE};
use super::{
    AccountBalance, Exchange, ExchangeConfig, ExchangeType, MarketSnapshot, OrderStatusResponse,
    Position, OrderStatus as ExchangeOrderStatus,
};

verus! {

broadcast use vstd::std_specs::hash::group_hash_axioms;

/// How a venue reports each platform status.
pub open spec fn venue_status_of(s: OrderOrderStatus) -> ExchangeOrderStatus {
    match s {
        OrderOrderStatus::Created => ExchangeOrderStatus::Pending,
        OrderOrderStatus::PendingSubmission => ExchangeOrderStatus::Pending,
        OrderOrderStatus::Submitted => ExchangeOrderStatus::Open,
        OrderOrderStatus::PartiallyFilled => ExchangeOrderStatus::PartiallyFilled,
        OrderOrderStatus::Filled => ExchangeOrderStatus::Filled,
        OrderOrderStatus::Cancelled => ExchangeOrderStatus::Cancelled,
        OrderOrderStatus::Rejected => ExchangeOrderStatus::Rejected,
        OrderOrderStatus::Failed => ExchangeOrderStatus::Rejected,
    }
}

/// How the platform reads each venue status.
pub open spec fn platform_status_of(s: ExchangeOrderStatus) -> OrderOrderStatus {
    match s {
        ExchangeOrderStatus::Pending => OrderOrderStatus::PendingSubmission,
        ExchangeOrderStatus::Open => OrderOrderStatus::Submitted,
        ExchangeOrderStatus::PartiallyFilled => OrderOrderStatus::PartiallyFilled,
        ExchangeOrderStatus::Filled => OrderOrderStatus::Filled,
        ExchangeOrderStatus::Cancelled => OrderOrderStatus::Cancelled,
        ExchangeOrderStatus::Rejected => OrderOrderStatus::Rejected,
        ExchangeOrderStatus::Unknown => OrderOrderStatus::Failed,
    }
}

pub fn convert_order_status(status: &OrderOrderStatus) -> (r: ExchangeOrderStatus)
    ensures
        r == venue_status_of(*status),
{
    match status {
        OrderOrderStatus::Created => ExchangeOrderStatus::Pending,
        OrderOrderStatus::PendingSubmission => ExchangeOrderStatus::Pending,
        OrderOrderStatus::Submitted => ExchangeOrderStatus::Open,
        OrderOrderStatus::PartiallyFilled => ExchangeOrderStatus::PartiallyFilled,
        OrderOrderStatus::Filled => ExchangeOrderStatus::Filled,
        OrderOrderStatus::Cancelled => ExchangeOrderStatus::Cancelled,
        OrderOrderStatus::Rejected => ExchangeOrderStatus::Rejected,
        OrderOrderStatus::Failed => ExchangeOrderStatus::Rejected,
    }
}

pub fn convert_exchange_status(status: &ExchangeOrderStatus) -> (r: OrderOrderStatus)
    ensures
        r == platform_status_of(*status),
{
    match status {
        ExchangeOrderStatus::Pending => OrderOrderStatus::PendingSubmission,
        ExchangeOrderStatus::Open => OrderOrderStatus::Submitted,
        ExchangeOrderStatus::PartiallyFilled => OrderOrderStatus::PartiallyFilled,
        ExchangeOrderStatus::Filled => OrderOrderStatus::Filled,
        ExchangeOrderStatus::Cancelled => OrderOrderStatus::Cancelled,
        ExchangeOrderStatus::Rejected => OrderOrderStatus::Rejected,
        ExchangeOrderStatus::Unknown => OrderOrderStatus::Failed,
    }
}

/// How much of an order the simulated venue has filled.
#[derive(Debug, Clone, Copy, PartialEq, Eq, Structural)]
pub enum FillLevel {
    Nothing,
    Half,
    Full,
}

/// The venue's record of one order.
#[derive(Debug, Clone)]
pub struct OrderState {
    pub order: Order,
    pub exchange_order_id: Option<String>,
    pub status: ExchangeOrderStatus,
    pub fill: FillLevel,
    pub average_price: Option<i64>,
    pub last_update: i64,
}

impl OrderState {
    pub fn snapshot(&self) -> (r: OrderState)
        ensures
            r == *self,
    {
        OrderState {
            order: self.order.snapshot(),
            exchange_order_id: crate::order::copy_text(&self.exchange_order_id),
            status: self.status,
            fill: self.fill,
            average_price: self.average_price,
            last_update: self.last_update,
        }
    }
}

/// The record after a status change made at time `at`.
pub open spec fn restamped(s: OrderState, status: ExchangeOrderStatus, at: i64) -> OrderState {
    OrderState { status, last_update: at, ..s }
}

/// Half of `q`, rounded toward zero.
pub open spec fn half_of(q: int) -> int {
    if q >= 0 {
        q / 2
    } else {
        -((-q) / 2)
    }
}

/// The quantity filled so far: nothing, half the order, or all of it.
pub open spec fn filled_of(s: OrderState) -> int {
    match s.fill {
        FillLevel::Nothing => 0,
        FillLevel::Half => half_of(s.order.quantity as int),
        FillLevel::Full => s.order.quantity as int,
    }
}

impl OrderState {
    pub fn filled_quantity(&self) -> (r: i64)
        ensures
            r == filled_of(*self),
    {
        match self.fill {
            FillLevel::Nothing => 0,
            FillLevel::Half => {
                let q = self.order.quantity;
                if q >= 0 {
                    q / 2
                } else {
                    let magnitude: i128 = 0 - q as i128;
                    (0 - magnitude / 2) as i64
                }
            },
            FillLevel::Full => self.order.quantity,
        }
    }
}

/// One step of the simulated fill progression, `elapsed` whole seconds after
/// the record was last stamped; `price` is the quote used for a first fill.
pub open spec fn simulated_step(s: OrderState, elapsed: int, price: i64) -> OrderState {
    if elapsed > 2 && s.status == ExchangeOrderStatus::Pending {
        OrderState { status: ExchangeOrderStatus::Open, ..s }
    } else if elapsed > 5 && s.status == ExchangeOrderStatus::Open {
        OrderState {
            status: ExchangeOrderStatus::PartiallyFilled,
            fill: FillLevel::Half,
            average_price: Some(price),
            ..s
        }
    } else if elapsed > 10 && s.status == ExchangeOrderStatus::PartiallyFilled {
        OrderState { status: ExchangeOrderStatus::Filled, fill: FillLevel::Full, ..s }
    } else {
        s
    }
}

/// The text of the venue-side reference for a submission.
pub open spec fn reference_text(reference: u128) -> Seq<char> {
    "EX-"@ + simple_text(reference)
}

/// Bounds and shape of a simulated quote for `symbol`.
pub open spec fn quote_is_simulated(q: MarketSnapshot, symbol: Seq<char>) -> bool {
    &&& q.symbol@ == symbol
    &&& 35_000 * UNITS_PER_WHOLE <= q.price < 36_000 * UNITS_PER_WHOLE
    &&& q.bid == q.price - q.price / 1000 / 2
    &&& q.ask == q.price + q.price / 1000 / 2
    &&& q.bid_size == 3 * UNITS_PER_WHOLE / 2
    &&& q.ask_size == 6 * UNITS_PER_WHOLE / 5
    &&& 100 * UNITS_PER_WHOLE <= q.volume < 150 * UNITS_PER_WHOLE
}

/// The symbols the simulated venue trades.
pub open spec fn listed_symbols() -> Seq<Seq<char>> {
    seq!["BTC/USD"@, "ETH/USD"@, "BNB/USD"@, "XRP/USD"@, "SOL/USD"@, "ADA/USD"@, "DOGE/USD"@]
}

/// One row of the simulated holdings; the unrealized profit is the quantity
/// times the price change.
pub open spec fn position_is(
    p: Position,
    symbol: Seq<char>,
    quantity: int,
    avg_price: int,
    current_price: int,
    realized: int,
) -> bool {
    &&& p.symbol@ == symbol
    &&& p.quantity == quantity
    &&& p.avg_price == avg_price
    &&& p.current_price == current_price
    &&& p.unrealized_pnl == pnl_of(quantity, avg_price, current_price)
    &&& p.realized_pnl == realized
}

/// The simulated account: 100000 USD of which 75000 available, and three
/// crypto balances.
pub open spec fn balance_is_simulated(b: AccountBalance) -> bool {
    &&& b.total == 100_000 * UNITS_PER_WHOLE
    &&& b.available == 75_000 * UNITS_PER_WHOLE
    &&& b.currency@ == "USD"@
    &&& b.additional_balances@.len() == 3
    &&& b.additional_balances@[0].0@ == "BTC"@
    &&& b.additional_balances@[0].1 == 3 * UNITS_PER_WHOLE / 2
    &&& b.additional_balances@[1].0@ == "ETH"@
    &&& b.additional_balances@[1].1 == 20 * UNITS_PER_WHOLE
    &&& b.additional_balances@[2].0@ == "SOL"@
    &&& b.additional_balances@[2].1 == 100 * UNITS_PER_WHOLE
}

/// Builds a quote for `symbol` from two random draws taken at time `now`:
/// a price between 35000 and 36000 with a spread of a tenth of a percent,
/// and a volume between 100 and 150.
pub fn quote_from_draws(symbol: &str, price_draw: u64, volume_draw: u64, now: i64) -> (r:
    MarketSnapshot)
    ensures
        quote_is_simulated(r, symbol@),
        r.price == 35_000 * UNITS_PER_WHOLE + price_draw % (1_000 * UNITS_PER_WHOLE) as u64,
        r.volume == 100 * UNITS_PER_WHOLE + volume_draw % (50 * UNITS_PER_WHOLE) as u64,
        r.timestamp == now,
{
    let price: i64 = 35_000 * UNITS_PER_WHOLE + (price_draw % (1_000 * UNITS_PER_WHOLE) as u64) as i64;
    let spread: i64 = price / 1000;
    let volume: i64 = 100 * UNITS_PER_WHOLE + (volume_draw % (50 * UNITS_PER_WHOLE) as u64) as i64;
    MarketSnapshot {
        symbol: symbol.to_owned(),
        price,
        bid: price - spread / 2,
        ask: price + spread / 2,
        bid_size: 3 * UNITS_PER_WHOLE / 2,
        ask_size: 6 * UNITS_PER_WHOLE / 5,
        volume,
        timestamp: now,
    }
}

/// `a / b` rounded toward zero.
pub open spec fn div_toward_zero(a: int, b: int) -> int {
    if a >= 0 {
        a / b
    } else {
        -((-a) / b)
    }
}

/// The profit of holding `quantity` bought at `avg_price` and now worth
/// `current_price`, in fixed point, rounded toward zero. A short position
/// (negative quantity) or a price fall gives a loss.
pub open spec fn pnl_of(quantity: int, avg_price: int, current_price: int) -> int {
    div_toward_zero(quantity * (current_price - avg_price), UNITS_PER_WHOLE as int)
}

/// Quantity times price gain, in fixed point; the result must fit in i64.
pub fn unrealized_pnl(quantity: i64, avg_price: i64, current_price: i64) -> (r: i64)
    requires
        i64::MIN <= pnl_of(quantity as int, avg_price as int, current_price as int) <= i64::MAX,
    ensures
        r == pnl_of(quantity as int, avg_price as int, current_price as int),
{
    let gain: i128 = current_price as i128 - avg_price as i128;
    assert(-0x8000_0000_0000_0000 <= quantity <= 0x7fff_ffff_ffff_ffff);
    assert(-0xffff_ffff_ffff_ffff <= gain <= 0xffff_ffff_ffff_ffff);
    assert(-0x7fff_ffff_ffff_ffff_8000_0000_0000_0000 <= quantity as int * gain
        <= 0x7fff_ffff_ffff_ffff_8000_0000_0000_0000) by (nonlinear_arith)
        requires
            -0x8000_0000_0000_0000 <= quantity <= 0x7fff_ffff_ffff_ffff,
            -0xffff_ffff_ffff_ffff <= gain <= 0xffff_ffff_ffff_ffff,
    ;
    let product: i128 = quantity as i128 * gain;
    let units = UNITS_PER_WHOLE as i128;
    if product >= 0 {
        (product / units) as i64
    } else {
        let magnitude: i128 = 0 - product;
        (0 - magnitude / units) as i64
    }
}

/// A simulated crypto venue adapter.
pub struct CryptoExchange {
    config: ExchangeConfig,
    connected: bool,
    orders: HashMap<u128, OrderState>,
}

impl CryptoExchange {
    pub closed spec fn spec_config(&self) -> ExchangeConfig {
        self.config
    }

    /// The venue's records, by platform order identifier.
    pub closed spec fn spec_orders(&self) -> Map<u128, OrderState> {
        self.orders@
    }

    pub fn new(config: ExchangeConfig) -> (r: CryptoExchange)
        ensures
            r.spec_config() == config,
            !r.spec_connected(),
            r.spec_orders() == Map::<u128, OrderState>::empty(),
    {
        CryptoExchange { config, connected: false, orders: HashMap::new() }
    }

    /// Credentials are present: both an API key and a secret.
    fn authenticate(&self) -> (r: Result<(), String>)
        ensures
            r is Ok <==> (self.spec_config().api_key is Some && self.spec_config().api_secret is Some),
    {
        if self.config.api_key.is_none() || self.config.api_secret.is_none() {
            return Err("API key and secret are required".to_owned());
        }
        Ok(())
    }

    fn get_ticker(&self, symbol: &str) -> (r: MarketSnapshot)
        ensures
            quote_is_simulated(r, symbol@),
    {
        let price_draw: u64 = rand::random::<u64>();
        let volume_draw: u64 = rand::random::<u64>();
        let now = now_millis();
        quote_from_draws(symbol, price_draw, volume_draw, now)
    }

    /// Stores the venue's record of a submitted order under the reference
    /// `reference`, stamped at `now`, replacing any earlier record of it.
    pub fn record_submission(&mut self, order: Order, reference: u128, now: i64)
        ensures
            final(self).spec_config() == old(self).spec_config(),
            final(self).spec_connected() == old(self).spec_connected(),
            final(self).spec_orders().dom() == old(self).spec_orders().dom().insert(order.id),
            final(self).spec_orders().remove(order.id) == old(self).spec_orders().remove(order.id),
            ({
                let s = final(self).spec_orders()[order.id];
                &&& s.order == order
                &&& s.exchange_order_id matches Some(x) && x@ == reference_text(reference)
                &&& s.status == ExchangeOrderStatus::Pending
                &&& s.fill == FillLevel::Nothing
                &&& s.average_price is None
                &&& s.last_update == now
            }),
    {
        let text = uuid_simple(reference);
        let exchange_order_id = String::from_str("EX-").concat(text.as_str());
        let id = order.id;
        let state = OrderState {
            order,
            exchange_order_id: Some(exchange_order_id),
            status: ExchangeOrderStatus::Pending,
            fill: FillLevel::Nothing,
            average_price: None,
            last_update: now,
        };
        self.orders.insert(id, state);
        assert(final(self).spec_orders().remove(id) =~= old(self).spec_orders().remove(id));
    }

    /// Marks a record cancelled at time `now`; fails when the venue holds no
    /// record of the order or never assigned it a reference.
    pub fn record_cancellation(&mut self, order_id: u128, now: i64) -> (r: Result<(), String>)
        ensures
            final(self).spec_config() == old(self).spec_config(),
            final(self).spec_connected() == old(self).spec_connected(),
            r is Ok <==> (old(self).spec_orders().contains_key(order_id) && old(
                self,
            ).spec_orders()[order_id].exchange_order_id is Some),
            r is Ok ==> final(self).spec_orders() == old(self).spec_orders().insert(
                order_id,
                restamped(old(self).spec_orders()[order_id], ExchangeOrderStatus::Cancelled, now),
            ),
            r is Err ==> final(self).spec_orders() == old(self).spec_orders(),
    {
        let state = match self.orders.get(&order_id) {
            Some(s) => s.snapshot(),
            None => return Err("Order not found".to_owned()),
        };
        if state.exchange_order_id.is_none() {
            return Err("Order has no exchange ID".to_owned());
        }
        let updated = OrderState { status: ExchangeOrderStatus::Cancelled, last_update: now, ..state };
        self.orders.insert(order_id, updated);
        Ok(())
    }

    /// Advances the record of `order_id` by the simulated progression,
    /// `elapsed` whole seconds after it was stamped, using `price` for a
    /// first fill, and reports it.
    pub fn record_progress(&mut self, order_id: u128, elapsed: i64, price: i64) -> (r: Result<
        OrderStatusResponse,
        String,
    >)
        ensures
            final(self).spec_config() == old(self).spec_config(),
            final(self).spec_connected() == old(self).spec_connected(),
            r is Ok <==> old(self).spec_orders().contains_key(order_id),
            r is Err ==> final(self).spec_orders() == old(self).spec_orders(),
            r matches Ok(resp) ==> {
                let next = simulated_step(old(self).spec_orders()[order_id], elapsed as int, price);
                &&& final(self).spec_orders() == old(self).spec_orders().insert(order_id, next)
                &&& resp.order_id == order_id
                &&& resp.exchange_order_id == next.exchange_order_id
                &&& resp.status == next.status
                &&& resp.filled_quantity == filled_of(next)
                &&& resp.remaining_quantity == next.order.quantity - filled_of(next)
                &&& resp.average_price == next.average_price
                &&& resp.last_update == next.last_update
            },
    {
        let s = match self.orders.get(&order_id) {
            Some(s) => s.snapshot(),
            None => return Err("Order not found".to_owned()),
        };
        let next = if elapsed > 2 && s.status == ExchangeOrderStatus::Pending {
            OrderState { status: ExchangeOrderStatus::Open, ..s }
        } else if elapsed > 5 && s.status == ExchangeOrderStatus::Open {
            OrderState {
                status: ExchangeOrderStatus::PartiallyFilled,
                fill: FillLevel::Half,
                average_price: Some(price),
                ..s
            }
        } else if elapsed > 10 && s.status == ExchangeOrderStatus::PartiallyFilled {
            OrderState { status: ExchangeOrderStatus::Filled, fill: FillLevel::Full, ..s }
        } else {
            s
        };
        let filled = next.filled_quantity();
        let response = OrderStatusResponse {
            order_id,
            exchange_order_id: crate::order::copy_text(&next.exchange_order_id),
            status: next.status,
            filled_quantity: filled,
            remaining_quantity: next.order.quantity - filled,
            average_price: next.average_price,
            last_update: next.last_update,
        };
        self.orders.insert(order_id, next);
        Ok(response)
    }
}

impl Exchange for CryptoExchange {
    closed spec fn spec_connected(&self) -> bool {
        self.connected
    }

    fn name(&self) -> (r: &str)
        ensures
            r@ == self.spec_config().name@,
    {
        self.config.name.as_str()
    }

    fn exchange_type(&self) -> (r: ExchangeType)
        ensures
            r == self.spec_config().exchange_type,
    {
        self.config.exchange_type
    }

    fn is_connected(&self) -> (r: bool) {
        self.connected
    }

    /// Succeeds exactly when the configuration holds credentials.
    fn connect(&mut self) -> (r: Result<(), String>)
        ensures
            r is Ok <==> (old(self).spec_config().api_key is Some && old(
                self,
            ).spec_config().api_secret is Some),
            final(self).spec_connected() == (old(self).spec_connected() || r is Ok),
            final(self).spec_config() == old(self).spec_config(),
            final(self).spec_orders() == old(self).spec_orders(),
    {
        match self.authenticate() {
            Ok(()) => {
                self.connected = true;
                Ok(())
            },
            Err(e) => Err(e),
        }
    }

    fn disconnect(&mut self) -> (r: Result<(), String>)
        ensures
            r is Ok,
            final(self).spec_config() == old(self).spec_config(),
            final(self).spec_orders() == old(self).spec_orders(),
    {
        self.connected = false;
        Ok(())
    }

    fn get_supported_assets(&self) -> (r: Result<Vec<String>, String>)
        ensures
            self.spec_connected() ==> (r matches Ok(v) && v@.map_values(|s: String| s@)
                == listed_symbols()),
    {
        if !self.connected {
            return Err("Not connected to exchange".to_owned());
        }
        let mut v: Vec<String> = Vec::new();
        v.push("BTC/USD".to_owned());
        v.push("ETH/USD".to_owned());
        v.push("BNB/USD".to_owned());
        v.push("XRP/USD".to_owned());
        v.push("SOL/USD".to_owned());
        v.push("ADA/USD".to_owned());
        v.push("DOGE/USD".to_owned());
        assert(v@.map_values(|s: String| s@) =~= listed_symbols());
        Ok(v)
    }

    fn get_market_data(&self, symbol: &str) -> (r: Result<MarketSnapshot, String>)
        ensures
            self.spec_connected() ==> (r matches Ok(q) && quote_is_simulated(q, symbol@)),
    {
        if !self.connected {
            return Err("Not connected to exchange".to_owned());
        }
        Ok(self.get_ticker(symbol))
    }

    /// Records the order as pending under a fresh venue reference.
    fn submit_order(&mut self, order: Order) -> (r: Result<(), String>)
        ensures
            final(self).spec_config() == old(self).spec_config(),
            r is Ok <==> old(self).spec_connected(),
            r is Err ==> final(self).spec_orders() == old(self).spec_orders(),
            r is Ok ==> {
                &&& final(self).spec_orders().dom() == old(self).spec_orders().dom().insert(order.id)
                &&& final(self).spec_orders().remove(order.id) == old(self).spec_orders().remove(order.id)
                &&& final(self).spec_orders()[order.id].order == order
                &&& final(self).spec_orders()[order.id].status == ExchangeOrderStatus::Pending
                &&& final(self).spec_orders()[order.id].fill == FillLevel::Nothing
                &&& final(self).spec_orders()[order.id].exchange_order_id is Some
            },
    {
        if !self.connected {
            return Err("Not connected to exchange".to_owned());
        }
        let reference = new_uuid();
        let now = now_millis();
        self.record_submission(order, reference, now);
        Ok(())
    }

    /// Cancels a known order that holds a venue reference.
    fn cancel_order(&mut self, order_id: u128) -> (r: Result<(), String>)
        ensures
            final(self).spec_config() == old(self).spec_config(),
            r is Ok <==> (old(self).spec_connected() && old(self).spec_orders().contains_key(order_id)
                && old(self).spec_orders()[order_id].exchange_order_id is Some),
            r is Err ==> final(self).spec_orders() == old(self).spec_orders(),
            r is Ok ==> final(self).spec_orders() == old(self).spec_orders().insert(
                order_id,
                restamped(
                    old(self).spec_orders()[order_id],
                    ExchangeOrderStatus::Cancelled,
                    final(self).spec_orders()[order_id].last_update,
                ),
            ),
    {
        if !self.connected {
            return Err("Not connected to exchange".to_owned());
        }
        let now = now_millis();
        self.record_cancellation(order_id, now)
    }

    /// Reports a known order after advancing its simulated progression by
    /// the time elapsed since it was stamped.
    fn get_order_status(&mut self, order_id: u128) -> (r: Result<OrderStatusResponse, String>)
        ensures
            final(self).spec_config() == old(self).spec_config(),
            r is Ok <==> (old(self).spec_connected() && old(self).spec_orders().contains_key(order_id)),
            r is Err ==> final(self).spec_orders() == old(self).spec_orders(),
            r matches Ok(resp) ==> {
                let next = final(self).spec_orders()[order_id];
                &&& final(self).spec_orders() == old(self).spec_orders().insert(order_id, next)
                &&& exists|elapsed: int, price: i64|
                    next == #[trigger] simulated_step(old(self).spec_orders()[order_id], elapsed, price)
                &&& resp.order_id == order_id
                &&& resp.status == next.status
                &&& resp.filled_quantity == filled_of(next)
                &&& resp.remaining_quantity == next.order.quantity - filled_of(next)
                &&& resp.average_price == next.average_price
                &&& resp.exchange_order_id == next.exchange_order_id
            },
    {
        if !self.connected {
            return Err("Exchange not connected".to_owned());
        }
        let last_update = match self.orders.get(&order_id) {
            Some(s) => s.last_update,
            None => return Err("Order not found".to_owned()),
        };
        let now = now_millis();
        let elapsed_ms: i128 = now as i128 - last_update as i128;
        let elapsed: i64 = if elapsed_ms > 1000 * 1000 {
            1000
        } else if elapsed_ms < 0 {
            0
        } else {
            (elapsed_ms / 1000) as i64
        };
        let price: i64 = match self.orders.get(&order_id) {
            Some(s) => {
                if s.status == ExchangeOrderStatus::Open && elapsed > 5 {
                    let symbol = s.order.symbol.as_str();
                    self.get_ticker(symbol).price
                } else {
                    0
                }
            },
            None => 0,
        };
        let r = self.record_progress(order_id, elapsed, price);
        proof {
            if r is Ok {
                let next = simulated_step(old(self).spec_orders()[order_id], elapsed as int, price);
                assert(final(self).spec_orders()[order_id] == next);
            }
        }
        r
    }

    fn get_account_balance(&self) -> (r: Result<AccountBalance, String>)
        ensures
            self.spec_connected() ==> (r matches Ok(b) && balance_is_simulated(b)),
    {
        if !self.connected {
            return Err("Not connected to exchange".to_owned());
        }
        let mut additional_balances: Vec<(String, i64)> = Vec::new();
        additional_balances.push(("BTC".to_owned(), 3 * UNITS_PER_WHOLE / 2));
        additional_balances.push(("ETH".to_owned(), 20 * UNITS_PER_WHOLE));
        additional_balances.push(("SOL".to_owned(), 100 * UNITS_PER_WHOLE));
        Ok(AccountBalance {
            total: 100_000 * UNITS_PER_WHOLE,
            available: 75_000 * UNITS_PER_WHOLE,
            currency: "USD".to_owned(),
            additional_balances,
            timestamp: now_millis(),
        })
    }

    fn get_positions(&self) -> (r: Result<Vec<Position>, String>)
        ensures
            self.spec_connected() ==> (r matches Ok(v) && v@.len() == 3 && position_is(
                v@[0],
                "BTC/USD"@,
                3 * UNITS_PER_WHOLE / 2,
                34_500 * UNITS_PER_WHOLE,
                35_200 * UNITS_PER_WHOLE,
                2_500 * UNITS_PER_WHOLE,
            ) && position_is(
                v@[1],
                "ETH/USD"@,
                20 * UNITS_PER_WHOLE,
                2_100 * UNITS_PER_WHOLE,
                2_250 * UNITS_PER_WHOLE,
                1_200 * UNITS_PER_WHOLE,
            ) && position_is(
                v@[2],
                "SOL/USD"@,
                100 * UNITS_PER_WHOLE,
                80 * UNITS_PER_WHOLE,
                165 * UNITS_PER_WHOLE / 2,
                500 * UNITS_PER_WHOLE,
            )),
    {
        if !self.connected {
            return Err("Not connected to exchange".to_owned());
        }
        let now = now_millis();
        let mut v: Vec<Position> = Vec::new();
        v.push(holding("BTC/USD", 3 * UNITS_PER_WHOLE / 2, 34_500 * UNITS_PER_WHOLE,
            35_200 * UNITS_PER_WHOLE, 2_500 * UNITS_PER_WHOLE, now));
        v.push(holding("ETH/USD", 20 * UNITS_PER_WHOLE, 2_100 * UNITS_PER_WHOLE,
            2_250 * UNITS_PER_WHOLE, 1_200 * UNITS_PER_WHOLE, now));
        v.push(holding("SOL/USD", 100 * UNITS_PER_WHOLE, 80 * UNITS_PER_WHOLE,
            165 * UNITS_PER_WHOLE / 2, 500 * UNITS_PER_WHOLE, now));
        Ok(v)
    }
}

fn holding(symbol: &str, quantity: i64, avg_price: i64, current_price: i64, realized: i64, now: i64) -> (r: Position)
    requires
        i64::MIN <= pnl_of(quantity as int, avg_price as int, current_price as int) <= i64::MAX,
    ensures
        position_is(r, symbol@, quantity as int, avg_price as int, current_price as int, realized as int),
        r.timestamp == now,
{
    Position {
        symbol: symbol.to_owned(),
        quantity,
        avg_price,
        current_price,
        unrealized_pnl: unrealized_pnl(quantity, avg_price, current_price),
        realized_pnl: realized,
        timestamp: now,
    }
}

} // verus!
