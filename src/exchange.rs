//! Execution venues: the capability every venue adapter offers, the values
//! it reports, and how adapters are configured and built.
use vstd::prelude::*;
use std::collections::HashMap;
use crate::order::Order;

pub mod crypto;

verus! {

/// The interface of an execution venue. Apart from `name`, `exchange_type`
/// and `is_connected`, every operation fails while the venue is not
/// connected.
pub trait Exchange {
    /// Whether a successful `connect` is in force.
    spec fn spec_connected(&self) -> bool;

    fn name(&self) -> &str;

    fn exchange_type(&self) -> ExchangeType;

    fn is_connected(&self) -> (r: bool)
        ensures
            r == self.spec_connected(),
    ;

    fn connect(&mut self) -> (r: Result<(), String>)
        ensures
            r is Ok ==> final(self).spec_connected(),
    ;

    fn disconnect(&mut self) -> (r: Result<(), String>)
        ensures
            !final(self).spec_connected(),
    ;

    fn get_supported_assets(&self) -> (r: Result<Vec<String>, String>)
        ensures
            !self.spec_connected() ==> r is Err,
    ;

    fn get_market_data(&self, symbol: &str) -> (r: Result<MarketSnapshot, String>)
        ensures
            !self.spec_connected() ==> r is Err,
    ;

    fn submit_order(&mut self, order: Order) -> (r: Result<(), String>)
        ensures
            !old(self).spec_connected() ==> r is Err,
            final(self).spec_connected() == old(self).spec_connected(),
    ;

    fn cancel_order(&mut self, order_id: u128) -> (r: Result<(), String>)
        ensures
            !old(self).spec_connected() ==> r is Err,
            final(self).spec_connected() == old(self).spec_connected(),
    ;

    fn get_order_status(&mut self, order_id: u128) -> (r: Result<OrderStatusResponse, String>)
        ensures
            !old(self).spec_connected() ==> r is Err,
            final(self).spec_connected() == old(self).spec_connected(),
    ;

    fn get_account_balance(&self) -> (r: Result<AccountBalance, String>)
        ensures
            !self.spec_connected() ==> r is Err,
    ;

    fn get_positions(&self) -> (r: Result<Vec<Position>, String>)
        ensures
            !self.spec_connected() ==> r is Err,
    ;
}

/// Markets a venue can serve.
#[derive(Debug, Clone, Copy, PartialEq, Eq, Structural)]
pub enum ExchangeType {
    Stock,
    Crypto,
    Forex,
    Bond,
    Commodity,
    Option,
    Future,
}

/// Quote for one symbol; amounts are fixed-point, the time in milliseconds.
#[derive(Debug, Clone)]
pub struct MarketSnapshot {
    pub symbol: String,
    pub price: i64,
    pub bid: i64,
    pub ask: i64,
    pub bid_size: i64,
    pub ask_size: i64,
    pub volume: i64,
    pub timestamp: i64,
}

/// A venue's report on one order.
#[derive(Debug, Clone)]
pub struct OrderStatusResponse {
    pub order_id: u128,
    pub exchange_order_id: Option<String>,
    pub status: OrderStatus,
    pub filled_quantity: i64,
    pub remaining_quantity: i64,
    pub average_price: Option<i64>,
    pub last_update: i64,
}

/// Status of an order as a venue sees it.
#[derive(Debug, Clone, Copy, PartialEq, Eq, Structural)]
pub enum OrderStatus {
    Pending,
    Open,
    PartiallyFilled,
    Filled,
    Cancelled,
    Rejected,
    Unknown,
}

/// Funds held at a venue.
#[derive(Debug, Clone)]
pub struct AccountBalance {
    pub total: i64,
    pub available: i64,
    pub currency: String,
    pub additional_balances: Vec<(String, i64)>,
    pub timestamp: i64,
}

/// A holding at a venue.
#[derive(Debug, Clone)]
pub struct Position {
    pub symbol: String,
    pub quantity: i64,
    pub avg_price: i64,
    pub current_price: i64,
    pub unrealized_pnl: i64,
    pub realized_pnl: i64,
    pub timestamp: i64,
}

/// Builds venue adapters from their configuration.
pub struct ExchangeFactory;

impl ExchangeFactory {
    pub fn create_crypto_exchange(config: ExchangeConfig) -> (r: Result<crypto::CryptoExchange, String>)
        ensures
            r matches Ok(ex) && ex.spec_config() == config && !ex.spec_connected()
                && ex.spec_orders().is_empty(),
    {
        Ok(crypto::CryptoExchange::new(config))
    }
}

/// How to reach and authenticate with a venue.
#[derive(Debug, Clone)]
pub struct ExchangeConfig {
    pub name: String,
    pub exchange_type: ExchangeType,
    pub api_url: String,
    pub api_key: Option<String>,
    pub api_secret: Option<String>,
    pub additional_params: HashMap<String, String>,
}

} // verus!
