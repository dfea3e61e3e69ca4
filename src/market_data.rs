//! Sources of market data, as the rest of the platform sees them.
use vstd::prelude::*;

verus! {

/// Kinds of market-data source, each with the provider's name.
#[derive(Debug)]
pub enum DataSourceType {
    StockExchange(String),
    CryptoExchange(String),
    ForexProvider(String),
    BondMarket(String),
    CommodityExchange(String),
    NewsProvider(String),
    SocialMedia(String),
    Custom(String),
}

/// Aggressor side of a reported trade.
#[derive(Debug, Clone, Copy, PartialEq, Eq, Structural)]
pub enum TradeSide {
    Buy,
    Sell,
    Unknown,
}

/// A feed of market data that can be connected and subscribed to symbols.
pub trait DataSource {
    fn name(&self) -> &str;

    fn source_type(&self) -> &DataSourceType;

    fn connect(&mut self) -> Result<(), String>;

    fn disconnect(&mut self) -> Result<(), String>;

    fn is_connected(&self) -> bool;

    fn subscribe(&mut self, symbols: &[String]) -> Result<(), String>;

    fn unsubscribe(&mut self, symbols: &[String]) -> Result<(), String>;
}

} // verus!
