//! Vocabulary shared by strategies and orders.
use vstd::prelude::*;

verus! {

/// Classes of tradable assets.
#[derive(Debug, Clone, Copy, PartialEq, Eq, Structural)]
pub enum AssetType {
    Stock,
    Bond,
    Crypto,
    Forex,
    Commodity,
    Option,
    Future,
    ETF,
}

/// Side of a trade.
#[derive(Debug, Clone, Copy, PartialEq, Eq, Structural)]
pub enum TradeDirection {
    Buy,
    Sell,
}

/// How long an order stays working at the venue.
#[derive(Debug, Clone, Copy, PartialEq, Eq, Structural)]
pub enum TimeInForce {
    GoodTilCanceled,
    ImmediateOrCancel,
    FillOrKill,
    DayOnly,
}

} // verus!
