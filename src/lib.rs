//! Order-execution core of a multi-venue trading platform: the order state
//! machine, the order book with its event pipeline, the venue router and a
//! simulated crypto venue.
pub mod ambient;
pub mod api;
pub mod exchange;
pub mod market_data;
pub mod order;
pub mod strategy;
