//! A rate-limited client core for a trading API.
//!
//! The library holds the verified logic of the client: the quota gates that
//! pace the two request streams, the request-path construction, the response
//! decoders, and the price normalization. The surrounding binary performs the
//! actual network and file I/O and drives the pacing loop.

pub mod codec;
pub mod config;
pub mod gate;
pub mod ninja;
pub mod prices;
pub mod trade;
