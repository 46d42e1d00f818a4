//! Verified core of a music-driven smart-bulb controller: colour wheel,
//! volume analysis, bulb discovery parsing, command framing and the
//! bookkeeping decisions of the bulb provider.

pub mod bytes;
pub mod color;
pub mod response;
pub mod lightbulb;
mod rng;
pub mod provider;
pub mod capture;
pub mod filter;
pub mod analyzer;
