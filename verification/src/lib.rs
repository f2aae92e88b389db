//! Driver library for AM03127 scrolling LED signage panels.
//!
//! The crate covers the wire-protocol encoder for the panel's command
//! language, a log-structured key-value store that keeps the displayed
//! content durable on raw flash, the device controller that keeps the
//! panel and the store in agreement, and the over-the-air firmware
//! update path with its alignment-constrained chunked writes.

use vstd::prelude::*;

pub mod clock;
pub mod codec;
pub mod effects;
pub mod datetime;
pub mod delete;
pub mod error;
pub mod flash;
pub mod formatting;
pub mod laws;
pub mod ota;
pub mod page;
pub mod panel;
pub mod records;
pub mod schedule;
pub mod store;
pub mod transport;
pub mod text;

verus! {

} // verus!
