//! Relays the notes that arrive on Misskey antennas to chat webhooks.
//!
//! The library holds the logic: reading the settings and the antenna mapping
//! (`config`, `mapping`), building note links (`link`), the relay of one antenna as a
//! machine from outcomes to next operations (`relay`), and the supervision of all relays
//! (`driver`). The program around it performs the network operations.

use vstd::prelude::*;

pub mod config;
pub mod driver;
pub mod link;
pub mod mapping;
pub mod relay;
pub mod text;

verus! {

} // verus!
