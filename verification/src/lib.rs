//! Screen-memory ingestion core: text analysis of recognised screen text,
//! content hashing, record preparation, and the monitoring state machine.

pub mod ascii_laws;
pub mod clock;
pub mod commands;
pub mod hashing;
pub mod laws;
pub mod monitor;
pub mod paths;
pub mod record;
pub mod summary_laws;
pub mod text;
pub mod trim_laws;

use vstd::prelude::*;

verus! {

} // verus!
