//! Bookkeeping of an ESP-IDF style non-volatile storage (NVS) partition:
//! fixed-width keys, partition geometry, the fault state of the store,
//! namespace lookup, usage statistics, and the decisions of the
//! struct-per-namespace serde mapping.
use vstd::prelude::*;

pub mod error;
pub mod key;
pub mod page;
pub mod nvs;
pub mod serde;
pub mod text;

pub use error::Error;
pub use key::Key;

verus! {

/// Longest key or namespace name, in bytes.
pub const MAX_KEY_LENGTH: usize = 15;

/// A key with its terminating NUL byte.
pub const MAX_KEY_NUL_TERMINATED_LENGTH: usize = 16;

} // verus!
