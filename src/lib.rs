use vstd::prelude::*;

pub mod action;
pub mod error;
pub mod snapshot;
pub mod log;
pub mod checkpoint;
pub mod validate;
pub mod commit;
pub mod cdf;
pub mod partition;

verus! {

/// Largest number of versions a log may hold.
pub const MAX_VERSIONS: usize = 0x7fff_ffff;

} // verus!
