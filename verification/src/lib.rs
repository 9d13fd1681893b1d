//! Forward scans over a vector with in-place mutation, removal and insertion.
//!
//! [`VecMutScan`] visits each element of a vector in order and lets the caller
//! keep, mutate, remove or replace it. [`VecGrowScan`] additionally lets the
//! caller insert new elements before or after the current position, backed by
//! an overflow queue for elements that cannot yet be placed into the vector.

pub mod grow;
pub mod scan;

pub use grow::VecGrowScan;
pub use grow::VecGrowScanItem;
pub use scan::VecMutScan;
pub use scan::VecMutScanItem;
