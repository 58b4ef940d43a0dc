//! Memory-management building blocks: a growable buffer, shared-ownership
//! handles and cells with run-time tracked borrowing.

pub mod arc;
pub mod cell;
pub mod rc;
pub mod vec;

pub use vec::Vec;

