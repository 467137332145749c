//! Read-throughput benchmark core: store URL resolution, object key
//! formatting, path joining, and the windowed metrics harness.

pub mod error;
pub mod harness;
pub mod key;
pub mod offset;
pub mod store;
