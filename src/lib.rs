//! A test harness for change tracking in an analytical database: a base change
//! stream and derived streams anchored on it are drained concurrently and
//! repeatedly under background writes, reconciled once writes stop, and compared.
//!
//! The library holds the harness's statements, its per-attempt and join-and-sum
//! bookkeeping, the insertion lifecycle, the cross-stream comparison, and a model
//! of change tracking in which the protocol is proved to converge.
pub mod bench;
pub mod consume;
pub mod driver;
pub mod model;
pub mod statements;
pub mod text;
pub mod verify;
