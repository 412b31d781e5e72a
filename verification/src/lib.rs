//! Account and quota bookkeeping for AI-service usage monitors.
//!
//! The crate models a small persistence layer — an account index, an
//! OS-backed credential vault, and a bounded per-account usage history —
//! together with the state machine of an interactive dashboard that
//! drives it. Storage operations are atomic in effect: a caller never
//! observes a partially renamed or partially removed account.

pub mod account;
pub mod dashboard;
pub mod errors;
pub mod gauge;
pub mod history;
pub mod providers;
pub mod quota;
pub mod storage;
pub mod text;
pub mod time;
pub mod vault;

pub use errors::StorageError;
