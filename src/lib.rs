//! Verified core of a personal finance tracker backend: credential handling,
//! session resolution, account lifecycle decisions, owner-scoped record access
//! and the atomic bulk import.

pub mod time;
pub mod amount;
pub mod credential;
pub mod session;
pub mod account;
pub mod records;
pub mod import;
