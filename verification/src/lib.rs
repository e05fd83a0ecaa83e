//! An account-validation and capability framework for programs that run
//! against a ledger's account model.
//!
//! A transaction hands the program a flat list of account handles; this
//! library turns that list into strongly-typed, constraint-checked views
//! (decode), checks ownership, signatures, writability and derived addresses
//! (validate), and reconciles in-memory mutations back to the raw byte
//! buffers afterwards (cleanup).

pub mod accounts;
pub mod constraints;
pub mod error;
pub mod handle;
pub mod impls;
pub mod maybe_bool;
pub mod programs;
pub mod util;

pub mod traits;
