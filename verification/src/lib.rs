//! A wallet ledger: an append-only store of deposit and withdraw records,
//! and the balance a wallet derives from replaying its own history.

pub mod error;
pub mod transaction;
pub mod balance;
pub mod db_session_manager;
pub mod lemmas;
