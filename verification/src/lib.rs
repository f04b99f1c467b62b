//! A bilateral payment channel ledger with signed commitment snapshots.

pub mod api;
pub mod channel;
pub mod crypto;
pub mod error;
pub mod hexadecimal;
pub mod ledger;
pub mod manager;
pub mod p2p;
pub mod storage;
pub mod text;
