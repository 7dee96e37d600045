//! Clipboard history core: the data model, sorting, searching and
//! de-duplication rules, the pairing crypto, the sync wire conversions and
//! the peer-to-peer sync state machine, each with its contract.

pub mod text;
pub mod model;
pub mod platform;
pub mod sort;
pub mod history;
pub mod search;
pub mod crypto;
pub mod error;
pub mod types;
pub mod sync;
pub mod network;
