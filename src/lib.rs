//! An append-only message registry: each added message gets the next id from a
//! sequence counter, and queries list every record or those of one owner, one
//! topic or one id, in ascending id order.

pub mod contract;
pub mod error;
pub mod msg;
pub mod proofs;
pub mod state;
