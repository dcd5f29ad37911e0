//! A pool of worker threads that each own one LMDB write transaction, a
//! cursor position and a table handle, driven by bounded message channels.

pub mod message;
pub mod order;
pub mod pool;
pub mod store;
pub mod worker;
