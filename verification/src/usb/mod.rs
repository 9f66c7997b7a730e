//! The USB bus: transactions, and the search for devices.
pub mod bulk;
pub mod bulk_laws;
pub mod ioreg;
pub mod ioreg_laws;
pub mod search;
pub mod txn;
