//! The packets that host and device exchange.
pub mod cbw_csw;
pub mod commands;
