//! Core of a quote-tracking pipeline: per-symbol pollers publish formatted
//! statistics lines onto a broadcast bus; consumers (a bounded history cache,
//! a flush-on-timer durable sink, console sinks) each process their own
//! mailbox sequentially. Prices are carried as fixed-point integers with four
//! decimal places; the host shell converts at the boundary and performs all
//! I/O and scheduling.

pub mod analyse;
pub mod bus;
pub mod cache_actor;
pub mod error_actor;
pub mod file_writer;
pub mod gateway;
pub mod messages;
pub mod publish_actor;
pub mod supervisor;
pub mod ticker;
pub mod ticker_actor;
pub mod fmt;
