//! Watches finalized blocks for token transfers of one mint.
//!
//! The library holds the logic: the raw block model, the extraction of
//! transfer events from it, and the state machines that drive slot
//! subscriptions. Transport, printing and argument handling live outside.
pub mod amount;
pub mod account;
pub mod program;
pub mod transaction;
pub mod block;
pub mod raw;
pub mod extract;
pub mod gateway;
pub mod coordinator;
pub mod stream;
pub mod cli;
