//! Verified core of a viewer that draws pixels commanded by remarks on a Substrate chain.
pub mod block;
pub mod block_feed;
pub mod chain_data;
pub mod comm;
pub mod command;
pub mod config;
pub mod extendable_range;
pub mod latest;
pub mod persist;
pub mod scale;
pub mod service;
pub mod service_config;
pub mod watchdog;
