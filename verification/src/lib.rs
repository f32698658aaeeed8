//! Verified pieces of an intraday trading system: session clock, entry gates,
//! action and indicator configs and their overrides, action planning, feed
//! reconnection, the live loop's state machine and dashboard navigation, each
//! stated as a contract and proved.

pub mod text;
pub mod clock;
pub mod bars;
pub mod hm;
pub mod model;
pub mod session_close;
pub mod errors;
pub mod account;
pub mod broker;
pub mod order;
pub mod plan;
pub mod conditions;
pub mod dashboard;
pub mod feed;
pub mod warmup;
pub mod gates;
pub mod runtime;
pub mod cli;
pub mod overrides;
pub mod config;
pub mod live;
pub mod indicator_cfg;
pub mod config_view;
