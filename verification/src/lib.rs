//! Decision logic of the LLAMA safety monitor: monitor safety evaluation,
//! hold-time state machines, aggregated switches, weather safety checks,
//! configuration validation and the ASCOM Alpaca request rules.

pub mod alpaca;
pub mod config;
pub mod hold;
pub mod logging;
pub mod monitors;
pub mod requests;
pub mod safety;
pub mod switches;
pub mod text;
pub mod validation;
pub mod weather;
pub mod web;
