//! Ping, packet loss and bandwidth: what a network monitor measures, decides and writes down.
//!
//! Everything that touches the network, the disk or the clock is left to the caller: the library
//! takes what was read and says what to do next.
pub mod bandwidth;
pub mod cli;
pub mod config;
pub mod console;
pub mod console_laws;
pub mod digest;
pub mod endpoint;
pub mod endpoint_laws;
pub mod exit;
pub mod exit_laws;
pub mod health;
pub mod health_laws;
pub mod interfaces;
pub mod interfaces_laws;
pub mod journal;
pub mod model;
pub mod model_laws;
pub mod monitor;
pub mod names;
pub mod names_laws;
pub mod ping;
pub mod provider;
pub mod provider_laws;
pub mod sanitize;
pub mod scalar;
pub mod scheduler;
pub mod shutdown;
pub mod string_map;
pub mod text;
pub mod text_laws;
pub mod time;
pub mod time_laws;
pub mod tls;
pub mod tls_laws;
