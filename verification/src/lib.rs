//! LLM multiplexer: the decisions behind a proxy that routes OpenAI-compatible requests to model
//! backends and switches between the backends with user-provided scripts.
//!
//! - [`config`] validates a configuration, [`models`] holds its models by name, and [`policy`]
//!   the switch policy that it asks for.
//! - [`hooks`] says which command runs a lifecycle script and what its end means.
//! - [`middleware`] takes the handling of a request from event to event; [`flow_laws`] states
//!   what holds of it from beginning to end. [`switcher`] tells it where a model listens.
//! - [`proxy`] rewrites a request for its backend, and [`reply`] writes the answers to requests
//!   that are not forwarded, among them those for the errors in [`types`].
//! - [`host`] and [`address`] are the grammar of hosts and IP addresses; [`text`], [`json`] and
//!   [`uri`] are what the rest builds on, and [`json_reader`] says what the JSON written means.
//!
//! Reading files, running commands and talking HTTP is left to the caller.

pub mod address;
pub mod config;
pub mod flow_laws;
pub mod hooks;
pub mod host;
pub mod json;
pub mod json_reader;
pub mod middleware;
pub mod models;
pub mod policy;
pub mod proxy;
pub mod reply;
pub mod switcher;
pub mod text;
pub mod types;
pub mod uri;
