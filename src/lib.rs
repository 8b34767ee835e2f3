//! Traffic accounting and proxy configuration synthesis for a proxy panel.
//!
//! - `counters`: the per-tag byte table read from firewall counter listings.
//! - `engine`: one accounting cycle: usage, quotas, and when to reconfigure.
//! - `firewall`: the accounting chains, rules and the hook kept first in its chain.
//! - `synth`: the proxy configuration synthesized from the stored inbounds.
//! - `laws`: properties that relate accounting and synthesis.
//! - `models`, `json`, `text`: the data, JSON values and text helpers they share.
//! - `api`, `panel`, `validation`: the panel's request types and decisions.
pub mod api;
pub mod counters;
pub mod engine;
pub mod errors;
pub mod firewall;
pub mod json;
pub mod laws;
pub mod models;
pub mod panel;
pub mod synth;
pub mod text;
pub mod validation;

pub use errors::ApiError;
