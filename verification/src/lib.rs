//! Backend logic of a desktop shell: a small settings record with its text
//! form, and the rules that turn one probe of a remote API into a verdict on
//! a server URL and an API key.
//!
//! Nothing here touches a file or the network. The caller reads and writes
//! the settings text, sends the probe, and hands what came back to
//! [`Config::load`] and [`validation_result`].

pub mod config;
pub mod probe;
pub mod status;
pub mod text;

pub use config::{Config, ConfigError, Stored};
pub use probe::{
    classify_status, interpret_reply, validation_result, verdict_for_status, Header, ProbeReply,
    ProbeRequest, ValidationOutcome,
};
pub use status::HttpStatus;
