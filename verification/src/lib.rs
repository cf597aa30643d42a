//! Collects `key=value` configuration data and prepares its delivery to a
//! remote endpoint.
//!
//! The crate holds the decisions of the pipeline: how text becomes a mapping
//! of variables, how a record is assembled, which request is sent for it and
//! what a response means. Reading files, reading the process environment and
//! awaiting the network are left to the caller, which hands the library what
//! it read and receives what to do next.

pub mod batch;
pub mod clock;
pub mod config;
pub mod consts;
pub mod delivery;
pub mod error;
pub mod parser;
pub mod record;
pub mod sender;
pub mod text;
pub mod variables;

pub use config::BackendConfig;
pub use record::{create_rustfmt_data_from_current, rustfmtData};
pub use sender::rustfmtSender;
