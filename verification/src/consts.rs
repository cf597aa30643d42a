//! Fixed values of the library.

use vstd::prelude::*;

verus! {

/// The endpoint that records go to where none is configured.
pub const RUSTFMT_SCHEMA_URL: &'static str = "http://localhost:8080/api/rustfmt-schema";

/// The seconds that one delivery may take where none are configured.
pub const DEFAULT_TIMEOUT_SECONDS: u64 = 30;

/// The source of a record that holds the variables of the running process.
pub const PROCESS_SOURCE: &'static str = "process_rustfmt_schema";

/// The file type that the metadata of a record read from a schema file names.
pub const SCHEMA_FILE_TYPE: &'static str = "rustfmt-schema_file";

/// How this client names itself in the metadata of a record.
pub const USER_AGENT: &'static str = "rustfmt-sender/0.1.0";

/// The source of the record that a connection test sends.
pub const TEST_SOURCE: &'static str = "test";

/// The conventional file name that is tried where no path is given.
pub const COMMON_FILE: &'static str = ".env";

} // verus!
