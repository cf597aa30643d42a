//! The delivery client.
//!
//! A [`rustfmtSender`] owns the configuration and the HTTP client built from
//! it. Neither changes after construction, so one sender serves any number
//! of deliveries, also at the same time.

use crate::batch::{AttemptResult, BatchPolicy, BatchRun};
use crate::clock::Timestamp;
use crate::config::BackendConfig;
use crate::consts::COMMON_FILE;
use crate::delivery::{
    headers_are, request_headers, PendingDelivery, AUTHORIZATION, CONTENT_TYPE, CONTENT_TYPE_JSON,
};
use crate::error::SenderError;
use crate::record::rustfmtData;
use vstd::prelude::*;
use vstd::string::StringExecFns;

verus! {

/// The HTTP client of reqwest. The library builds it and keeps it; the
/// caller makes the requests with it.
#[verifier::external_type_specification]
#[verifier::external_body]
pub struct ExClient(reqwest::Client);

/// The error of reqwest.
#[verifier::external_type_specification]
#[verifier::external_body]
pub struct ExReqwestError(reqwest::Error);

/// `reqwest::Client::builder()`, then `ClientBuilder::timeout` with a
/// duration of `timeout_seconds` whole seconds, then `ClientBuilder::build`.
/// Whether the client can be built depends on the machine (the TLS backend,
/// the system's proxy settings), so nothing is claimed of the result.
#[verifier::external_body]
fn build_client(timeout_seconds: u64) -> Result<reqwest::Client, reqwest::Error> {
    reqwest::Client::builder().timeout(std::time::Duration::from_secs(timeout_seconds)).build()
}

/// The text that `reqwest::Error` shows of itself through its `Display`.
#[verifier::external_body]
fn error_text(error: &reqwest::Error) -> String {
    format!("{}", error)
}

/// What came of reading a file, as the caller found it.
#[derive(Debug, PartialEq, Eq)]
pub enum FileRead {
    /// There is no file at the path.
    Missing,
    /// The file could not be read as text; `reason` says why.
    Unreadable { reason: String },
    /// The text of the file.
    Content(String),
}

impl FileRead {
    /// Whether `error` is the read error that this reading of the file at
    /// `path` stands for. A reading that gave the text stands for none.
    pub open spec fn is_failure(&self, path: Seq<char>, error: SenderError) -> bool {
        match self {
            FileRead::Missing => error is FileMissing && error->FileMissing_path@ == path,
            FileRead::Unreadable { reason } => error is FileUnreadable
                && error->FileUnreadable_path@ == path && error->FileUnreadable_reason@
                == reason@,
            FileRead::Content(_) => false,
        }
    }
}

/// The delivery client.
#[allow(non_camel_case_types)]
pub struct rustfmtSender {
    config: BackendConfig,
    client: reqwest::Client,
}

impl rustfmtSender {
    /// The configuration that the sender was built with.
    pub closed spec fn configuration(&self) -> BackendConfig {
        self.config
    }

    /// The HTTP client that the sender was built with.
    pub closed spec fn http_client(&self) -> reqwest::Client {
        self.client
    }

    /// The sender for `config`. It fails only where the HTTP client cannot
    /// be built, with an error of the class `Construction`.
    pub fn new(config: BackendConfig) -> (sender: Result<Self, SenderError>)
        ensures
            sender matches Ok(built) ==> built.configuration() == config,
            sender matches Err(error) ==> error is Construction,
    {
        let built = build_client(config.timeout());
        Self::with_client(config, built)
    }

    /// The sender for the default configuration.
    pub fn new_default() -> (sender: Result<Self, SenderError>)
        ensures
            sender matches Ok(built) ==> built.configuration().is_default(),
            sender matches Err(error) ==> error is Construction,
    {
        Self::new(BackendConfig::default())
    }

    /// The sender for `config` with the client that was built for it, or the
    /// error of the class `Construction` where none could be built.
    pub fn with_client(config: BackendConfig, built: Result<reqwest::Client, reqwest::Error>) -> (sender:
        Result<Self, SenderError>)
        ensures
            built matches Ok(client) ==> (sender matches Ok(made) && made.configuration() == config
                && made.http_client() == client),
            built is Err ==> (sender matches Err(error) && error is Construction),
    {
        match built {
            Ok(client) => Ok(rustfmtSender { config, client }),
            Err(error) => Err(SenderError::Construction { reason: error_text(&error) }),
        }
    }

    /// The configuration.
    pub fn config(&self) -> (config: &BackendConfig)
        ensures
            *config == self.configuration(),
    {
        &self.config
    }

    /// The HTTP client, for the caller to make the requests with.
    pub fn client(&self) -> (client: &reqwest::Client)
        ensures
            *client == self.http_client(),
    {
        &self.client
    }

    /// The record of the variable file at `path`, collected now, from what
    /// the caller found when it read the file.
    pub fn read_rustfmt_file(&self, path: &str, read: FileRead) -> (data: Result<
        rustfmtData,
        SenderError,
    >)
        ensures
            read matches FileRead::Content(content) ==> (data matches Ok(record)
                && record.is_of_file(path@, content@) && record.timestamp.is_reading()),
            !(read is Content) ==> (data matches Err(error) && read.is_failure(path@, error)),
    {
        match read {
            FileRead::Missing => Err(SenderError::FileMissing { path: path.to_owned() }),
            FileRead::Unreadable { reason } => Err(
                SenderError::FileUnreadable { path: path.to_owned(), reason },
            ),
            FileRead::Content(content) => Ok(
                rustfmtData::from_file(path, content.as_str(), Timestamp::now()),
            ),
        }
    }

    /// The record of the schema file at `path`, collected now, from what the
    /// caller found when it read the file.
    pub fn read_rustfmt_schema_file(&self, path: &str, read: FileRead) -> (data: Result<
        rustfmtData,
        SenderError,
    >)
        ensures
            read matches FileRead::Content(content) ==> (data matches Ok(record)
                && record.is_of_schema_file(path@, content@) && record.timestamp.is_reading()),
            !(read is Content) ==> (data matches Err(error) && read.is_failure(path@, error)),
    {
        match read {
            FileRead::Missing => Err(SenderError::FileMissing { path: path.to_owned() }),
            FileRead::Unreadable { reason } => Err(
                SenderError::FileUnreadable { path: path.to_owned(), reason },
            ),
            FileRead::Content(content) => Ok(
                rustfmtData::from_schema_file(path, content.as_str(), Timestamp::now()),
            ),
        }
    }

    /// Whether `pending` is a request as this sender makes it: to the
    /// configured endpoint, with the content type and, where a token is
    /// configured, the token as a bearer credential, and with the configured
    /// time to answer.
    pub open spec fn is_request(&self, pending: PendingDelivery) -> bool {
        &&& pending.url@ == self.configuration().url@
        &&& headers_are(pending.headers@, request_headers(self.configuration().token()))
        &&& pending.timeout_seconds == self.configuration().spec_timeout()
    }

    /// The request that delivers `data`: a POST to the configured endpoint
    /// with the record as JSON, the configured token, if there is one, as a
    /// bearer credential, and the configured time to answer.
    pub fn send_rustfmt_data(&self, data: rustfmtData) -> (pending: PendingDelivery)
        ensures
            pending.record == data,
            self.is_request(pending),
    {
        let mut headers: Vec<(String, String)> = Vec::new();
        headers.push((CONTENT_TYPE.to_owned(), CONTENT_TYPE_JSON.to_owned()));
        match &self.config.auth_token {
            Some(token) => {
                let mut value = "Bearer ".to_owned();
                value.append(token.as_str());
                headers.push((AUTHORIZATION.to_owned(), value));
            },
            None => {},
        }
        PendingDelivery {
            record: data,
            url: self.config.url.clone(),
            headers,
            timeout_seconds: self.config.timeout(),
        }
    }

    /// The single-file flow up to the request: the record of the variable
    /// file at `path`, and the request that delivers it. Where the file could
    /// not be read, the flow ends with that error and nothing is sent.
    pub fn read_and_send(&self, path: &str, read: FileRead) -> (pending: Result<
        PendingDelivery,
        SenderError,
    >)
        ensures
            read matches FileRead::Content(content) ==> (pending matches Ok(request)
                && request.record.is_of_file(path@, content@)
                && request.record.timestamp.is_reading() && self.is_request(request)),
            !(read is Content) ==> (pending matches Err(error) && read.is_failure(path@, error)),
    {
        match self.read_rustfmt_file(path, read) {
            Ok(data) => Ok(self.send_rustfmt_data(data)),
            Err(error) => Err(error),
        }
    }

    /// The multi-file flow: every path is tried once, in order, whatever
    /// comes of the others.
    pub fn read_and_send_multiple(&self, paths: Vec<String>) -> (run: BatchRun)
        ensures
            run.paths() == paths@,
            run.policy() == BatchPolicy::KeepGoing,
            run.results() == Seq::<AttemptResult>::empty(),
    {
        BatchRun::new(paths, BatchPolicy::KeepGoing)
    }

    /// The well-known-file flow: the conventional file names are tried in
    /// order until one is read and answered.
    pub fn read_and_send_common_rustfmt(&self) -> (run: BatchRun)
        ensures
            run.paths().len() == 1,
            run.paths()[0]@ == COMMON_FILE@,
            run.policy() == BatchPolicy::UntilFirstSuccess,
            run.results() == Seq::<AttemptResult>::empty(),
    {
        let mut paths: Vec<String> = Vec::new();
        paths.push(COMMON_FILE.to_owned());
        BatchRun::new(paths, BatchPolicy::UntilFirstSuccess)
    }
}

} // verus!
