//! Where records go and how.

use crate::consts::{DEFAULT_TIMEOUT_SECONDS, RUSTFMT_SCHEMA_URL};
use vstd::prelude::*;

verus! {

/// The parameters of delivery.
#[derive(Debug, PartialEq, Eq)]
pub struct BackendConfig {
    /// The endpoint that every record is posted to.
    pub url: String,
    /// The token sent as a bearer credential with every request, if any.
    pub auth_token: Option<String>,
    /// The seconds that one delivery may take; thirty where `None`.
    pub timeout_seconds: Option<u64>,
}

impl BackendConfig {
    /// The seconds that one delivery may take.
    pub open spec fn spec_timeout(&self) -> u64 {
        match self.timeout_seconds {
            Some(seconds) => seconds,
            None => DEFAULT_TIMEOUT_SECONDS,
        }
    }

    /// Whether this is the default configuration: the default endpoint, no
    /// token, thirty seconds.
    pub open spec fn is_default(&self) -> bool {
        &&& self.url@ == RUSTFMT_SCHEMA_URL@
        &&& self.auth_token is None
        &&& self.timeout_seconds == Some(DEFAULT_TIMEOUT_SECONDS)
    }

    /// The characters of the token, if there is one.
    pub open spec fn token(&self) -> Option<Seq<char>> {
        match self.auth_token {
            Some(token) => Some(token@),
            None => None,
        }
    }

    /// The seconds that one delivery may take.
    #[verifier::when_used_as_spec(spec_timeout)]
    pub fn timeout(&self) -> (seconds: u64)
        ensures
            seconds == self.spec_timeout(),
    {
        match self.timeout_seconds {
            Some(seconds) => seconds,
            None => DEFAULT_TIMEOUT_SECONDS,
        }
    }
}

impl Default for BackendConfig {
    /// The default endpoint, no token, thirty seconds.
    fn default() -> (config: Self)
        ensures
            config.is_default(),
    {
        BackendConfig {
            url: RUSTFMT_SCHEMA_URL.to_owned(),
            auth_token: None,
            timeout_seconds: Some(DEFAULT_TIMEOUT_SECONDS),
        }
    }
}

impl Clone for BackendConfig {
    fn clone(&self) -> (copy: Self)
        ensures
            copy == *self,
    {
        BackendConfig {
            url: self.url.clone(),
            auth_token: self.auth_token.clone(),
            timeout_seconds: self.timeout_seconds,
        }
    }
}

} // verus!
