//! Errors of the cleaner, and which of them are worth a retry.

use vstd::prelude::*;

verus! {

/// A failed HTTP request, as the library sees it: its description and the
/// two properties that decide whether it is retried.
#[derive(Debug, Clone)]
pub struct RequestFailure {
    pub description: String,
    /// The request timed out.
    pub timeout: bool,
    /// The connection could not be established.
    pub connect: bool,
}

#[derive(Debug, Clone)]
pub enum Error {
    /// HTTP request failed.
    Request(RequestFailure),
    /// The configuration could not be parsed (the parser's message).
    Config(String),
    /// A file could not be read (the system's message).
    Io(String),
    /// CloudFlare API error with its code and message.
    CloudFlareApi { code: i32, message: String },
    /// CloudFlare API returned an unsuccessful response without an error.
    CloudFlareUnsuccessful,
    /// Rate limited by the CloudFlare API.
    RateLimited,
    /// A credential is missing from both the config file and the environment.
    MissingCredential(String),
}

/// Whether an error is transient and the call is worth repeating.
pub open spec fn retryable(e: Error) -> bool {
    match e {
        Error::RateLimited => true,
        Error::Request(f) => f.timeout || f.connect,
        _ => false,
    }
}

impl Error {
    /// True if this error is retryable (transient): rate limiting, and
    /// requests that timed out or could not connect.
    pub fn is_retryable(&self) -> (r: bool)
        ensures
            r == retryable(*self),
    {
        match self {
            Error::RateLimited => true,
            Error::Request(f) => f.timeout || f.connect,
            _ => false,
        }
    }
}

} // verus!
