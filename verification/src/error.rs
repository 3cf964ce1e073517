//! Error and result types of the client.

use vstd::prelude::*;

verus! {

/// Transport failure reported by the HTTP stack.
#[verifier::external_type_specification]
#[verifier::external_body]
pub struct ExHttpError(reqwest::Error);

/// Failure to decode JSON.
#[verifier::external_type_specification]
#[verifier::external_body]
pub struct ExJsonError(serde_json::Error);

/// Local I/O failure.
#[verifier::external_type_specification]
#[verifier::external_body]
pub struct ExIoError(std::io::Error);

/// Malformed URL.
#[verifier::external_type_specification]
#[verifier::external_body]
pub struct ExUrlError(url::ParseError);

/// All failures the client can surface.
#[allow(inconsistent_fields)]
#[derive(Debug)]
pub enum CloudError {
    /// Transport-level failure (DNS, TLS, connection, timeout).
    Http(reqwest::Error),
    /// The API returned a non-zero `code`/`errCode` in its JSON envelope.
    Api { code: i64, message: String },
    /// Authentication / session problem (missing, expired, or rejected token).
    Auth(String),
    /// Request-signing failed or the signing material is not configured.
    Signing(String),
    /// A response body could not be decoded into the expected shape.
    Decode(serde_json::Error),
    /// Local I/O failure while writing a downloaded file.
    Io(std::io::Error),
    /// A download ended early: fewer bytes than the server declared.
    Partial { got: u64, expected: u64 },
    /// A downloaded part failed its MD5 integrity check.
    Checksum { file: String, expected: String, got: String },
    /// A malformed or unexpected URL.
    Url(url::ParseError),
}

/// Result alias used throughout the crate.
pub type Result<T> = core::result::Result<T, CloudError>;

impl CloudError {
    /// True when re-authenticating (refresh / re-login) is the right recovery.
    pub fn is_auth(&self) -> (r: bool)
        ensures
            r == (self is Auth),
    {
        matches!(self, CloudError::Auth(_))
    }
}

} // verus!
