//! Verified core of a client for the Insta360 cloud: list cloud media and
//! download the original camera files.
//!
//! The library holds the client's logic — configuration, session state,
//! request signing, the headers, URLs and queries of API calls, the
//! interpretation of HTTP statuses and response envelopes, the lenient
//! decoding of media payloads, and the decisions of a resumable download —
//! each with a contract. Sending requests and reading bodies is left to the
//! caller, who hands the library plain values (statuses, text, decoded
//! [`Json`] documents) and gets plain values back.

pub mod cli;
pub mod client;
pub mod config;
pub mod download;
pub mod error;
pub mod json;
pub mod laws;
pub mod model;
pub mod payload;
pub mod session;
pub mod signing;
pub mod text;

pub use client::{CloudClient, Endpoint};
pub use config::{ClientConfig, Platform, Region};
pub use download::{DownloadProgress, ProgressSink};
pub use error::{CloudError, Result};
pub use json::{Json, JsonNumber};
pub use model::{Envelope, FilePart, Media, MediaId, MediaKind, MediaPage, PageCursor, Profile};
pub use session::{Session, SessionStore};
pub use signing::{make_nonce, SignParams, Signature, Signer};
