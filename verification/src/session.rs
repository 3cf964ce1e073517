//! Session / token state and the pluggable persistence trait.
//!
//! A [`Session`] holds the bearer material of authenticated requests.
//! Persistence is delegated to a [`SessionStore`] the caller provides, which
//! keeps this crate free of any filesystem assumption.

use vstd::prelude::*;
use crate::error::Result;

verus! {

/// The bearer material for authenticated requests.
#[derive(Debug, Clone)]
pub struct Session {
    /// Sent as `X-User-Token`.
    pub user_token: String,
    /// A refresh token, when one was issued.
    pub refresh_token: Option<String>,
    /// Unix seconds at which `user_token` expires, if known.
    pub expires_at: Option<i64>,
    /// The account id this session belongs to.
    pub user_id: Option<String>,
}

/// Whether a session with the given expiry is expired at `now_unix`:
/// only when the expiry is known and has been reached.
pub open spec fn spec_is_expired(expires_at: Option<i64>, now_unix: i64) -> bool {
    match expires_at {
        Some(e) => now_unix >= e,
        None => false,
    }
}

/// The session an optional reference points at.
pub open spec fn session_of(s: Option<&Session>) -> Option<Session> {
    match s {
        Some(x) => Some(*x),
        None => None,
    }
}

impl Session {
    /// Build a session from just a user token.
    pub fn from_token(user_token: &str) -> (s: Session)
        ensures
            s.user_token@ == user_token@,
            s.refresh_token is None,
            s.expires_at is None,
            s.user_id is None,
    {
        Session { user_token: user_token.to_owned(), refresh_token: None, expires_at: None, user_id: None }
    }

    /// True when the token is known to be expired at `now_unix`.
    pub fn is_expired(&self, now_unix: i64) -> (r: bool)
        ensures
            r == spec_is_expired(self.expires_at, now_unix),
    {
        match self.expires_at {
            Some(e) => now_unix >= e,
            None => false,
        }
    }

    /// The session that a renewal yields: the freshly minted token and its
    /// expiry, with the refresh token and account id carried over.
    pub fn renewed(&self, token: String, expires_at: Option<i64>) -> (s: Session)
        ensures
            s.user_token == token,
            s.expires_at == expires_at,
            s.refresh_token == self.refresh_token,
            s.user_id == self.user_id,
    {
        Session {
            user_token: token,
            refresh_token: self.refresh_token.clone(),
            expires_at,
            user_id: self.user_id.clone(),
        }
    }
}

/// Persistence for a [`Session`]. Implementations decide where it lives
/// (file, keyring, platform secure storage). All methods are synchronous
/// and cheap.
pub trait SessionStore: Send + Sync {
    fn load(&self) -> Result<Option<Session>>;

    fn save(&self, session: &Session) -> Result<()>;

    fn clear(&self) -> Result<()>;
}

} // verus!
