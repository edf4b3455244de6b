//! The access token of the web build's session.

use vstd::prelude::*;

verus! {

broadcast use vstd::string::group_string_axioms;

/// An access token, the token that refreshes it, and when it expires
/// (seconds since the epoch).
pub struct TokenInfo {
    pub access_token: String,
    pub refresh_token: String,
    pub expires_at: u64,
}

impl TokenInfo {
    /// The token received at a login at time `now`: it expires
    /// `expires_in` after `now`.
    pub fn issued(access_token: String, refresh_token: String, now: u64, expires_in: u64) -> (t: TokenInfo)
        requires
            now + expires_in <= u64::MAX,
        ensures
            t.access_token == access_token,
            t.refresh_token == refresh_token,
            t.expires_at == now + expires_in,
    {
        TokenInfo { access_token, refresh_token, expires_at: now + expires_in }
    }

    /// The value of the `Authorization` header that carries the token.
    pub fn access_header(&self) -> (h: String)
        ensures
            h@ == "Bearer "@ + self.access_token@,
    {
        let mut h = String::from_str("Bearer ");
        h.append(self.access_token.as_str());
        h
    }

    /// Whether the token counts as stale at time `now`: when it expires
    /// within the next ten seconds, or has expired.
    pub fn is_stale(&self, now: u64) -> (b: bool)
        ensures
            b == (self.expires_at <= now + 10),
    {
        now > u64::MAX - 10 || self.expires_at <= now + 10
    }
}

} // verus!
