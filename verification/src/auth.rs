//! Marketplace OAuth credential state: which token to use at a given
//! instant, how a refresh response updates the stored state, and how saving
//! a new refresh token resets it.
//!
//! The durable copy of this state lives in a file managed outside the
//! library; every function here is a pure state transition on the loaded
//! value.

use vstd::prelude::*;

use crate::sat_add_secs;
use crate::text::{chars_vec, string_of, trim_spec, trim_vec};

verus! {

/// Persisted OAuth state for the marketplace source.
#[derive(Debug, Clone, PartialEq)]
pub struct EtsyOAuthConfig {
    pub refresh_token: Option<String>,
    pub access_token: Option<String>,
    pub expires_at_utc_secs: Option<i64>,
}

impl Default for EtsyOAuthConfig {
    /// The never-connected state: no tokens, no expiry.
    fn default() -> (r: Self)
        ensures
            r.refresh_token.is_none(),
            r.access_token.is_none(),
            r.expires_at_utc_secs.is_none(),
    {
        EtsyOAuthConfig { refresh_token: None, access_token: None, expires_at_utc_secs: None }
    }
}

/// Margin, in seconds, a cached access token must still be valid for to be
/// used without a refresh.
pub const TOKEN_VALIDITY_MARGIN_SECS: i64 = 300;

/// Expiry a refresh response grants when it does not name one, in seconds.
pub const DEFAULT_EXPIRES_IN_SECS: u64 = 3600;

/// What a token acquisition attempt should do next.
#[derive(Debug, Clone, PartialEq)]
pub enum TokenAction {
    /// The cached access token is still valid; use it without a network call.
    UseCached(String),
    /// Perform an OAuth refresh-token grant with this refresh token.
    Refresh(String),
    /// No usable cached or refresh token, but a long-lived static secret is
    /// configured; use it directly.
    UseStatic(String),
    /// Nothing is configured; the caller must surface an actionable message.
    NotConnected,
}

/// The token decision as a function of the stored state, the clock, and the
/// configured static secret. A cached access token counts as valid only
/// while more than the margin remains before its expiry (a missing expiry
/// counts as 0, i.e. expired).
pub open spec fn token_decision_spec(cfg: EtsyOAuthConfig, now: int, secret: String)
    -> TokenAction {
    let expires = match cfg.expires_at_utc_secs {
        Some(e) => e as int,
        None => 0,
    };
    if cfg.access_token is Some && expires > now + TOKEN_VALIDITY_MARGIN_SECS {
        TokenAction::UseCached(cfg.access_token->Some_0)
    } else if cfg.refresh_token is Some {
        TokenAction::Refresh(cfg.refresh_token->Some_0)
    } else if secret@.len() > 0 {
        TokenAction::UseStatic(secret)
    } else {
        TokenAction::NotConnected
    }
}

/// Decide what a token acquisition attempt does next, without performing it.
pub fn token_decision(cfg: &EtsyOAuthConfig, now_secs: i64, static_secret: &String) -> (r:
    TokenAction)
    requires
        now_secs + TOKEN_VALIDITY_MARGIN_SECS <= i64::MAX,
    ensures
        r == token_decision_spec(*cfg, now_secs as int, *static_secret),
{
    let expires = match &cfg.expires_at_utc_secs {
        Some(e) => *e,
        None => 0,
    };
    match &cfg.access_token {
        Some(tok) if expires > now_secs + TOKEN_VALIDITY_MARGIN_SECS => {
            return TokenAction::UseCached(tok.clone());
        },
        _ => {},
    }
    match &cfg.refresh_token {
        Some(rt) => {
            return TokenAction::Refresh(rt.clone());
        },
        None => {},
    }
    if !static_secret.as_str().is_empty() {
        TokenAction::UseStatic(static_secret.clone())
    } else {
        TokenAction::NotConnected
    }
}

/// A successful refresh-token grant response, already decoded.
#[derive(Debug, Clone, PartialEq)]
pub struct TokenResponse {
    pub access_token: String,
    /// Seconds of validity granted, when the provider names one.
    pub expires_in: Option<u64>,
    /// A rotated refresh token, when the provider issues one.
    pub refresh_token: Option<String>,
}

/// The stored state after a successful refresh: the new access token, an
/// absolute expiry of now plus the granted validity (default when absent),
/// and the rotated refresh token if one was issued.
pub open spec fn apply_refresh_spec(cfg: EtsyOAuthConfig, tok: TokenResponse, now: int)
    -> EtsyOAuthConfig {
    let granted = match tok.expires_in {
        Some(e) => e as int,
        None => DEFAULT_EXPIRES_IN_SECS as int,
    };
    EtsyOAuthConfig {
        refresh_token: match tok.refresh_token {
            Some(rt) => Some(rt),
            None => cfg.refresh_token,
        },
        access_token: Some(tok.access_token),
        expires_at_utc_secs: Some(sat_add_secs(now, granted) as i64),
    }
}

/// Fold a successful refresh response into the stored state.
pub fn apply_refresh(cfg: &EtsyOAuthConfig, tok: &TokenResponse, now_secs: i64) -> (r:
    EtsyOAuthConfig)
    ensures
        r == apply_refresh_spec(*cfg, *tok, now_secs as int),
{
    let granted: u64 = match &tok.expires_in {
        Some(e) => *e,
        None => DEFAULT_EXPIRES_IN_SECS,
    };
    let sum: i128 = now_secs as i128 + granted as i128;
    let expires_at: i64 = if sum > i64::MAX as i128 {
        i64::MAX
    } else {
        sum as i64
    };
    let refresh_token = match &tok.refresh_token {
        Some(rt) => Some(rt.clone()),
        None => match &cfg.refresh_token {
            Some(rt) => Some(rt.clone()),
            None => None,
        },
    };
    EtsyOAuthConfig {
        refresh_token,
        access_token: Some(tok.access_token.clone()),
        expires_at_utc_secs: Some(expires_at),
    }
}

/// The stored state after saving a refresh token obtained out of band: the
/// trimmed token replaces the old one, and the cached access token and its
/// expiry are cleared so the next acquisition refreshes.
pub fn save_etsy_refresh_token(cfg: &EtsyOAuthConfig, refresh_token: &String) -> (r:
    EtsyOAuthConfig)
    ensures
        r.refresh_token is Some,
        r.refresh_token->Some_0@ == trim_spec(refresh_token@),
        r.access_token.is_none(),
        r.expires_at_utc_secs.is_none(),
{
    let trimmed = string_of(&trim_vec(&chars_vec(refresh_token.as_str())));
    EtsyOAuthConfig { refresh_token: Some(trimmed), access_token: None, expires_at_utc_secs: None }
}

/// The actionable message shown when the marketplace was never connected.
pub fn not_connected_message() -> (r: String)
    ensures
        r@
            == "Etsy not connected. Get a refresh token from order-tracker.kingsofalchemy.com/connect and paste it in Settings."@,
{
    let v = chars_vec(
        "Etsy not connected. Get a refresh token from order-tracker.kingsofalchemy.com/connect and paste it in Settings.",
    );
    string_of(&v)
}

/// Round trip of the credential state: saving a refresh token clears the
/// cached access token, so the next acquisition performs exactly one
/// refresh; once its response is folded in, any acquisition within the
/// granted validity window (minus the margin) uses the cache and performs
/// no refresh.
pub proof fn lemma_refresh_round_trip(
    saved: EtsyOAuthConfig,
    resp: TokenResponse,
    now: int,
    later: int,
    secret: String,
)
    requires
        saved.refresh_token is Some,
        saved.access_token.is_none(),
        saved.expires_at_utc_secs.is_none(),
        later + TOKEN_VALIDITY_MARGIN_SECS < sat_add_secs(
            now,
            match resp.expires_in {
                Some(e) => e as int,
                None => DEFAULT_EXPIRES_IN_SECS as int,
            },
        ),
    ensures
        token_decision_spec(saved, now, secret) == TokenAction::Refresh(
            saved.refresh_token->Some_0,
        ),
        token_decision_spec(apply_refresh_spec(saved, resp, now), later, secret)
            == TokenAction::UseCached(resp.access_token),
{
}

} // verus!
