use order_tracker::auth::{
    apply_refresh, not_connected_message, save_etsy_refresh_token, token_decision,
    EtsyOAuthConfig, TokenAction, TokenResponse,
};

fn empty_cfg() -> EtsyOAuthConfig {
    EtsyOAuthConfig { refresh_token: None, access_token: None, expires_at_utc_secs: None }
}

#[test]
fn refresh_round_trip_one_then_zero_refreshes() {
    let now = 1_000;
    let secret = String::new();

    // Persisting a refresh token clears the cached access token …
    let saved = save_etsy_refresh_token(&empty_cfg(), &"  tok-1  ".to_string());
    assert_eq!(saved.refresh_token, Some("tok-1".to_string()));
    assert_eq!(saved.access_token, None);
    assert_eq!(saved.expires_at_utc_secs, None);

    // … so the next acquisition performs exactly one refresh …
    assert_eq!(
        token_decision(&saved, now, &secret),
        TokenAction::Refresh("tok-1".to_string())
    );

    // … and once its response is stored, acquisitions within the validity
    // window perform zero refreshes.
    let resp = TokenResponse {
        access_token: "acc-9".to_string(),
        expires_in: Some(3600),
        refresh_token: None,
    };
    let cfg2 = apply_refresh(&saved, &resp, now);
    assert_eq!(cfg2.access_token, Some("acc-9".to_string()));
    assert_eq!(cfg2.expires_at_utc_secs, Some(now + 3600));
    assert_eq!(cfg2.refresh_token, Some("tok-1".to_string()));
    assert_eq!(
        token_decision(&cfg2, now + 10, &secret),
        TokenAction::UseCached("acc-9".to_string())
    );
}

#[test]
fn expiring_token_forces_refresh_at_margin() {
    let cfg = EtsyOAuthConfig {
        refresh_token: Some("rt".to_string()),
        access_token: Some("at".to_string()),
        expires_at_utc_secs: Some(4600),
    };
    let secret = String::new();
    // strictly more than 300 seconds must remain
    assert_eq!(token_decision(&cfg, 4299, &secret), TokenAction::UseCached("at".to_string()));
    assert_eq!(token_decision(&cfg, 4300, &secret), TokenAction::Refresh("rt".to_string()));
}

#[test]
fn missing_expiry_counts_as_expired() {
    let cfg = EtsyOAuthConfig {
        refresh_token: Some("rt".to_string()),
        access_token: Some("at".to_string()),
        expires_at_utc_secs: None,
    };
    assert_eq!(
        token_decision(&cfg, 1_000, &String::new()),
        TokenAction::Refresh("rt".to_string())
    );
}

#[test]
fn default_validity_when_response_names_none() {
    let resp = TokenResponse {
        access_token: "a".to_string(),
        expires_in: None,
        refresh_token: None,
    };
    let cfg = apply_refresh(&empty_cfg(), &resp, 500);
    assert_eq!(cfg.expires_at_utc_secs, Some(500 + 3600));
}

#[test]
fn rotated_refresh_token_replaces_the_old_one() {
    let mut base = empty_cfg();
    base.refresh_token = Some("old".to_string());
    let resp = TokenResponse {
        access_token: "a".to_string(),
        expires_in: Some(60),
        refresh_token: Some("new".to_string()),
    };
    let cfg = apply_refresh(&base, &resp, 0);
    assert_eq!(cfg.refresh_token, Some("new".to_string()));
}

#[test]
fn static_secret_is_a_fallback_and_nothing_fails_last() {
    let secret = "legacy-secret".to_string();
    assert_eq!(
        token_decision(&empty_cfg(), 0, &secret),
        TokenAction::UseStatic("legacy-secret".to_string())
    );
    assert_eq!(token_decision(&empty_cfg(), 0, &String::new()), TokenAction::NotConnected);
    assert_eq!(
        not_connected_message(),
        "Etsy not connected. Get a refresh token from order-tracker.kingsofalchemy.com/connect and paste it in Settings."
    );
}
