use voce::auth::{
    access_token_step, anonymous_profile, current_profile, extract_auth_code,
    get_current_timestamp_secs, google_auth_url, oauth_success_response, resolve_credential, seconds_or_zero,
    signed_in_profile, token_exchange_body, token_expiry, token_grant, token_refresh_request,
    TokenStep, NOT_SIGNED_IN, OAUTH_REDIRECT_PORT, OAUTH_REDIRECT_URI, SIGNED_IN_PAGE,
    SIGNED_OUT_KEYS,
};
use voce::drive::ReplyError;

fn s(x: &str) -> Option<String> {
    Some(x.to_string())
}

#[test]
fn the_clock_is_after_the_epoch() {
    assert!(get_current_timestamp_secs() > 1_600_000_000);
    assert_eq!(seconds_or_zero(Some(7)), 7);
    assert_eq!(seconds_or_zero(None), 0);
}

#[test]
fn redirect_address() {
    assert_eq!(OAUTH_REDIRECT_PORT, 14321);
    assert_eq!(OAUTH_REDIRECT_URI, "http://127.0.0.1:14321");
}

#[test]
fn a_blank_runtime_credential_falls_back_to_the_build() {
    assert_eq!(resolve_credential(s("  "), s("x"), s("bp"), None), "bp");
    assert_eq!(resolve_credential(None, s(" v "), None, None), " v ");
    assert_eq!(resolve_credential(None, None, None, s("bf")), "bf");
    assert_eq!(resolve_credential(None, None, s(""), s(" ")), "");
}

#[test]
fn a_token_valid_for_more_than_a_minute_is_used() {
    assert!(matches!(access_token_step(s("tok"), s("r"), 1000, 900), TokenStep::Cached(t) if t == "tok"));
}

#[test]
fn an_expiring_token_is_refreshed() {
    assert!(matches!(access_token_step(s("tok"), s("r"), 960, 900), TokenStep::Refresh(t) if t == "r"));
    assert!(matches!(access_token_step(None, s("r"), 5000, 900), TokenStep::Refresh(t) if t == "r"));
}

#[test]
fn without_a_refresh_token_the_user_signs_in() {
    assert!(matches!(access_token_step(None, None, 0, 5), TokenStep::SignIn));
    assert!(matches!(access_token_step(s("old"), None, 10, 5), TokenStep::SignIn));
}

#[test]
fn refresh_request_needs_the_credentials() {
    assert_eq!(
        token_refresh_request("", "s", "r"),
        Err("Google OAuth credentials missing for token refresh.".to_string())
    );
    assert_eq!(
        token_refresh_request("c", "s", "r"),
        Ok("client_id=c&client_secret=s&refresh_token=r&grant_type=refresh_token".to_string())
    );
}

#[test]
fn expiry_defaults_to_an_hour() {
    assert_eq!(token_expiry(100, None), 3700);
    assert_eq!(token_expiry(100, Some(50)), 150);
}

#[test]
fn consent_page_address() {
    let url = google_auth_url("cid");
    assert!(url.starts_with(
        "https://accounts.google.com/o/oauth2/v2/auth?client_id=cid&redirect_uri=http%3A%2F%2F127.0.0.1%3A14321&response_type=code&scope=openid%20"
    ));
    assert!(url.ends_with("drive.file&access_type=offline&prompt=consent"));
}

#[test]
fn the_code_is_read_from_the_redirect() {
    assert_eq!(extract_auth_code("GET /?code=4%2F0Ab%20c&scope=email HTTP/1.1"), "4/0Ab c");
    assert_eq!(extract_auth_code("GET /?code=xyz HTTP/1.1\r\n"), "xyz");
    assert_eq!(extract_auth_code("GET /?error=access_denied HTTP/1.1"), "");
}

#[test]
fn code_exchange_form() {
    assert_eq!(
        token_exchange_body("c", "s", "k"),
        "client_id=c&client_secret=s&code=k&grant_type=authorization_code&redirect_uri=http://127.0.0.1:14321"
    );
}

#[test]
fn browser_response_carries_the_page_and_its_length() {
    let r = oauth_success_response();
    let head = format!(
        "HTTP/1.1 200 OK\r\nContent-Type: text/html; charset=UTF-8\r\nContent-Length: {}\r\nConnection: close\r\n\r\n",
        SIGNED_IN_PAGE.len()
    );
    assert_eq!(r, format!("{}{}", head, SIGNED_IN_PAGE));
}

#[test]
fn signing_out_clears_tokens_profile_and_caches() {
    assert_eq!(SIGNED_OUT_KEYS.len(), 6);
    assert!(SIGNED_OUT_KEYS.contains(&"google_refresh_token"));
    assert!(SIGNED_OUT_KEYS.contains(&"local_history"));
}

#[test]
fn the_anonymous_profile() {
    let p = anonymous_profile();
    assert_eq!(p.name, "Anonymous User");
    assert_eq!(p.email, "Not signed in");
    assert!(!p.is_authenticated);
    assert!(!p.google_drive_configured);
    assert_eq!(p.bookmarks_folder_id, None);
    let q = current_profile(None);
    assert_eq!(q.name, "Anonymous User");
    let stored = signed_in_profile(s("Ann"), s("a@x"), None, None, None, None);
    assert_eq!(current_profile(Some(stored)).name, "Ann");
}

#[test]
fn a_signed_in_profile() {
    let p = signed_in_profile(None, None, s("pic"), s("v"), s("t"), None);
    assert_eq!(p.name, "Voce User");
    assert_eq!(p.email, "");
    assert_eq!(p.avatar_url.as_deref(), Some("pic"));
    assert!(p.is_authenticated);
    assert!(!p.google_drive_configured);
    assert_eq!(p.translations_folder_id.as_deref(), Some("t"));
    let q = signed_in_profile(s("N"), s("e"), None, s("v"), s("t"), s("b"));
    assert!(q.google_drive_configured);
    assert_eq!(q.bookmarks_folder_id.as_deref(), Some("b"));
}

#[test]
fn token_replies() {
    let g = token_grant("{\"access_token\":\"a\",\"expires_in\":10,\"refresh_token\":\"r\"}").unwrap();
    assert_eq!(g.access_token, "a");
    assert_eq!(g.refresh_token.as_deref(), Some("r"));
    assert_eq!(g.expires_in, Some(10));
    let h = token_grant("{\"access_token\":\"a\"}").unwrap();
    assert_eq!(h.refresh_token, None);
    assert_eq!(h.expires_in, None);
    assert!(matches!(token_grant("{\"x\":1}"), Err(ReplyError::MissingField)));
    assert!(matches!(token_grant("nope"), Err(ReplyError::Unreadable)));
    assert_eq!(NOT_SIGNED_IN, "Not authenticated with Google. Please sign in via Settings.");
}
