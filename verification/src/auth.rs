//! Google sign-in: which credentials to use, when the access token must be
//! refreshed, and the pieces of the OAuth exchange.
use vstd::prelude::*;
use crate::drive::ReplyError;
use crate::models::{opt_view, UserProfile};
use crate::sync::{json_number_field, json_string_field, json_text_field, json_u64_field};
use crate::text::{
    chars_of, contains, decimal, decimal_in, find, find_in, nonblank, nonblank_in, occurs_at, or_empty,
    push_slice, push_str, replace, replace_in, string_of, trim, trim_in,
};

verus! {

/// The loopback port that receives the OAuth redirect.
pub const OAUTH_REDIRECT_PORT: u16 = 14321;

/// The redirect address registered for the OAuth client.
pub const OAUTH_REDIRECT_URI: &'static str = "http://127.0.0.1:14321";

/// A reading of the clock in seconds, or zero where there is none.
pub fn seconds_or_zero(reading: Option<u64>) -> (r: u64)
    ensures
        r == match reading {
            Some(s) => s,
            None => 0,
        },
{
    match reading {
        Some(s) => s,
        None => 0,
    }
}

/// The current Unix time in seconds; zero where the clock is set before
/// the epoch.
pub fn get_current_timestamp_secs() -> u64 {
    seconds_or_zero(crate::clock::seconds_since_epoch())
}

/// A configured value: present and not blank (it is kept as given).
pub open spec fn configured(o: Option<Seq<char>>) -> Option<Seq<char>> {
    match o {
        Some(v) => if trim(v).len() > 0 {
            Some(v)
        } else {
            None
        },
        None => None,
    }
}

/// The credential to use: the run-time variable (its primary name, or else
/// its fallback name, where the primary is unset) if not blank, else the
/// build-time primary, else the build-time fallback, else nothing.
pub open spec fn credential(
    runtime_primary: Option<Seq<char>>,
    runtime_fallback: Option<Seq<char>>,
    build_primary: Option<Seq<char>>,
    build_fallback: Option<Seq<char>>,
) -> Seq<char> {
    let runtime = match runtime_primary {
        Some(v) => Some(v),
        None => runtime_fallback,
    };
    match configured(runtime) {
        Some(v) => v,
        None => match configured(build_primary) {
            Some(v) => v,
            None => or_empty(configured(build_fallback)),
        },
    }
}

fn configured_in(o: Option<String>) -> (r: Option<String>)
    ensures
        opt_view(r) == configured(opt_view(o)),
{
    match o {
        Some(v) => {
            let c = chars_of(v.as_str());
            if trim_in(c.as_slice()).len() > 0 {
                Some(v)
            } else {
                None
            }
        },
        None => None,
    }
}

/// Chooses a Google OAuth credential from the environment at run time and
/// at build time (`GOOGLE_CLIENT_ID` then `VITE_GOOGLE_CLIENT_ID`, or the
/// same for the secret).
pub fn resolve_credential(
    runtime_primary: Option<String>,
    runtime_fallback: Option<String>,
    build_primary: Option<String>,
    build_fallback: Option<String>,
) -> (r: String)
    ensures
        r@ == credential(
            opt_view(runtime_primary),
            opt_view(runtime_fallback),
            opt_view(build_primary),
            opt_view(build_fallback),
        ),
{
    let runtime = match runtime_primary {
        Some(v) => Some(v),
        None => runtime_fallback,
    };
    match configured_in(runtime) {
        Some(v) => v,
        None => match configured_in(build_primary) {
            Some(v) => v,
            None => match configured_in(build_fallback) {
                Some(v) => v,
                None => String::new(),
            },
        },
    }
}

/// What getting an access token takes.
#[derive(Debug)]
pub enum TokenStep {
    /// The stored token is valid for more than a minute yet.
    Cached(String),
    /// The stored token has expired: refresh it with this refresh token.
    Refresh(String),
    /// There is nothing to refresh with: the user must sign in.
    SignIn,
}

/// The stored access token is used while it is valid for more than 60
/// seconds; otherwise a refresh token, if stored, is used to get a new one.
pub fn access_token_step(
    access_token: Option<String>,
    refresh_token: Option<String>,
    expiry: u64,
    now: u64,
) -> (r: TokenStep)
    requires
        now + 60 <= u64::MAX,
    ensures
        match r {
            TokenStep::Cached(t) => access_token == Some(t) && now + 60 < expiry,
            TokenStep::Refresh(t) => !(access_token is Some && now + 60 < expiry) && refresh_token
                == Some(t),
            TokenStep::SignIn => !(access_token is Some && now + 60 < expiry) && refresh_token is None,
        },
{
    match access_token {
        Some(token) => {
            if now + 60 < expiry {
                return TokenStep::Cached(token);
            }
        },
        None => {},
    }
    match refresh_token {
        Some(t) => TokenStep::Refresh(t),
        None => TokenStep::SignIn,
    }
}

/// The form body of a token refresh.
pub open spec fn refresh_body(client_id: Seq<char>, secret: Seq<char>, refresh: Seq<char>) -> Seq<
    char,
> {
    "client_id="@ + client_id + "&client_secret="@ + secret + "&refresh_token="@ + refresh
        + "&grant_type=refresh_token"@
}

/// The request that refreshes an access token: refused where the client id
/// or secret is missing.
pub fn token_refresh_request(client_id: &str, client_secret: &str, refresh_token: &str) -> (r:
    Result<String, String>)
    ensures
        match r {
            Ok(body) => client_id@.len() > 0 && client_secret@.len() > 0 && body@ == refresh_body(
                client_id@,
                client_secret@,
                refresh_token@,
            ),
            Err(e) => (client_id@.len() == 0 || client_secret@.len() == 0) && e@
                == "Google OAuth credentials missing for token refresh."@,
        },
{
    if client_id.is_empty() || client_secret.is_empty() {
        let e = chars_of("Google OAuth credentials missing for token refresh.");
        return Err(string_of(e.as_slice()));
    }
    let mut out: Vec<char> = Vec::new();
    push_str(&mut out, "client_id=");
    push_str(&mut out, client_id);
    push_str(&mut out, "&client_secret=");
    push_str(&mut out, client_secret);
    push_str(&mut out, "&refresh_token=");
    push_str(&mut out, refresh_token);
    push_str(&mut out, "&grant_type=refresh_token");
    Ok(string_of(out.as_slice()))
}

/// The expiry of a token issued now: `expires_in` seconds from now, an hour
/// where the reply gives none.
pub fn token_expiry(now: u64, expires_in: Option<u64>) -> (r: u64)
    requires
        now + match expires_in {
            Some(e) => e,
            None => 3600,
        } <= u64::MAX,
    ensures
        r == now + match expires_in {
            Some(e) => e,
            None => 3600,
        },
{
    match expires_in {
        Some(e) => now + e,
        None => now + 3600,
    }
}

/// The consent page of Google's OAuth flow for a client: offline access
/// to the profile, the e-mail address and the app's own Drive files.
pub open spec fn auth_url(client_id: Seq<char>) -> Seq<char> {
    "https://accounts.google.com/o/oauth2/v2/auth?client_id="@ + client_id
        + "&redirect_uri=http%3A%2F%2F127.0.0.1%3A14321&response_type=code&scope=openid%20https%3A%2F%2Fwww.googleapis.com%2Fauth%2Fuserinfo.profile%20https%3A%2F%2Fwww.googleapis.com%2Fauth%2Fuserinfo.email%20https%3A%2F%2Fwww.googleapis.com%2Fauth%2Fdrive.file&access_type=offline&prompt=consent"@
}

/// The address of the consent page for a client.
pub fn google_auth_url(client_id: &str) -> (r: String)
    ensures
        r@ == auth_url(client_id@),
{
    let mut out: Vec<char> = Vec::new();
    push_str(&mut out, "https://accounts.google.com/o/oauth2/v2/auth?client_id=");
    push_str(&mut out, client_id);
    push_str(
        &mut out,
        "&redirect_uri=http%3A%2F%2F127.0.0.1%3A14321&response_type=code&scope=openid%20https%3A%2F%2Fwww.googleapis.com%2Fauth%2Fuserinfo.profile%20https%3A%2F%2Fwww.googleapis.com%2Fauth%2Fuserinfo.email%20https%3A%2F%2Fwww.googleapis.com%2Fauth%2Fdrive.file&access_type=offline&prompt=consent",
    );
    string_of(out.as_slice())
}

/// The end of the code in a redirect request: the first `&`, else the
/// first space, else the end.
pub open spec fn code_end(after: Seq<char>) -> int {
    match find(after, "&"@) {
        Some(e) => e,
        None => match find(after, " "@) {
            Some(e) => e,
            None => after.len() as int,
        },
    }
}

/// The authorization code in the browser's redirect request: what follows
/// the first `code=`, up to its end, with `%2F` and `%20` decoded; empty
/// where the request has none.
pub open spec fn auth_code(request: Seq<char>) -> Seq<char> {
    match find(request, "code="@) {
        Some(pos) => {
            let after = request.skip(pos + 5);
            replace(replace(after.take(code_end(after)), "%2F"@, "/"@), "%20"@, " "@)
        },
        None => Seq::empty(),
    }
}

/// Reads the authorization code from the browser's redirect request.
pub fn extract_auth_code(request: &str) -> (r: String)
    ensures
        r@ == auth_code(request@),
{
    let req = chars_of(request);
    let key = chars_of("code=");
    let amp = chars_of("&");
    let space = chars_of(" ");
    let slash_code = chars_of("%2F");
    let slash = chars_of("/");
    let space_code = chars_of("%20");
    proof {
        reveal_strlit("code=");
        reveal_strlit("%2F");
        reveal_strlit("%20");
    }
    match find_in(req.as_slice(), key.as_slice()) {
        Some(pos) => {
            proof {
                crate::text::lemma_find(req@, key@);
            }
            assert(occurs_at(req@, key@, pos as int));
            assert(key@.len() == 5);
            let total = req.len();
            let start: usize = pos + 5;
            let after = &req.as_slice()[start..total];
            let end = match find_in(after, amp.as_slice()) {
                Some(e) => {
                    proof {
                        crate::text::lemma_find(after@, amp@);
                    }
                    assert(occurs_at(after@, amp@, e as int));
                    e
                },
                None => match find_in(after, space.as_slice()) {
                    Some(e) => {
                        proof {
                            crate::text::lemma_find(after@, space@);
                        }
                        assert(occurs_at(after@, space@, e as int));
                        e
                    },
                    None => after.len(),
                },
            };
            let raw = &after[0..end];
            let once = replace_in(raw, slash_code.as_slice(), slash.as_slice());
            let twice = replace_in(once.as_slice(), space_code.as_slice(), space.as_slice());
            string_of(twice.as_slice())
        },
        None => String::new(),
    }
}

/// A redirect request that carries a code, followed by `&`, gives that
/// code back, where the code holds no `&` and no `%` and nothing before it
/// reads `code=`.
pub proof fn auth_code_read_back(before: Seq<char>, code: Seq<char>, rest: Seq<char>)
    requires
        !contains(before, "code="@),
        !code.contains('&'),
        !code.contains('%'),
    ensures
        auth_code(before + "code="@ + code + "&"@ + rest) == code,
{
    reveal_strlit("code=");
    reveal_strlit("&");
    reveal_strlit("%2F");
    reveal_strlit("%20");
    let key = "code="@;
    let req = before + key + code + "&"@ + rest;
    let n = before.len() as int;
    assert(req.subrange(n, n + 5) =~= key);
    assert(occurs_at(req, key, n));
    assert forall|k: int| 0 <= k < n implies !#[trigger] occurs_at(req, key, k) by {
        if occurs_at(req, key, k) {
            if k + 5 <= n {
                assert(before.subrange(k, k + 5) =~= req.subrange(k, k + 5));
                assert(occurs_at(before, key, k));
            } else {
                let j = n - k;
                assert(req.subrange(k, k + 5)[j] == req[n]);
                assert(req[n] == 'c');
                assert(key[j] != 'c');
            }
        }
    }
    crate::text::lemma_find_is(req, key, n);
    let after = req.skip(n + 5);
    assert(after =~= code + seq!['&'] + rest);
    crate::text::lemma_find_char_after(code, '&', rest);
    assert("&"@ =~= seq!['&']);
    assert(code_end(after) == code.len());
    assert(after.take(code.len() as int) =~= code);
    crate::text::lemma_replace_absent(code, "%2F"@, "/"@);
    crate::text::lemma_replace_absent(code, "%20"@, " "@);
}

/// The form body that exchanges an authorization code for tokens.
pub open spec fn code_exchange_body(client_id: Seq<char>, secret: Seq<char>, code: Seq<char>) -> Seq<
    char,
> {
    "client_id="@ + client_id + "&client_secret="@ + secret + "&code="@ + code
        + "&grant_type=authorization_code&redirect_uri="@ + OAUTH_REDIRECT_URI@
}

/// Writes the form body that exchanges an authorization code for tokens.
pub fn token_exchange_body(client_id: &str, client_secret: &str, code: &str) -> (r: String)
    ensures
        r@ == code_exchange_body(client_id@, client_secret@, code@),
{
    let mut out: Vec<char> = Vec::new();
    push_str(&mut out, "client_id=");
    push_str(&mut out, client_id);
    push_str(&mut out, "&client_secret=");
    push_str(&mut out, client_secret);
    push_str(&mut out, "&code=");
    push_str(&mut out, code);
    push_str(&mut out, "&grant_type=authorization_code&redirect_uri=");
    push_str(&mut out, OAUTH_REDIRECT_URI);
    string_of(out.as_slice())
}

/// The page shown in the browser once the sign-in has gone through.
pub const SIGNED_IN_PAGE: &'static str = r#"<!DOCTYPE html>
<html>
<head>
  <meta charset="utf-8">
  <title>Voce - Authenticated</title>
</head>
<body style="background:#0a0a0a;color:#10b981;font-family:system-ui,-apple-system,BlinkMacSystemFont,'Segoe UI',Roboto,sans-serif;display:flex;align-items:center;justify-content:center;height:100vh;margin:0;">
  <div style="text-align:center;padding:2.5rem;background:#171717;border:1px solid #262626;border-radius:16px;box-shadow:0 20px 25px -5px rgba(0,0,0,0.5);max-width:380px;">
    <div style="width:48px;height:48px;background:rgba(16,185,129,0.1);border:1px solid rgba(16,185,129,0.2);border-radius:12px;display:flex;align-items:center;justify-content:center;margin:0 auto 1.25rem auto;color:#10b981;font-size:24px;font-weight:bold;">&#10003;</div>
    <h2 style="font-size:1.25rem;font-weight:600;color:#f5f5f5;margin:0 0 0.5rem 0;">Voce Authenticated</h2>
    <p style="color:#a3a3a3;font-size:0.875rem;line-height:1.5;margin:0;">Google Drive sync is ready. You can now close this tab and return to Voce.</p>
  </div>
</body>
</html>"#;

/// The HTTP response that carries a page, with its length in bytes.
pub open spec fn page_response(page: &str) -> Seq<char> {
    "HTTP/1.1 200 OK\r\nContent-Type: text/html; charset=UTF-8\r\nContent-Length: "@ + decimal(
        page.len() as nat,
    ) + "\r\nConnection: close\r\n\r\n"@ + page@
}

/// The HTTP response to the browser's redirect.
pub fn oauth_success_response() -> (r: String)
    ensures
        r@ == page_response(SIGNED_IN_PAGE),
{
    let mut out: Vec<char> = Vec::new();
    push_str(&mut out, "HTTP/1.1 200 OK\r\nContent-Type: text/html; charset=UTF-8\r\nContent-Length: ");
    let n = decimal_in(SIGNED_IN_PAGE.len());
    push_slice(&mut out, n.as_slice());
    push_str(&mut out, "\r\nConnection: close\r\n\r\n");
    push_str(&mut out, SIGNED_IN_PAGE);
    string_of(out.as_slice())
}

/// The store entries that signing out removes: the tokens, their expiry,
/// the profile and the locally cached bookmarks and history.
pub const SIGNED_OUT_KEYS: [&'static str; 6] = [
    "google_access_token",
    "google_refresh_token",
    "google_token_expiry",
    "google_user_profile",
    "local_bookmarks",
    "local_history",
];

/// The profile of nobody signed in.
pub open spec fn is_anonymous(p: UserProfile) -> bool {
    &&& p.name@ == "Anonymous User"@
    &&& p.email@ == "Not signed in"@
    &&& p.avatar_url is None
    &&& !p.is_authenticated
    &&& !p.google_drive_configured
    &&& p.voce_folder_id is None
    &&& p.bookmarks_folder_id is None
    &&& p.translations_folder_id is None
}

/// The profile shown while nobody is signed in, and after signing out.
pub fn anonymous_profile() -> (p: UserProfile)
    ensures
        is_anonymous(p),
{
    UserProfile {
        name: "Anonymous User".to_owned(),
        email: "Not signed in".to_owned(),
        avatar_url: None,
        is_authenticated: false,
        google_drive_configured: false,
        voce_folder_id: None,
        bookmarks_folder_id: None,
        translations_folder_id: None,
    }
}

/// The stored profile where there is one, the anonymous profile otherwise.
pub fn current_profile(stored: Option<UserProfile>) -> (p: UserProfile)
    ensures
        match stored {
            Some(q) => p == q,
            None => is_anonymous(p),
        },
{
    match stored {
        Some(q) => q,
        None => anonymous_profile(),
    }
}

/// The profile of a signed-in account: the user-info name (else
/// `Voce User`), e-mail (else empty) and picture, with the Drive folders
/// that could be set up; Drive counts as configured once the bookmarks
/// folder is known.
pub fn signed_in_profile(
    name: Option<String>,
    email: Option<String>,
    picture: Option<String>,
    voce_folder_id: Option<String>,
    translations_folder_id: Option<String>,
    bookmarks_folder_id: Option<String>,
) -> (p: UserProfile)
    ensures
        p.name@ == match name {
            Some(n) => n@,
            None => "Voce User"@,
        },
        p.email@ == match email {
            Some(e) => e@,
            None => Seq::<char>::empty(),
        },
        p.avatar_url == picture,
        p.is_authenticated,
        p.google_drive_configured == bookmarks_folder_id is Some,
        p.voce_folder_id == voce_folder_id,
        p.bookmarks_folder_id == bookmarks_folder_id,
        p.translations_folder_id == translations_folder_id,
{
    let configured = bookmarks_folder_id.is_some();
    UserProfile {
        name: match name {
            Some(n) => n,
            None => "Voce User".to_owned(),
        },
        email: match email {
            Some(e) => e,
            None => String::new(),
        },
        avatar_url: picture,
        is_authenticated: true,
        google_drive_configured: configured,
        voce_folder_id,
        bookmarks_folder_id,
        translations_folder_id,
    }
}

/// The message given where no token can be had without signing in.
pub const NOT_SIGNED_IN: &'static str = "Not authenticated with Google. Please sign in via Settings.";

/// The tokens of a reply from Google's token endpoint.
#[derive(Debug)]
pub struct TokenGrant {
    pub access_token: String,
    pub refresh_token: Option<String>,
    /// `expires_in`, where the reply gives it.
    pub expires_in: Option<u64>,
}

pub open spec fn opt_field(r: Option<Option<Seq<char>>>) -> Option<Seq<char>> {
    match r {
        Some(o) => o,
        None => None,
    }
}

fn flat_text(r: Option<Option<String>>) -> (o: Option<String>)
    ensures
        opt_view(o) == opt_field(crate::sync::opt_opt_view(r)),
{
    match r {
        Some(o) => o,
        None => None,
    }
}

/// Reads the tokens out of a token endpoint reply (the JSON fields
/// `access_token`, `refresh_token` and `expires_in`).
pub fn token_grant(body: &str) -> (r: Result<TokenGrant, ReplyError>)
    ensures
        match json_string_field(body@, "access_token"@) {
            None => r matches Err(ReplyError::Unreadable),
            Some(None) => r matches Err(ReplyError::MissingField),
            Some(Some(t)) => r matches Ok(g) && g.access_token@ == t && opt_view(g.refresh_token)
                == opt_field(json_string_field(body@, "refresh_token"@)) && g.expires_in == match json_number_field(body@, "expires_in"@) {
                    Some(n) => n,
                    None => None,
                },
        },
{
    match json_text_field(body, "access_token") {
        None => Err(ReplyError::Unreadable),
        Some(None) => Err(ReplyError::MissingField),
        Some(Some(t)) => {
            let refresh = flat_text(json_text_field(body, "refresh_token"));
            let expires_in = match json_u64_field(body, "expires_in") {
                Some(n) => n,
                None => None,
            };
            Ok(TokenGrant { access_token: t, refresh_token: refresh, expires_in })
        },
    }
}

/// The name, e-mail address and picture of a user-info reply; nothing
/// where the reply is not JSON.
pub fn userinfo_fields(body: &str) -> (r: Option<(Option<String>, Option<String>, Option<String>)>)
    ensures
        match json_string_field(body@, "name"@) {
            None => r is None,
            Some(n) => r matches Some(f) && opt_view(f.0) == n && opt_view(f.1) == opt_field(
                json_string_field(body@, "email"@),
            ) && opt_view(f.2) == opt_field(json_string_field(body@, "picture"@)),
        },
{
    match json_text_field(body, "name") {
        None => None,
        Some(name) => {
            let email = flat_text(json_text_field(body, "email"));
            let picture = flat_text(json_text_field(body, "picture"));
            Some((name, email, picture))
        },
    }
}

} // verus!
