//! Authentication: configuration, errors and their HTTP answers, bearer
//! token extraction, the per-request authentication decision, and the
//! authenticated principal.

use vstd::prelude::*;

use crate::text::{concat_str, owned, replace_char, replace_char_str, strip_prefix};

verus! {

// ---------------------------------------------------------------------------
// Configuration
// ---------------------------------------------------------------------------

/// OIDC authentication settings.
#[derive(Debug, Clone)]
pub struct AuthConfig {
    pub enabled: bool,
    pub issuer_url: String,
    pub expected_audience: Option<String>,
    pub dev_mode: bool,
    pub userinfo_url: Option<String>,
}

impl Default for AuthConfig {
    /// Enabled, issuer `http://localhost:8080`, no audience check, no dev
    /// mode, no userinfo endpoint.
    fn default() -> (c: AuthConfig)
        ensures
            c.enabled,
            c.issuer_url@ == "http://localhost:8080"@,
            c.expected_audience is None,
            !c.dev_mode,
            c.userinfo_url is None,
    {
        AuthConfig {
            enabled: true,
            issuer_url: owned("http://localhost:8080"),
            expected_audience: None,
            dev_mode: false,
            userinfo_url: None,
        }
    }
}

// ---------------------------------------------------------------------------
// Errors and their HTTP answers
// ---------------------------------------------------------------------------

/// A failure reported by the token-validation service: its HTTP status and
/// its message.
#[derive(Debug)]
pub struct PepFailure {
    pub status: u16,
    pub message: String,
}

/// Why a request could not be authenticated.
#[derive(Debug)]
pub enum AuthError {
    MissingToken,
    InvalidToken(String),
    InvalidClaims(String),
    /// Claims enrichment against the identity provider failed: the token
    /// cannot be resolved to a principal. An authentication failure, never
    /// an authorization one.
    EnrichmentFailed(String),
    PepError(PepFailure),
    Internal(String),
}

/// The message of an authentication error.
pub open spec fn auth_error_text(e: AuthError) -> Seq<char> {
    match e {
        AuthError::MissingToken => "Missing authentication token"@,
        AuthError::InvalidToken(m) => "Invalid token: "@ + m@,
        AuthError::InvalidClaims(m) => "Invalid claims: "@ + m@,
        AuthError::EnrichmentFailed(m) => "Token enrichment failed: "@ + m@,
        AuthError::PepError(p) => "PEP error: "@ + p.message@,
        AuthError::Internal(m) => "Internal error: "@ + m@,
    }
}

/// The `WWW-Authenticate` challenge for a 401 with the given reason (double
/// quotes in the reason become single quotes).
pub open spec fn challenge_text(reason: Seq<char>) -> Seq<char> {
    "Bearer error=\"invalid_token\", error_description=\""@ + replace_char(reason, '"', '\'') + "\""@
}

/// The body of an authentication failure response.
#[derive(Debug)]
pub enum ResponseBody {
    /// Plain text.
    Text(String),
    /// `{"error": .., "retryable": .., "detail": ..}`
    Json { error: String, retryable: bool, detail: String },
}

/// The HTTP answer to an authentication failure.
#[derive(Debug)]
pub struct AuthResponse {
    pub status: u16,
    /// The `WWW-Authenticate` header, when present.
    pub www_authenticate: Option<String>,
    pub body: ResponseBody,
}

/// The status an error is answered with, and the reason given in the
/// challenge of a 401.
pub open spec fn auth_response_spec(e: AuthError) -> (u16, Option<Seq<char>>) {
    match e {
        AuthError::EnrichmentFailed(_) => (401, Some("token enrichment failed"@)),
        AuthError::MissingToken => (401, Some("missing or invalid bearer token"@)),
        AuthError::InvalidToken(_) => (401, Some("missing or invalid bearer token"@)),
        AuthError::InvalidClaims(_) => (403, None),
        AuthError::PepError(p) => (p.status, if p.status == 401 { Some("invalid bearer token"@) } else { None }),
        AuthError::Internal(_) => (500, None),
    }
}

/// Builds the `WWW-Authenticate` challenge carried by every 401.
pub fn www_authenticate(reason: &str) -> (h: String)
    ensures
        h@ == challenge_text(reason@),
{
    let a = owned("Bearer error=\"invalid_token\", error_description=\"");
    let b = replace_char_str(reason, '"', '\'');
    let c = concat_str(a.as_str(), b.as_str());
    concat_str(c.as_str(), "\"")
}

impl AuthError {
    /// The error's message (its `Display` text).
    pub fn to_string(&self) -> (s: String)
        ensures
            s@ == auth_error_text(*self),
    {
        match self {
            AuthError::MissingToken => owned("Missing authentication token"),
            AuthError::InvalidToken(m) => concat_str("Invalid token: ", m.as_str()),
            AuthError::InvalidClaims(m) => concat_str("Invalid claims: ", m.as_str()),
            AuthError::EnrichmentFailed(m) => concat_str("Token enrichment failed: ", m.as_str()),
            AuthError::PepError(p) => concat_str("PEP error: ", p.message.as_str()),
            AuthError::Internal(m) => concat_str("Internal error: ", m.as_str()),
        }
    }

    /// The HTTP answer to this error.
    ///
    /// Every 401 carries a `WWW-Authenticate: Bearer error="invalid_token"`
    /// challenge and no other status does; enrichment failures answer 401
    /// with a retryable `token_expired` JSON body; every other error's body
    /// is its message.
    pub fn response(&self) -> (r: AuthResponse)
        ensures
            r.status == auth_response_spec(*self).0,
            r.www_authenticate is Some <==> r.status == 401,
            r.www_authenticate matches Some(h) ==> (auth_response_spec(*self).1 matches Some(reason) && h@
                == challenge_text(reason)),
            r.www_authenticate matches Some(h) ==> has_challenge_prefix(h@),
            match self {
                AuthError::EnrichmentFailed(reason) => (r.body matches ResponseBody::Json { error, retryable, detail }
                    && error@ == "token_expired"@ && retryable && detail@ == reason@),
                _ => (r.body matches ResponseBody::Text(t) && t@ == auth_error_text(*self)),
            },
    {
        match self {
            AuthError::EnrichmentFailed(reason) => {
                let h = www_authenticate("token enrichment failed");
                proof { lemma_challenge_prefix("token enrichment failed"@); }
                AuthResponse {
                    status: 401,
                    www_authenticate: Some(h),
                    body: ResponseBody::Json {
                        error: owned("token_expired"),
                        retryable: true,
                        detail: reason.clone(),
                    },
                }
            },
            AuthError::MissingToken | AuthError::InvalidToken(_) => {
                let h = www_authenticate("missing or invalid bearer token");
                proof { lemma_challenge_prefix("missing or invalid bearer token"@); }
                AuthResponse { status: 401, www_authenticate: Some(h), body: ResponseBody::Text(self.to_string()) }
            },
            AuthError::InvalidClaims(_) => {
                AuthResponse { status: 403, www_authenticate: None, body: ResponseBody::Text(self.to_string()) }
            },
            AuthError::PepError(p) => {
                let challenge = if p.status == 401 {
                    proof { lemma_challenge_prefix("invalid bearer token"@); }
                    Some(www_authenticate("invalid bearer token"))
                } else {
                    None
                };
                AuthResponse { status: p.status, www_authenticate: challenge, body: ResponseBody::Text(self.to_string()) }
            },
            AuthError::Internal(_) => {
                AuthResponse { status: 500, www_authenticate: None, body: ResponseBody::Text(self.to_string()) }
            },
        }
    }
}

/// The challenge opens with `Bearer error="invalid_token"`.
pub open spec fn has_challenge_prefix(h: Seq<char>) -> bool {
    h.len() >= "Bearer error=\"invalid_token\""@.len()
        && h.subrange(0, "Bearer error=\"invalid_token\""@.len() as int) == "Bearer error=\"invalid_token\""@
}

proof fn lemma_challenge_prefix(reason: Seq<char>)
    ensures
        has_challenge_prefix(challenge_text(reason)),
{
    reveal_strlit("Bearer error=\"invalid_token\", error_description=\"");
    reveal_strlit("Bearer error=\"invalid_token\"");
    let full = challenge_text(reason);
    let p = "Bearer error=\"invalid_token\""@;
    assert(full.subrange(0, p.len() as int) =~= p);
}

/// An enrichment failure is always answered 401 (never 403 or 500), with
/// the retry signal.
pub proof fn law_enrichment_failure_is_unauthorized(reason: String)
    ensures
        auth_response_spec(AuthError::EnrichmentFailed(reason)).0 == 401,
        auth_response_spec(AuthError::EnrichmentFailed(reason)).1 is Some,
{
}

// ---------------------------------------------------------------------------
// Bearer tokens and the per-request decision
// ---------------------------------------------------------------------------

/// The token of an `Authorization` header value of the form `Bearer <token>`.
pub fn extract_bearer_token(header: Option<&str>) -> (t: Option<String>)
    ensures
        t is Some <==> (header matches Some(h) && has_prefix_bearer(h@)),
        t matches Some(tok) ==> (header matches Some(h) && tok@ == h@.subrange(7, h@.len() as int)),
{
    proof {
        reveal_strlit("Bearer ");
    }
    match header {
        Some(h) => strip_prefix(h, "Bearer "),
        None => None,
    }
}

/// `h` starts with `Bearer ` (capital B, one space).
pub open spec fn has_prefix_bearer(h: Seq<char>) -> bool {
    crate::text::has_prefix(h, "Bearer "@)
}

/// What to do with an incoming request before it reaches a handler.
#[derive(Debug)]
pub enum AuthAction {
    /// Pass the request on unchanged.
    Forward,
    /// Pass the request on with the development principal's claims.
    ForwardWithMockClaims,
    /// Answer with this error.
    Reject(AuthError),
    /// Validate the bearer token against the issuer; `audience` is `None`
    /// when audience validation is skipped.
    Validate { token: String, audience: Option<String> },
}

/// Decides how to authenticate a request, given the bearer token it
/// carries (if any).
///
/// With authentication disabled, requests pass (with the development
/// principal in dev mode). With it enabled, a request without a token is
/// rejected — except in dev mode, which injects the development principal
/// into any request that carries no bearer token. A token is validated
/// against the configured audience, or without audience check when none is
/// configured.
pub fn auth_decision(config: &AuthConfig, bearer: Option<String>) -> (a: AuthAction)
    ensures
        !config.enabled ==> (if config.dev_mode { a is ForwardWithMockClaims } else { a is Forward }),
        config.enabled && bearer is None ==> (if config.dev_mode {
            a is ForwardWithMockClaims
        } else {
            (a matches AuthAction::Reject(e) && e is MissingToken)
        }),
        config.enabled && bearer is Some ==> (a matches AuthAction::Validate { token, audience } && token@
            == bearer->0@ && (match (audience, config.expected_audience) {
            (Some(x), Some(y)) => x@ == y@,
            (None, None) => true,
            _ => false,
        })),
{
    if !config.enabled {
        if config.dev_mode {
            return AuthAction::ForwardWithMockClaims;
        }
        return AuthAction::Forward;
    }
    match bearer {
        None => {
            if config.dev_mode {
                AuthAction::ForwardWithMockClaims
            } else {
                AuthAction::Reject(AuthError::MissingToken)
            }
        },
        Some(token) => {
            let audience = match &config.expected_audience {
                Some(aud) => Some(aud.clone()),
                None => None,
            };
            AuthAction::Validate { token, audience }
        },
    }
}

} // verus!

verus! {

// ---------------------------------------------------------------------------
// Claims and the authenticated principal
// ---------------------------------------------------------------------------

/// One element of an array-valued claim.
#[derive(Debug)]
pub enum ClaimItem {
    /// A JSON string element.
    Text(String),
    /// Any other JSON element, as JSON text.
    Other(String),
}

/// The value of a claim.
#[derive(Debug)]
pub enum ClaimValue {
    /// A JSON string.
    Text(String),
    /// A JSON array.
    Array(Vec<ClaimItem>),
    /// Any other JSON value, as JSON text.
    Other(String),
}

/// A named claim.
#[derive(Debug)]
pub struct ClaimEntry {
    pub key: String,
    pub value: ClaimValue,
}

/// No two claims share a name (the further claims of a token form a JSON
/// object).
pub open spec fn claim_keys_distinct(s: Seq<ClaimEntry>) -> bool {
    forall|i: int, j: int| 0 <= i < s.len() && 0 <= j < s.len() && i != j ==> (#[trigger] s[i]).key@ != (#[trigger] s[j]).key@
}

/// Claims that hold the same names in the same places keep their names
/// distinct.
pub proof fn law_copied_claims_keep_distinct_names(a: Seq<ClaimEntry>, b: Seq<ClaimEntry>)
    requires
        entries_eq(a, b),
        claim_keys_distinct(b),
    ensures
        claim_keys_distinct(a),
{
    assert forall|i: int, j: int| 0 <= i < a.len() && 0 <= j < a.len() && i != j implies (#[trigger] a[i]).key@
        != (#[trigger] a[j]).key@ by {
        assert(b[i].key@ != b[j].key@);
    }
}

/// The claims of a validated token; the names of `extra` are distinct (see
/// `claim_keys_distinct`).
#[derive(Debug)]
pub struct Claims {
    pub sub: String,
    pub iss: String,
    pub aud: Option<String>,
    pub exp: i64,
    pub iat: Option<i64>,
    pub email: Option<String>,
    pub name: Option<String>,
    pub preferred_username: Option<String>,
    /// Every further claim (role, groups, custom attributes).
    pub extra: Vec<ClaimEntry>,
}

/// Two claim elements hold the same content.
pub open spec fn item_eq(a: ClaimItem, b: ClaimItem) -> bool {
    match (a, b) {
        (ClaimItem::Text(x), ClaimItem::Text(y)) => x@ == y@,
        (ClaimItem::Other(x), ClaimItem::Other(y)) => x@ == y@,
        _ => false,
    }
}

/// Two claim values hold the same content.
pub open spec fn value_eq(a: ClaimValue, b: ClaimValue) -> bool {
    match (a, b) {
        (ClaimValue::Text(x), ClaimValue::Text(y)) => x@ == y@,
        (ClaimValue::Array(x), ClaimValue::Array(y)) => x@.len() == y@.len() && forall|i: int|
            0 <= i < x@.len() ==> item_eq(#[trigger] x@[i], y@[i]),
        (ClaimValue::Other(x), ClaimValue::Other(y)) => x@ == y@,
        _ => false,
    }
}

/// Two claim lists hold the same entries in the same order.
pub open spec fn entries_eq(a: Seq<ClaimEntry>, b: Seq<ClaimEntry>) -> bool {
    a.len() == b.len() && forall|i: int| 0 <= i < a.len() ==> (#[trigger] a[i]).key@ == b[i].key@ && value_eq(a[i].value, b[i].value)
}

/// The text of an optional string, by content.
pub open spec fn opt_view(o: Option<String>) -> Option<Seq<char>> {
    match o {
        Some(s) => Some(s@),
        None => None,
    }
}

pub(crate) fn copy_opt(o: &Option<String>) -> (r: Option<String>)
    ensures
        opt_view(r) == opt_view(*o),
{
    match o {
        Some(s) => Some(s.clone()),
        None => None,
    }
}

fn copy_item(it: &ClaimItem) -> (r: ClaimItem)
    ensures
        item_eq(r, *it),
{
    match it {
        ClaimItem::Text(s) => ClaimItem::Text(s.clone()),
        ClaimItem::Other(s) => ClaimItem::Other(s.clone()),
    }
}

fn copy_value(v: &ClaimValue) -> (r: ClaimValue)
    ensures
        value_eq(r, *v),
{
    match v {
        ClaimValue::Text(s) => ClaimValue::Text(s.clone()),
        ClaimValue::Other(s) => ClaimValue::Other(s.clone()),
        ClaimValue::Array(items) => {
            let mut out: Vec<ClaimItem> = Vec::new();
            let n = items.len();
            for i in 0..n
                invariant
                    n == items@.len(),
                    out@.len() == i,
                    forall|j: int| 0 <= j < i ==> item_eq(#[trigger] out@[j], items@[j]),
            {
                out.push(copy_item(&items[i]));
            }
            ClaimValue::Array(out)
        },
    }
}

fn copy_entries(v: &Vec<ClaimEntry>) -> (r: Vec<ClaimEntry>)
    ensures
        entries_eq(r@, v@),
{
    let mut out: Vec<ClaimEntry> = Vec::new();
    let n = v.len();
    for i in 0..n
        invariant
            n == v@.len(),
            out@.len() == i,
            forall|j: int| 0 <= j < i ==> (#[trigger] out@[j]).key@ == v@[j].key@ && value_eq(out@[j].value, v@[j].value),
    {
        out.push(ClaimEntry { key: v[i].key.clone(), value: copy_value(&v[i].value) });
    }
    out
}

/// A claim list with the single string claim `role`.
pub open spec fn role_only(extra: Seq<ClaimEntry>, role: Seq<char>) -> bool {
    &&& extra.len() == 1
    &&& extra[0].key@ == "role"@
    &&& extra[0].value matches ClaimValue::Text(r)
    &&& r@ == role
}

pub(crate) fn role_claim(role: &str) -> (r: Vec<ClaimEntry>)
    ensures
        role_only(r@, role@),
{
    let mut extra: Vec<ClaimEntry> = Vec::new();
    extra.push(ClaimEntry { key: owned("role"), value: ClaimValue::Text(owned(role)) });
    extra
}

/// The claims injected for requests in development mode: the development
/// user, with role `admin`.
pub fn mock_claims() -> (c: Claims)
    ensures
        c.sub@ == "dev-user-id"@,
        c.iss@ == "dev-issuer"@,
        opt_view(c.aud) == Some("dev-audience"@),
        c.exp == 9999999999,
        c.iat == Some(0i64),
        opt_view(c.email) == Some("dev@example.com"@),
        opt_view(c.name) == Some("Dev User"@),
        opt_view(c.preferred_username) == Some("dev-user"@),
        role_only(c.extra@, "admin"@),
{
    Claims {
        sub: owned("dev-user-id"),
        iss: owned("dev-issuer"),
        aud: Some(owned("dev-audience")),
        exp: 9999999999,
        iat: Some(0),
        email: Some(owned("dev@example.com")),
        name: Some(owned("Dev User")),
        preferred_username: Some(owned("dev-user")),
        extra: role_claim("admin"),
    }
}

/// The principal a request was authenticated as.
#[derive(Debug)]
pub struct AuthenticatedUser {
    pub user_id: String,
    pub username: Option<String>,
    pub email: Option<String>,
    /// The further claims of the token (role, groups, …); `None` when the
    /// user was built without a token.
    pub claims_extra: Option<Vec<ClaimEntry>>,
}

impl AuthenticatedUser {
    /// The principal named by validated claims.
    pub fn from_claims(claims: &Claims) -> (u: AuthenticatedUser)
        ensures
            u.user_id@ == claims.sub@,
            opt_view(u.username) == opt_view(claims.preferred_username),
            opt_view(u.email) == opt_view(claims.email),
            (u.claims_extra matches Some(x) && entries_eq(x@, claims.extra@)),
    {
        AuthenticatedUser {
            user_id: claims.sub.clone(),
            username: copy_opt(&claims.preferred_username),
            email: copy_opt(&claims.email),
            claims_extra: Some(copy_entries(&claims.extra)),
        }
    }

    /// Claims for authorization of this principal: subject, email and
    /// username from the principal, issuer `pdt`, no audience, no expiry.
    /// The token's further claims are passed on verbatim — a principal
    /// without a role stays without one; only a principal built without a
    /// token gets the least-privileged role `viewer`.
    pub fn to_cedar_claims(&self) -> (c: Claims)
        ensures
            c.sub@ == self.user_id@,
            c.iss@ == "pdt"@,
            c.aud is None,
            c.exp == i64::MAX,
            c.iat is None,
            opt_view(c.email) == opt_view(self.email),
            c.name is None,
            opt_view(c.preferred_username) == opt_view(self.username),
            match self.claims_extra {
                Some(orig) => entries_eq(c.extra@, orig@),
                None => role_only(c.extra@, "viewer"@),
            },
    {
        let extra = match &self.claims_extra {
            Some(orig) => copy_entries(orig),
            None => role_claim("viewer"),
        };
        Claims {
            sub: self.user_id.clone(),
            iss: owned("pdt"),
            aud: None,
            exp: i64::MAX,
            iat: None,
            email: copy_opt(&self.email),
            name: None,
            preferred_username: copy_opt(&self.username),
            extra,
        }
    }
}

} // verus!
