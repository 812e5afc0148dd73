//! Service configuration, read from environment values.
//!
//! The caller looks the variables up; this module decides what they mean:
//! defaults for absent values, boolean and port parsing, the database
//! backend and the document-store connection string.

use vstd::prelude::*;

use crate::auth::AuthConfig;
use crate::text::{chars_of, concat_str, eq_ignore_ascii_case, owned, str_eq};

verus! {

// ---------------------------------------------------------------------------
// Value parsing
// ---------------------------------------------------------------------------

/// `true` and `false` read as themselves (`bool::from_str`); any other
/// value, or none, gives the default.
pub open spec fn bool_or(v: Option<Seq<char>>, default: bool) -> bool {
    match v {
        Some(s) => if s == "true"@ {
            true
        } else if s == "false"@ {
            false
        } else {
            default
        },
        None => default,
    }
}

/// The view of an optional string.
pub open spec fn opt_view(v: Option<String>) -> Option<Seq<char>> {
    match v {
        Some(s) => Some(s@),
        None => None,
    }
}

/// Reads a boolean setting (see `bool_or`).
pub fn parse_bool_or(v: &Option<String>, default: bool) -> (b: bool)
    ensures
        b == bool_or(opt_view(*v), default),
{
    match v {
        Some(s) => if str_eq(s.as_str(), "true") {
            true
        } else if str_eq(s.as_str(), "false") {
            false
        } else {
            default
        },
        None => default,
    }
}

/// A decimal digit.
pub open spec fn is_digit(c: char) -> bool {
    '0' <= c && c <= '9'
}

/// The number a string of decimal digits denotes.
pub open spec fn digits_value(s: Seq<char>) -> int
    decreases s.len(),
{
    if s.len() == 0 {
        0
    } else {
        digits_value(s.drop_last()) * 10 + ((s.last() as int) - ('0' as int))
    }
}

/// The digits of a port: the text after an optional leading `+`.
pub open spec fn unsigned_digits(s: Seq<char>) -> Seq<char> {
    if s.len() > 0 && s[0] == '+' {
        s.drop_first()
    } else {
        s
    }
}

/// The port a text denotes (`u16::from_str`): an optional `+` then one or
/// more decimal digits, at most 65535.
pub open spec fn port_spec(s: Seq<char>) -> Option<int> {
    let d = unsigned_digits(s);
    if d.len() > 0 && (forall|i: int| 0 <= i < d.len() ==> is_digit(#[trigger] d[i])) && digits_value(d) <= 65535 {
        Some(digits_value(d))
    } else {
        None
    }
}

proof fn lemma_digits_value_nonneg(s: Seq<char>)
    requires
        forall|k: int| 0 <= k < s.len() ==> is_digit(#[trigger] s[k]),
    ensures
        digits_value(s) >= 0,
    decreases s.len(),
{
    if s.len() > 0 {
        lemma_digits_value_nonneg(s.drop_last());
        assert(is_digit(s[s.len() - 1]));
    }
}

proof fn lemma_digits_value_grows(s: Seq<char>, i: int, j: int)
    requires
        0 <= i <= j <= s.len(),
        forall|k: int| 0 <= k < s.len() ==> is_digit(#[trigger] s[k]),
    ensures
        digits_value(s.take(i)) <= digits_value(s.take(j)),
    decreases j - i,
{
    if i < j {
        lemma_digits_value_grows(s, i, j - 1);
        assert(s.take(j).drop_last() =~= s.take(j - 1));
        assert(is_digit(s[j - 1]));
        lemma_digits_value_nonneg(s.take(j - 1));
    }
}

/// Reads a port number (see `port_spec`).
pub fn parse_port(s: &str) -> (r: Option<u16>)
    ensures
        match r {
            Some(p) => port_spec(s@) == Some(p as int),
            None => port_spec(s@) is None,
        },
{
    let v = chars_of(s);
    let start: usize = if v.len() > 0 && v[0] == '+' {
        1
    } else {
        0
    };
    let ghost d = unsigned_digits(s@);
    assert(d =~= v@.skip(start as int));
    if start >= v.len() {
        return None;
    }
    let mut value: u32 = 0;
    let mut i: usize = start;
    while i < v.len()
        invariant
            start <= i <= v@.len(),
            v@ == s@,
            d == v@.skip(start as int),
            d == unsigned_digits(s@),
            forall|k: int| 0 <= k < i - start ==> is_digit(#[trigger] d[k]),
            value == digits_value(d.take(i - start)),
            value <= 65535,
        decreases v@.len() - i,
    {
        let c = v[i];
        if c < '0' || c > '9' {
            assert(!is_digit(d[i - start]));
            return None;
        }
        let digit = (c as u32) - ('0' as u32);
        assert(d.take(i + 1 - start).drop_last() =~= d.take(i - start));
        assert(d[i - start] == c);
        value = value * 10 + digit;
        if value > 65535 {
            proof {
                assert forall|k: int| 0 <= k < i + 1 - start implies is_digit(#[trigger] d[k]) by {
                    if k == i - start {
                        assert(d[k] == c);
                    }
                }
                if forall|k: int| 0 <= k < d.len() ==> is_digit(#[trigger] d[k]) {
                    lemma_digits_value_grows(d, i + 1 - start, d.len() as int);
                    assert(d.take(d.len() as int) =~= d);
                }
            }
            return None;
        }
        i = i + 1;
    }
    assert(d.take(i - start) =~= d);
    Some(value as u16)
}

// ---------------------------------------------------------------------------
// Sections
// ---------------------------------------------------------------------------

/// Where the server listens.
#[derive(Debug)]
pub struct ServerConfig {
    pub host: String,
    pub port: u16,
}

/// Document-store connection settings.
#[derive(Debug)]
pub struct DatabaseConfig {
    pub url: String,
    pub username: String,
    pub password: String,
    pub database: String,
    pub tls: bool,
    pub tls_allow_invalid: bool,
}

/// `s` without its trailing `c` characters (`str::trim_end_matches`).
pub open spec fn trim_trailing(s: Seq<char>, c: char) -> Seq<char>
    decreases s.len(),
{
    if s.len() > 0 && s.last() == c {
        trim_trailing(s.drop_last(), c)
    } else {
        s
    }
}

/// The connection string of a configuration: the URL without trailing
/// slashes, then `/?authSource=admin`, then `&tls=true` when TLS is on and
/// also `&tlsAllowInvalidCertificates=true` when invalid certificates are
/// allowed.
pub open spec fn connection_string_spec(c: &DatabaseConfig) -> Seq<char> {
    let base = trim_trailing(c.url@, '/') + "/?authSource=admin"@;
    if c.tls {
        if c.tls_allow_invalid {
            base + "&tls=true"@ + "&tlsAllowInvalidCertificates=true"@
        } else {
            base + "&tls=true"@
        }
    } else {
        base
    }
}

impl DatabaseConfig {
    /// The document-store connection string, with authentication against
    /// the admin database and the TLS options.
    pub fn connection_string(&self) -> (s: String)
        ensures
            s@ == connection_string_spec(self),
    {
        let v = chars_of(self.url.as_str());
        let mut end = v.len();
        assert(v@.take(v@.len() as int) =~= v@);
        while end > 0 && v[end - 1] == '/'
            invariant
                end <= v@.len(),
                v@ == self.url@,
                trim_trailing(self.url@, '/') == trim_trailing(v@.take(end as int), '/'),
            decreases end,
        {
            assert(v@.take(end as int).drop_last() =~= v@.take(end - 1));
            end = end - 1;
        }
        let url = crate::text::substring(&v, 0, end);
        assert(url@ =~= v@.take(end as int));
        assert(v@.take(end as int) =~= trim_trailing(v@.take(end as int), '/')) by {
            if end > 0 {
                assert(v@.take(end as int).last() == v@[end - 1]);
            }
        }

        let conn = concat_str(url.as_str(), "/?authSource=admin");
        if self.tls {
            let with_tls = concat_str(conn.as_str(), "&tls=true");
            if self.tls_allow_invalid {
                concat_str(with_tls.as_str(), "&tlsAllowInvalidCertificates=true")
            } else {
                with_tls
            }
        } else {
            conn
        }
    }
}

/// What the policy engine decides when no policy applies.
#[derive(PartialEq, Eq, Structural, Clone, Copy, Debug)]
pub enum DefaultDecision {
    Allow,
    Deny,
}

/// Authorization-policy settings.
#[derive(Debug)]
pub struct CedarConfig {
    pub enabled: bool,
    pub policy_path: String,
    pub schema_path: String,
    pub validate_on_load: bool,
    /// `allow` or `deny`.
    pub default_decision: String,
    /// Remote policy store endpoint, when policies are fetched at startup.
    pub policy_store_url: Option<String>,
    /// Bearer token for the policy store endpoint.
    pub policy_store_token: Option<String>,
}

impl CedarConfig {
    /// The default decision: `allow` allows; any other value denies.
    pub fn decision(&self) -> (d: DefaultDecision)
        ensures
            d == (if self.default_decision@ == "allow"@ {
                DefaultDecision::Allow
            } else {
                DefaultDecision::Deny
            }),
    {
        if str_eq(self.default_decision.as_str(), "allow") {
            DefaultDecision::Allow
        } else {
            DefaultDecision::Deny
        }
    }
}

/// The database holding the global data.
#[derive(PartialEq, Eq, Structural, Clone, Copy, Debug)]
pub enum DatabaseBackend {
    Mongodb,
    Sqlite,
}

impl Default for DatabaseBackend {
    /// The document store.
    fn default() -> (b: DatabaseBackend)
        ensures
            b == DatabaseBackend::Mongodb,
    {
        DatabaseBackend::Mongodb
    }
}

/// `sqlite` in any case selects the relational store; anything else, or
/// nothing, the document store. (Lower-casing maps no other text onto
/// `sqlite`.)
pub open spec fn backend_spec(v: Option<Seq<char>>) -> DatabaseBackend {
    match v {
        Some(s) => if eq_ignore_ascii_case(s, "sqlite"@) {
            DatabaseBackend::Sqlite
        } else {
            DatabaseBackend::Mongodb
        },
        None => DatabaseBackend::Mongodb,
    }
}

/// The application configuration.
#[derive(Debug)]
pub struct Config {
    pub server: ServerConfig,
    pub database: DatabaseConfig,
    pub database_backend: DatabaseBackend,
    pub sqlite_path: String,
    pub auth: AuthConfig,
    pub cedar: CedarConfig,
}

/// The environment values the configuration is read from (`None` for an
/// unset variable).
#[derive(Debug)]
pub struct EnvValues {
    pub cedar_enabled: Option<String>,
    pub cedar_policy_path: Option<String>,
    pub cedar_schema_path: Option<String>,
    pub cedar_validate_on_load: Option<String>,
    pub cedar_default_decision: Option<String>,
    pub cedar_policy_store_url: Option<String>,
    pub cedar_policy_store_token: Option<String>,
    pub db_backend: Option<String>,
    pub host: Option<String>,
    pub port: Option<String>,
    pub documentdb_url: Option<String>,
    pub documentdb_username: Option<String>,
    pub documentdb_password: Option<String>,
    pub documentdb_database: Option<String>,
    pub documentdb_tls: Option<String>,
    pub documentdb_tls_allow_invalid: Option<String>,
    pub sqlite_path: Option<String>,
    pub auth_enabled: Option<String>,
    pub auth_issuer_url: Option<String>,
    pub auth_audience: Option<String>,
    pub auth_dev_mode: Option<String>,
    pub auth_userinfo_url: Option<String>,
}

/// Why the configuration could not be read.
#[derive(PartialEq, Eq, Structural, Clone, Copy, Debug)]
pub enum ConfigError {
    /// `PDT_PORT` is not a port number.
    InvalidPort,
}

impl ConfigError {
    /// The message of the error.
    pub fn message(&self) -> (m: String)
        ensures
            m@ == "Invalid PDT_PORT"@,
    {
        owned("Invalid PDT_PORT")
    }
}

/// The value of a setting, or a default.
pub open spec fn string_or(v: Option<String>, default: Seq<char>) -> Seq<char> {
    match v {
        Some(s) => s@,
        None => default,
    }
}

fn value_or(v: &Option<String>, default: &str) -> (s: String)
    ensures
        s@ == string_or(*v, default@),
{
    match v {
        Some(x) => x.clone(),
        None => owned(default),
    }
}

fn copy_opt(v: &Option<String>) -> (r: Option<String>)
    ensures
        opt_view(r) == opt_view(*v),
{
    match v {
        Some(x) => Some(x.clone()),
        None => None,
    }
}

/// The authorization-policy settings: disabled, policies in `./policies`,
/// schema `./policies/schema.cedarschema`, validated on load, default `deny`
/// and no policy store unless set.
pub fn cedar_config(env: &EnvValues) -> (c: CedarConfig)
    ensures
        c.enabled == bool_or(opt_view(env.cedar_enabled), false),
        c.policy_path@ == string_or(env.cedar_policy_path, "./policies"@),
        c.schema_path@ == string_or(env.cedar_schema_path, "./policies/schema.cedarschema"@),
        c.validate_on_load == bool_or(opt_view(env.cedar_validate_on_load), true),
        c.default_decision@ == string_or(env.cedar_default_decision, "deny"@),
        opt_view(c.policy_store_url) == opt_view(env.cedar_policy_store_url),
        opt_view(c.policy_store_token) == opt_view(env.cedar_policy_store_token),
{
    CedarConfig {
        enabled: parse_bool_or(&env.cedar_enabled, false),
        policy_path: value_or(&env.cedar_policy_path, "./policies"),
        schema_path: value_or(&env.cedar_schema_path, "./policies/schema.cedarschema"),
        validate_on_load: parse_bool_or(&env.cedar_validate_on_load, true),
        default_decision: value_or(&env.cedar_default_decision, "deny"),
        policy_store_url: copy_opt(&env.cedar_policy_store_url),
        policy_store_token: copy_opt(&env.cedar_policy_store_token),
    }
}

/// The configuration the environment describes. The port defaults to 8080
/// and must be a port number; the host to `0.0.0.0`; the document-store
/// settings to empty text and TLS off; the SQLite file to `pdt.db`;
/// authentication to enabled against `http://localhost:8080` without dev
/// mode; the backend to the document store.
pub fn config_from_env(env: &EnvValues) -> (r: Result<Config, ConfigError>)
    ensures
        r is Err <==> port_spec(string_or(env.port, "8080"@)) is None,
        r is Err ==> r == Err::<Config, ConfigError>(ConfigError::InvalidPort),
        r matches Ok(c) ==> {
            &&& Some(c.server.port as int) == port_spec(string_or(env.port, "8080"@))
            &&& c.server.host@ == string_or(env.host, "0.0.0.0"@)
            &&& c.database.url@ == string_or(env.documentdb_url, ""@)
            &&& c.database.username@ == string_or(env.documentdb_username, ""@)
            &&& c.database.password@ == string_or(env.documentdb_password, ""@)
            &&& c.database.database@ == string_or(env.documentdb_database, ""@)
            &&& c.database.tls == bool_or(opt_view(env.documentdb_tls), false)
            &&& c.database.tls_allow_invalid == bool_or(opt_view(env.documentdb_tls_allow_invalid), false)
            &&& c.database_backend == backend_spec(opt_view(env.db_backend))
            &&& c.sqlite_path@ == string_or(env.sqlite_path, "pdt.db"@)
            &&& c.auth.enabled == bool_or(opt_view(env.auth_enabled), true)
            &&& c.auth.issuer_url@ == string_or(env.auth_issuer_url, "http://localhost:8080"@)
            &&& opt_view(c.auth.expected_audience) == opt_view(env.auth_audience)
            &&& c.auth.dev_mode == bool_or(opt_view(env.auth_dev_mode), false)
            &&& opt_view(c.auth.userinfo_url) == opt_view(env.auth_userinfo_url)
            &&& c.cedar.enabled == bool_or(opt_view(env.cedar_enabled), false)
            &&& c.cedar.policy_path@ == string_or(env.cedar_policy_path, "./policies"@)
            &&& c.cedar.schema_path@ == string_or(env.cedar_schema_path, "./policies/schema.cedarschema"@)
            &&& c.cedar.validate_on_load == bool_or(opt_view(env.cedar_validate_on_load), true)
            &&& c.cedar.default_decision@ == string_or(env.cedar_default_decision, "deny"@)
            &&& opt_view(c.cedar.policy_store_url) == opt_view(env.cedar_policy_store_url)
            &&& opt_view(c.cedar.policy_store_token) == opt_view(env.cedar_policy_store_token)
        },
{
    let cedar = cedar_config(env);
    let backend = match &env.db_backend {
        Some(b) => if crate::query::str_eq_ignore_ascii_case(b.as_str(), "sqlite") {
            DatabaseBackend::Sqlite
        } else {
            DatabaseBackend::Mongodb
        },
        None => DatabaseBackend::Mongodb,
    };
    let port_text = value_or(&env.port, "8080");
    let port = match parse_port(port_text.as_str()) {
        Some(p) => p,
        None => return Err(ConfigError::InvalidPort),
    };
    Ok(Config {
        server: ServerConfig { host: value_or(&env.host, "0.0.0.0"), port },
        database: DatabaseConfig {
            url: value_or(&env.documentdb_url, ""),
            username: value_or(&env.documentdb_username, ""),
            password: value_or(&env.documentdb_password, ""),
            database: value_or(&env.documentdb_database, ""),
            tls: parse_bool_or(&env.documentdb_tls, false),
            tls_allow_invalid: parse_bool_or(&env.documentdb_tls_allow_invalid, false),
        },
        database_backend: backend,
        sqlite_path: value_or(&env.sqlite_path, "pdt.db"),
        auth: AuthConfig {
            enabled: parse_bool_or(&env.auth_enabled, true),
            issuer_url: value_or(&env.auth_issuer_url, "http://localhost:8080"),
            expected_audience: copy_opt(&env.auth_audience),
            dev_mode: parse_bool_or(&env.auth_dev_mode, false),
            userinfo_url: copy_opt(&env.auth_userinfo_url),
        },
        cedar,
    })
}

} // verus!
