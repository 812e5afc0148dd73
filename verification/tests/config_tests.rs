use pdt::config::{config_from_env, parse_bool_or, parse_port, ConfigError, DatabaseBackend, DatabaseConfig, DefaultDecision, EnvValues};
use pdt::params::{
    default_depth, default_history_limit, default_limit, default_order, default_sort_by, paginated, HistoryParams,
    ListAssetsParams, PaginationParams, TraverseParams,
};

fn empty_env() -> EnvValues {
    EnvValues {
        cedar_enabled: None,
        cedar_policy_path: None,
        cedar_schema_path: None,
        cedar_validate_on_load: None,
        cedar_default_decision: None,
        cedar_policy_store_url: None,
        cedar_policy_store_token: None,
        db_backend: None,
        host: None,
        port: None,
        documentdb_url: None,
        documentdb_username: None,
        documentdb_password: None,
        documentdb_database: None,
        documentdb_tls: None,
        documentdb_tls_allow_invalid: None,
        sqlite_path: None,
        auth_enabled: None,
        auth_issuer_url: None,
        auth_audience: None,
        auth_dev_mode: None,
        auth_userinfo_url: None,
    }
}

#[test]
fn defaults_without_environment() {
    let c = config_from_env(&empty_env()).unwrap();
    assert_eq!(c.server.host, "0.0.0.0");
    assert_eq!(c.server.port, 8080);
    assert_eq!(c.database.url, "");
    assert!(!c.database.tls);
    assert_eq!(c.database_backend, DatabaseBackend::Mongodb);
    assert_eq!(c.sqlite_path, "pdt.db");
    assert!(c.auth.enabled);
    assert_eq!(c.auth.issuer_url, "http://localhost:8080");
    assert!(!c.auth.dev_mode);
    assert!(!c.cedar.enabled);
    assert_eq!(c.cedar.policy_path, "./policies");
    assert_eq!(c.cedar.schema_path, "./policies/schema.cedarschema");
    assert!(c.cedar.validate_on_load);
    assert_eq!(c.cedar.default_decision, "deny");
    assert_eq!(c.cedar.decision(), DefaultDecision::Deny);
}

#[test]
fn values_from_environment() {
    let mut env = empty_env();
    env.port = Some("+9000".to_string());
    env.db_backend = Some("SQLite".to_string());
    env.auth_enabled = Some("false".to_string());
    env.auth_dev_mode = Some("yes".to_string());
    env.auth_audience = Some("api".to_string());
    env.cedar_enabled = Some("true".to_string());
    env.cedar_default_decision = Some("allow".to_string());
    env.documentdb_tls = Some("true".to_string());
    let c = config_from_env(&env).unwrap();
    assert_eq!(c.server.port, 9000);
    assert_eq!(c.database_backend, DatabaseBackend::Sqlite);
    assert!(!c.auth.enabled);
    assert!(!c.auth.dev_mode);
    assert_eq!(c.auth.expected_audience.as_deref(), Some("api"));
    assert!(c.cedar.enabled);
    assert_eq!(c.cedar.decision(), DefaultDecision::Allow);
    assert!(c.database.tls);
}

#[test]
fn invalid_port_is_an_error() {
    let mut env = empty_env();
    env.port = Some("65536".to_string());
    let e = config_from_env(&env).unwrap_err();
    assert_eq!(e, ConfigError::InvalidPort);
    assert_eq!(e.message(), "Invalid PDT_PORT");
}

#[test]
fn ports_parse_like_u16() {
    assert_eq!(parse_port("0"), Some(0));
    assert_eq!(parse_port("65535"), Some(65535));
    assert_eq!(parse_port("0080"), Some(80));
    assert_eq!(parse_port("+1"), Some(1));
    assert_eq!(parse_port("65536"), None);
    assert_eq!(parse_port("999999999999999999999"), None);
    assert_eq!(parse_port(""), None);
    assert_eq!(parse_port("+"), None);
    assert_eq!(parse_port("-1"), None);
    assert_eq!(parse_port(" 80"), None);
    assert_eq!(parse_port("8a"), None);
    for p in ["1", "443", "8080", "65535", "x", "70000"] {
        assert_eq!(parse_port(p), p.parse::<u16>().ok(), "{p}");
    }
}

#[test]
fn booleans_parse_like_bool() {
    assert!(parse_bool_or(&Some("true".to_string()), false));
    assert!(!parse_bool_or(&Some("false".to_string()), true));
    assert!(parse_bool_or(&Some("TRUE".to_string()), true));
    assert!(!parse_bool_or(&Some("1".to_string()), false));
    assert!(parse_bool_or(&None, true));
}

fn db(url: &str, tls: bool, invalid: bool) -> DatabaseConfig {
    DatabaseConfig {
        url: url.to_string(),
        username: "u".to_string(),
        password: "p".to_string(),
        database: "d".to_string(),
        tls,
        tls_allow_invalid: invalid,
    }
}

#[test]
fn connection_strings() {
    assert_eq!(db("mongodb://h:27017", false, true).connection_string(), "mongodb://h:27017/?authSource=admin");
    assert_eq!(db("mongodb://h//", true, false).connection_string(), "mongodb://h/?authSource=admin&tls=true");
    assert_eq!(
        db("mongodb://h/", true, true).connection_string(),
        "mongodb://h/?authSource=admin&tls=true&tlsAllowInvalidCertificates=true"
    );
    assert_eq!(db("", false, false).connection_string(), "/?authSource=admin");
}

#[test]
fn parameter_defaults() {
    assert_eq!(default_limit(), 20);
    assert_eq!(default_sort_by(), "updated_at");
    assert_eq!(default_order(), "desc");
    assert_eq!(default_history_limit(), 50);
    assert_eq!(default_depth(), 3);
    let p = ListAssetsParams::default();
    assert_eq!((p.limit, p.sort_by.as_str(), p.order.as_str()), (20, "updated_at", "desc"));
    assert_eq!(PaginationParams::default().limit, 20);
    assert_eq!(HistoryParams::default().limit, 50);
    assert_eq!(TraverseParams::default().depth, 3);
    let page = paginated(vec![1, 2], Some("c".to_string()));
    assert_eq!(page.data, vec![1, 2]);
    assert_eq!(page.next_cursor.as_deref(), Some("c"));
    assert!(page.total.is_none());
}
