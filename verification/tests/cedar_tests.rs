use pdt::auth::{AuthenticatedUser, ClaimEntry, ClaimItem, ClaimValue, Claims};
use pdt::cedar::{
    asset_to_cedar_entity, check_permission, extract_claims_for_cedar, filter_by_permission, should_enforce_cedar,
    user_to_cedar_principal, AttrValue, EntityRef,
};
use pdt::models::asset::Asset;
use pdt::models::auth_context::AuthContext;
use pdt::models::tag::Tag;
use pdt::services::ApiError;

fn make_tag(category: &str, value: &str) -> Tag {
    Tag {
        id: format!("{}-{}", category, value),
        category: category.to_string(),
        value: value.to_string(),
        added_by: "test-user".to_string(),
        added_at: "2024-01-01T00:00:00+00:00".to_string(),
    }
}

fn make_asset(id: &str, created_by: &str, auth_ctx: Option<AuthContext>, tags: Vec<Tag>) -> Asset {
    Asset {
        id: id.to_string(),
        title: "Test Asset".to_string(),
        content: None,
        tags,
        metadata: vec![],
        created_at: "2024-01-01T00:00:00+00:00".to_string(),
        updated_at: "2024-01-01T00:00:00+00:00".to_string(),
        created_by: created_by.to_string(),
        updated_by: created_by.to_string(),
        deleted_at: None,
        auth_context: auth_ctx,
    }
}

fn make_claims(sub: &str, role: &str) -> Claims {
    Claims {
        sub: sub.to_string(),
        iss: "test-issuer".to_string(),
        aud: None,
        exp: 9999999999,
        iat: None,
        email: Some(format!("{}@example.com", sub)),
        name: None,
        preferred_username: None,
        extra: vec![
            ClaimEntry { key: "role".to_string(), value: ClaimValue::Text(role.to_string()) },
            ClaimEntry {
                key: "groups".to_string(),
                value: ClaimValue::Array(vec![ClaimItem::Text("developers".to_string())]),
            },
        ],
    }
}

fn attr<'a>(e: &'a pdt::cedar::EntityModel, name: &str) -> Option<&'a AttrValue> {
    e.attrs.iter().find(|a| a.name == name).map(|a| &a.value)
}

#[test]
fn test_asset_to_cedar_entity_basic() {
    let asset = make_asset("asset-123", "alice@idm.tanbal.ir", None, vec![make_tag("asset_type", "document")]);
    let entity = asset_to_cedar_entity(&asset);
    assert_eq!(entity.uid.to_string(), r#"Asset::"asset-123""#);
}

#[test]
fn test_asset_to_cedar_entity_with_auth_context() {
    let asset = make_asset(
        "asset-456",
        "bob@idm.tanbal.ir",
        Some(AuthContext {
            visibility: "team".to_string(),
            owner_groups: vec!["developers".to_string()],
            confidentiality: "internal".to_string(),
        }),
        vec![make_tag("asset_type", "document"), make_tag("status", "draft")],
    );
    let entity = asset_to_cedar_entity(&asset);
    assert_eq!(entity.uid.to_string(), r#"Asset::"asset-456""#);
}

#[test]
fn test_user_to_cedar_principal() {
    let claims = make_claims("alice@idm.tanbal.ir", "admin");
    let entity = user_to_cedar_principal(&claims);
    assert_eq!(entity.uid.to_string(), r#"User::"alice@idm.tanbal.ir""#);
}

#[test]
fn asset_entity_attributes() {
    let asset = make_asset(
        "a",
        "bob",
        Some(AuthContext {
            visibility: "team".to_string(),
            owner_groups: vec!["developers".to_string()],
            confidentiality: "internal".to_string(),
        }),
        vec![make_tag("status", "draft"), make_tag("status", "final"), make_tag("asset_type", "document")],
    );
    let e = asset_to_cedar_entity(&asset);
    let names: Vec<&str> = e.attrs.iter().map(|a| a.name.as_str()).collect();
    assert_eq!(names, vec!["created_by", "visibility", "confidentiality", "owner_groups", "status", "asset_type"]);
    match attr(&e, "created_by") {
        Some(AttrValue::EntitySet(v)) => {
            assert_eq!(v.len(), 1);
            assert_eq!(v[0].to_string(), r#"User::"bob""#);
        }
        other => panic!("unexpected {:?}", other),
    }
    assert!(matches!(attr(&e, "status"), Some(AttrValue::Text(s)) if s == "draft"));
    assert!(matches!(attr(&e, "owner_groups"), Some(AttrValue::TextSet(g)) if g == &vec!["developers".to_string()]));
}

#[test]
fn asset_entity_without_context_or_groups() {
    let e = asset_to_cedar_entity(&make_asset("a", "bob", None, vec![]));
    assert_eq!(e.attrs.len(), 1);
    let empty_groups = AuthContext { visibility: "public".to_string(), owner_groups: vec![], confidentiality: "".to_string() };
    let e = asset_to_cedar_entity(&make_asset("a", "bob", Some(empty_groups), vec![]));
    let names: Vec<&str> = e.attrs.iter().map(|a| a.name.as_str()).collect();
    assert_eq!(names, vec!["created_by", "visibility", "confidentiality"]);
}

#[test]
fn entity_ids_are_escaped() {
    let r = EntityRef { entity_type: "User".to_string(), id: "a\"b\\c".to_string() };
    assert_eq!(r.to_string(), r#"User::"a\"b\\c""#);
}

#[test]
fn principal_attributes() {
    let e = user_to_cedar_principal(&make_claims("alice", "editor"));
    assert!(matches!(attr(&e, "role"), Some(AttrValue::Text(r)) if r == "editor"));
    assert!(matches!(attr(&e, "groups"), Some(AttrValue::TextSet(g)) if g == &vec!["developers".to_string()]));
    let mut claims = make_claims("bob", "viewer");
    claims.extra = vec![ClaimEntry {
        key: "groups".to_string(),
        value: ClaimValue::Array(vec![ClaimItem::Other("1".to_string())]),
    }];
    assert!(user_to_cedar_principal(&claims).attrs.is_empty());
}

#[test]
fn claims_for_policy_checks_are_the_principals_own() {
    let user = AuthenticatedUser {
        user_id: "u1".to_string(),
        username: Some("name".to_string()),
        email: None,
        claims_extra: None,
    };
    let c = extract_claims_for_cedar(&user);
    assert_eq!(c.sub, "u1");
    assert_eq!(c.iss, "pdt");
    assert_eq!(c.exp, i64::MAX);
    assert_eq!(c.preferred_username.as_deref(), Some("name"));
    assert_eq!(c.extra.len(), 1);
    assert!(matches!(&c.extra[0].value, ClaimValue::Text(r) if r == "viewer"));

    let user = AuthenticatedUser {
        user_id: "u2".to_string(),
        username: None,
        email: Some("u2@example.org".to_string()),
        claims_extra: Some(vec![
            ClaimEntry { key: "role".to_string(), value: ClaimValue::Text("editor".to_string()) },
            ClaimEntry {
                key: "groups".to_string(),
                value: ClaimValue::Array(vec![ClaimItem::Text("team-a".to_string())]),
            },
        ]),
    };
    let c = extract_claims_for_cedar(&user);
    assert_eq!(c.sub, "u2");
    assert_eq!(c.email.as_deref(), Some("u2@example.org"));
    assert_eq!(c.extra.len(), 2);
    assert_eq!(c.extra[0].key, "role");
    assert!(matches!(&c.extra[0].value, ClaimValue::Text(r) if r == "editor"));
    assert_eq!(c.extra[1].key, "groups");
    assert!(matches!(&c.extra[1].value, ClaimValue::Array(items) if items.len() == 1));

    let user = AuthenticatedUser {
        user_id: "u3".to_string(),
        username: None,
        email: None,
        claims_extra: Some(vec![]),
    };
    assert!(extract_claims_for_cedar(&user).extra.is_empty());
}

fn ctx() -> Option<AuthContext> {
    Some(AuthContext { visibility: "private".to_string(), owner_groups: vec![], confidentiality: "".to_string() })
}

#[test]
fn open_assets_are_never_checked() {
    let a = make_asset("a", "u", None, vec![]);
    assert!(!should_enforce_cedar(&a));
    assert!(check_permission(&a, "View", Ok(false)).is_ok());
    assert!(check_permission(&a, "View", Err("x".to_string())).is_ok());
}

#[test]
fn enforced_assets_follow_the_verdict() {
    let a = make_asset("a7", "u", ctx(), vec![]);
    assert!(should_enforce_cedar(&a));
    assert!(check_permission(&a, "Edit", Ok(true)).is_ok());
    match check_permission(&a, "Edit", Ok(false)) {
        Err(ApiError::Forbidden(m)) => {
            assert_eq!(m, "Access denied: you do not have 'Edit' permission on asset 'a7'")
        }
        other => panic!("unexpected {:?}", other),
    }
    match check_permission(&a, "Edit", Err("bad principal".to_string())) {
        Err(ApiError::Forbidden(m)) => assert_eq!(m, "Authorization error: bad principal"),
        other => panic!("unexpected {:?}", other),
    }
}

#[test]
fn filtering_keeps_open_and_allowed_assets() {
    let assets = vec![
        make_asset("open", "u", None, vec![]),
        make_asset("allowed", "u", ctx(), vec![]),
        make_asset("denied", "u", ctx(), vec![]),
        make_asset("broken", "u", ctx(), vec![]),
    ];
    let evaluations = vec![Ok(false), Ok(true), Ok(false), Err("e".to_string())];
    let kept = filter_by_permission(assets, &evaluations);
    let ids: Vec<&str> = kept.iter().map(|a| a.id.as_str()).collect();
    assert_eq!(ids, vec!["open", "allowed"]);
}
