use pdt::models::asset::{generate_snippet, to_search_result, Asset};
use pdt::models::audit::AuditAction;
use pdt::models::auth_context::{cascade_auth_context, merge_auth_context, AuthContext, UpdateAuthContextRequest};
use pdt::models::relation::RelationType;
use pdt::models::tag::{validate_category, validate_value, AddTagRequest, Tag};

#[test]
fn test_default_auth_context() {
    let ctx = AuthContext::new();
    assert!(ctx.visibility.is_empty());
    assert!(ctx.owner_groups.is_empty());
    assert!(ctx.confidentiality.is_empty());
}

#[test]
fn default_auth_context_is_empty_too() {
    let ctx = AuthContext::default();
    assert!(ctx.visibility.is_empty() && ctx.owner_groups.is_empty() && ctx.confidentiality.is_empty());
}

// ---------------------------------------------------------------------------
// Snippets
// ---------------------------------------------------------------------------

#[test]
fn snippet_of_empty_content_is_none() {
    assert_eq!(generate_snippet("", 200), None);
    assert_eq!(generate_snippet("# \n**\n```", 200), None);
}

#[test]
fn snippet_strips_markdown_and_collapses_whitespace() {
    assert_eq!(
        generate_snippet("# Title\n\nSome **bold** and `code`   text\n## Sub", 200),
        Some("Title Some bold and code text Sub".to_string())
    );
}

#[test]
fn snippet_cuts_at_a_word_boundary() {
    assert_eq!(generate_snippet("hello wonderful world", 12), Some("hello...".to_string()));
    assert_eq!(generate_snippet("hello world", 11), Some("hello world".to_string()));
    assert_eq!(generate_snippet("abcdefghij", 5), Some("abcde...".to_string()));
}

#[test]
fn snippet_respects_character_boundaries() {
    // "é" takes two bytes: a budget of 3 bytes keeps "aé".
    assert_eq!(generate_snippet("aéb cd", 3), Some("aé...".to_string()));
    // Not even the first character fits: the whole text is kept.
    assert_eq!(generate_snippet("éé", 1), Some("éé".to_string()));
}

#[test]
fn snippet_handles_carriage_returns() {
    assert_eq!(generate_snippet("# A\r\nb\r\n", 200), Some("A b".to_string()));
}

fn tag(category: &str, value: &str) -> Tag {
    Tag {
        id: format!("t-{}", category),
        category: category.to_string(),
        value: value.to_string(),
        added_by: "u".to_string(),
        added_at: "2024-01-01T00:00:00+00:00".to_string(),
    }
}

fn asset(content: Option<&str>) -> Asset {
    Asset {
        id: "a1".to_string(),
        title: "T".to_string(),
        content: content.map(|c| c.to_string()),
        tags: vec![tag("status", "draft")],
        metadata: vec![],
        created_at: "2024-01-01T00:00:00+00:00".to_string(),
        updated_at: "2024-01-02T00:00:00+00:00".to_string(),
        created_by: "u".to_string(),
        updated_by: "u".to_string(),
        deleted_at: None,
        auth_context: None,
    }
}

#[test]
fn search_result_is_compact() {
    let r = to_search_result(asset(Some("## Intro\nbody")));
    assert_eq!(r.id, "a1");
    assert_eq!(r.title, "T");
    assert_eq!(r.snippet.as_deref(), Some("Intro body"));
    assert_eq!(r.tags.len(), 1);
    assert_eq!(r.tags[0].category, "status");
    assert_eq!(r.tags[0].value, "draft");
    assert_eq!(r.updated_at, "2024-01-02T00:00:00+00:00");
    assert!(to_search_result(asset(None)).snippet.is_none());
}

// ---------------------------------------------------------------------------
// Tags
// ---------------------------------------------------------------------------

#[test]
fn categories_are_validated() {
    assert_eq!(validate_category("status"), Ok(()));
    assert_eq!(validate_category("a/b-c_d9"), Ok(()));
    assert_eq!(validate_category(""), Err("Category cannot be empty".to_string()));
    assert_eq!(validate_category(&"x".repeat(65)), Err("Category cannot exceed 64 characters".to_string()));
    assert_eq!(validate_category(&"x".repeat(64)), Ok(()));
    assert_eq!(
        validate_category("has space"),
        Err("Category can only contain alphanumeric characters, hyphens, underscores, and forward slashes".to_string())
    );
}

#[test]
fn values_are_validated() {
    assert_eq!(validate_value("draft"), Ok(()));
    assert_eq!(validate_value(""), Err("Value cannot be empty".to_string()));
    assert_eq!(validate_value(&"v".repeat(65)), Err("Value cannot exceed 64 characters".to_string()));
    assert_eq!(
        validate_value("a.b"),
        Err("Value can only contain alphanumeric characters, hyphens, underscores, and forward slashes".to_string())
    );
}

#[test]
fn tag_requests_check_category_first() {
    let bad_both = AddTagRequest { category: "".to_string(), value: "".to_string() };
    assert_eq!(bad_both.validate(), Err("Category cannot be empty".to_string()));
    let bad_value = AddTagRequest { category: "status".to_string(), value: "no!".to_string() };
    assert!(bad_value.validate().unwrap_err().starts_with("Value can only contain"));
    let ok = AddTagRequest { category: "status".to_string(), value: "draft".to_string() };
    assert_eq!(ok.validate(), Ok(()));
}

#[test]
fn length_limit_counts_bytes() {
    // 32 two-byte characters: 64 bytes fits the length limit but not the
    // character set.
    let s = "é".repeat(32);
    assert!(validate_category(&s).unwrap_err().starts_with("Category can only contain"));
    let s = "é".repeat(33);
    assert_eq!(validate_category(&s), Err("Category cannot exceed 64 characters".to_string()));
}

// ---------------------------------------------------------------------------
// Relation types and audit actions
// ---------------------------------------------------------------------------

#[test]
fn relation_types_round_trip() {
    for t in [
        RelationType::Contains,
        RelationType::References,
        RelationType::RelatedTo,
        RelationType::DependsOn,
        RelationType::Supersedes,
        RelationType::Complements,
        RelationType::HasInstance,
        RelationType::HasAgent,
    ] {
        assert_eq!(RelationType::parse(&t.to_string()), t);
    }
    assert_eq!(RelationType::DependsOn.to_string(), "depends_on");
    assert_eq!(RelationType::parse("unknown"), RelationType::RelatedTo);
}

#[test]
fn audit_actions_round_trip() {
    for a in [
        AuditAction::Create,
        AuditAction::Update,
        AuditAction::Delete,
        AuditAction::AddTag,
        AuditAction::RemoveTag,
        AuditAction::AddRelation,
        AuditAction::RemoveRelation,
        AuditAction::AddToCollection,
        AuditAction::RemoveFromCollection,
    ] {
        assert_eq!(AuditAction::parse(&a.to_string()), a);
    }
    assert_eq!(AuditAction::RemoveFromCollection.to_string(), "remove_from_collection");
    assert_eq!(AuditAction::parse("something"), AuditAction::Update);
}

// ---------------------------------------------------------------------------
// Authorization contexts
// ---------------------------------------------------------------------------

fn ctx(v: &str, groups: &[&str], c: &str) -> AuthContext {
    AuthContext {
        visibility: v.to_string(),
        owner_groups: groups.iter().map(|g| g.to_string()).collect(),
        confidentiality: c.to_string(),
    }
}

#[test]
fn merge_replaces_only_requested_fields() {
    let existing = ctx("public", &["a"], "internal");
    let req = UpdateAuthContextRequest {
        visibility: Some("private".to_string()),
        owner_groups: None,
        confidentiality: None,
        cascade: false,
    };
    let merged = merge_auth_context(Some(&existing), &req);
    assert_eq!(merged.visibility, "private");
    assert_eq!(merged.owner_groups, vec!["a".to_string()]);
    assert_eq!(merged.confidentiality, "internal");
    let fresh = merge_auth_context(None, &req);
    assert_eq!(fresh.visibility, "private");
    assert!(fresh.owner_groups.is_empty());
    assert_eq!(fresh.confidentiality, "");
}

#[test]
fn cascade_keeps_child_overrides_for_unset_fields() {
    let parent = ctx("team", &["devs"], "confidential");
    let child = ctx("public", &["other"], "restricted");
    let req = UpdateAuthContextRequest {
        visibility: Some("team".to_string()),
        owner_groups: Some(vec!["devs".to_string()]),
        confidentiality: None,
        cascade: true,
    };
    let c = cascade_auth_context(Some(&child), &parent, &req);
    assert_eq!(c.visibility, "team");
    assert_eq!(c.owner_groups, vec!["devs".to_string()]);
    assert_eq!(c.confidentiality, "restricted");
}
