use pdt::models::asset::{Asset, CreateAssetRequest, UpdateAssetRequest};
use pdt::models::audit::AuditAction;
use pdt::models::auth_context::{AuthContext, UpdateAuthContextRequest};
use pdt::models::collection::{CreateCollectionRequest, UpdateCollectionRequest};
use pdt::models::relation::{CreateRelationRequest, Relation, RelationType};
use pdt::models::tag::{AddTagRequest, Tag};
use pdt::services::{
    asset_created, asset_updated, deleted, membership_changed, not_found, relation_created, relation_removed,
    tag_added, tag_removed, ApiError, AssetService, AuditChanges, AuditService, AuthContextUpdate,
    CollectionService, DeletionStep, RelationService, RelationStep, UpdateStep,
};

fn create_request(title: &str) -> CreateAssetRequest {
    CreateAssetRequest { title: title.to_string(), content: None, tags: vec![], metadata: vec![], auth_context: None }
}

#[test]
fn errors_map_to_statuses() {
    assert_eq!(ApiError::Validation("v".to_string()).status(), 400);
    assert_eq!(ApiError::NotFound("n".to_string()).status(), 404);
    assert_eq!(ApiError::Forbidden("f".to_string()).status(), 403);
    assert_eq!(ApiError::GenericDatabase("d".to_string()).status(), 500);
    assert_eq!(ApiError::Forbidden("f".to_string()).message(), "f");
    match not_found("Asset", "a1") {
        ApiError::NotFound(m) => assert_eq!(m, "Asset not found: a1"),
        other => panic!("unexpected {:?}", other),
    }
}

#[test]
fn titles_and_names_must_not_be_blank() {
    assert!(AssetService::check_create(&create_request("Doc")).is_ok());
    match AssetService::check_create(&create_request("  \t")) {
        Err(ApiError::Validation(m)) => assert_eq!(m, "Title cannot be empty"),
        other => panic!("unexpected {:?}", other),
    }
    let update = UpdateAssetRequest { title: Some(" ".to_string()), content: None, metadata: None };
    assert!(matches!(AssetService::check_update(&update), Err(ApiError::Validation(_))));
    let update = UpdateAssetRequest { title: None, content: Some(String::new()), metadata: None };
    assert!(AssetService::check_update(&update).is_ok());
    let c = CreateCollectionRequest { name: "".to_string(), description: None, tags: vec![] };
    match CollectionService::check_create(&c) {
        Err(ApiError::Validation(m)) => assert_eq!(m, "Name cannot be empty"),
        other => panic!("unexpected {:?}", other),
    }
    let u = UpdateCollectionRequest { name: Some("ok".to_string()), description: None };
    assert!(CollectionService::check_update(&u).is_ok());
}

#[test]
fn tag_refusals_become_validation_errors() {
    let bad = AddTagRequest { category: "a b".to_string(), value: "v".to_string() };
    assert!(matches!(AssetService::check_add_tag(&bad), Err(ApiError::Validation(_))));
    let ok = AddTagRequest { category: "status".to_string(), value: "draft".to_string() };
    assert!(AssetService::check_add_tag(&ok).is_ok());
    assert_eq!(AuditService::history_entity_type(), "asset");
}

// ---------------------------------------------------------------------------
// Relation creation
// ---------------------------------------------------------------------------

fn relation_request(from: &str, to: &str) -> CreateRelationRequest {
    CreateRelationRequest {
        from_asset_id: from.to_string(),
        to_asset_id: to.to_string(),
        relation_type: RelationType::DependsOn,
        metadata: vec![],
    }
}

/// Runs the creation checks against the given answers; returns the final
/// step.
fn run(from: &str, to: &str, exists: &[&str], cycle: bool) -> RelationStep {
    let (mut c, mut step) = RelationService::create(&relation_request(from, to));
    loop {
        let answer = match &step {
            RelationStep::CheckExists(id) => exists.contains(&id.as_str()),
            RelationStep::CheckCycle { .. } => cycle,
            _ => return step,
        };
        assert!(c.awaiting_answer());
        let (c2, s2) = c.on_answer(answer);
        c = c2;
        step = s2;
    }
}

#[test]
fn relation_with_missing_source_is_not_found() {
    match run("a", "b", &["b"], false) {
        RelationStep::Refuse(ApiError::NotFound(m)) => assert_eq!(m, "Source asset not found: a"),
        other => panic!("unexpected {:?}", other),
    }
}

#[test]
fn relation_with_missing_target_is_not_found() {
    match run("a", "b", &["a"], false) {
        RelationStep::Refuse(ApiError::NotFound(m)) => assert_eq!(m, "Target asset not found: b"),
        other => panic!("unexpected {:?}", other),
    }
}

#[test]
fn self_relation_is_invalid() {
    match run("a", "a", &["a"], false) {
        RelationStep::Refuse(ApiError::Validation(m)) => assert_eq!(m, "Cannot create relation from asset to itself"),
        other => panic!("unexpected {:?}", other),
    }
}

#[test]
fn cyclic_relation_is_invalid() {
    match run("a", "b", &["a", "b"], true) {
        RelationStep::Refuse(ApiError::Validation(m)) => assert_eq!(m, "Creating this relation would create a cycle"),
        other => panic!("unexpected {:?}", other),
    }
}

#[test]
fn checked_relation_is_created() {
    assert!(matches!(run("a", "b", &["a", "b"], false), RelationStep::Create));
}

// ---------------------------------------------------------------------------
// Authorization context changes
// ---------------------------------------------------------------------------

fn asset(id: &str, ctx: Option<AuthContext>) -> Asset {
    Asset {
        id: id.to_string(),
        title: id.to_string(),
        content: None,
        tags: vec![],
        metadata: vec![],
        created_at: "t".to_string(),
        updated_at: "t".to_string(),
        created_by: "u".to_string(),
        updated_by: "u".to_string(),
        deleted_at: None,
        auth_context: ctx,
    }
}

fn ctx(v: &str, g: &[&str], c: &str) -> AuthContext {
    AuthContext {
        visibility: v.to_string(),
        owner_groups: g.iter().map(|x| x.to_string()).collect(),
        confidentiality: c.to_string(),
    }
}

#[test]
fn context_change_without_cascade() {
    let req = UpdateAuthContextRequest {
        visibility: Some("private".to_string()),
        owner_groups: None,
        confidentiality: None,
        cascade: false,
    };
    let (u, step) = AuthContextUpdate::start("p", req);
    assert!(matches!(&step, UpdateStep::Load(id) if id == "p"));
    let parent = asset("p", Some(ctx("public", &["g"], "internal")));
    let (u, step) = u.on_loaded(Some(&parent));
    match &step {
        UpdateStep::Store { id, context } => {
            assert_eq!(id, "p");
            assert_eq!(context.visibility, "private");
            assert_eq!(context.owner_groups, vec!["g".to_string()]);
            assert_eq!(context.confidentiality, "internal");
        }
        other => panic!("unexpected {:?}", other),
    }
    let (u, step) = u.on_stored();
    assert!(u.is_auditing());
    match step {
        UpdateStep::Audit(r) => {
            assert_eq!(r.entity_type, "asset");
            assert_eq!(r.entity_id, "p");
            assert_eq!(r.action, AuditAction::Update);
            match r.changes {
                AuditChanges::AuthContextUpdated { auth_context, cascade, cascaded_count } => {
                    assert_eq!(auth_context.visibility, "private");
                    assert!(!cascade);
                    assert_eq!(cascaded_count, 0);
                }
                other => panic!("unexpected {:?}", other),
            }
        }
        other => panic!("unexpected {:?}", other),
    }
}

#[test]
fn context_change_cascades_to_loadable_descendants() {
    let req = UpdateAuthContextRequest {
        visibility: None,
        owner_groups: Some(vec!["team".to_string()]),
        confidentiality: None,
        cascade: true,
    };
    let (u, _) = AuthContextUpdate::start("p", req);
    let (u, _) = u.on_loaded(Some(&asset("p", None)));
    let (u, step) = u.on_stored();
    assert!(matches!(&step, UpdateStep::ListDescendants(id) if id == "p"));
    let (u, step) = u.on_descendants(vec!["c1".to_string(), "gone".to_string()]);
    assert!(matches!(&step, UpdateStep::Load(id) if id == "c1"));
    let child = asset("c1", Some(ctx("public", &["old"], "restricted")));
    let (u, step) = u.on_loaded(Some(&child));
    match &step {
        UpdateStep::Store { id, context } => {
            assert_eq!(id, "c1");
            assert_eq!(context.visibility, "public");
            assert_eq!(context.owner_groups, vec!["team".to_string()]);
            assert_eq!(context.confidentiality, "restricted");
        }
        other => panic!("unexpected {:?}", other),
    }
    let (u, step) = u.on_stored();
    assert!(matches!(&step, UpdateStep::Load(id) if id == "gone"));
    let (_, step) = u.on_loaded(None);
    match step {
        UpdateStep::Audit(r) => match r.changes {
            AuditChanges::AuthContextUpdated { auth_context, cascade, cascaded_count } => {
                assert!(cascade);
                assert_eq!(cascaded_count, 2);
                assert_eq!(auth_context.owner_groups, vec!["team".to_string()]);
                assert_eq!(auth_context.visibility, "");
            }
            other => panic!("unexpected {:?}", other),
        },
        other => panic!("unexpected {:?}", other),
    }
}

#[test]
fn context_change_with_no_descendants_audits_at_once() {
    let req = UpdateAuthContextRequest { visibility: None, owner_groups: None, confidentiality: None, cascade: true };
    let (u, _) = AuthContextUpdate::start("p", req);
    let (u, _) = u.on_loaded(Some(&asset("p", None)));
    let (u, _) = u.on_stored();
    let (_, step) = u.on_descendants(vec![]);
    assert!(matches!(step, UpdateStep::Audit(_)));
}

// ---------------------------------------------------------------------------
// Audit records
// ---------------------------------------------------------------------------

fn tag() -> Tag {
    Tag {
        id: "t1".to_string(),
        category: "status".to_string(),
        value: "draft".to_string(),
        added_by: "u".to_string(),
        added_at: "t".to_string(),
    }
}

#[test]
fn audit_records_describe_the_change() {
    let mut a = asset("a1", None);
    a.tags.push(tag());
    let r = asset_created(&a);
    assert_eq!((r.entity_type.as_str(), r.entity_id.as_str(), r.action), ("asset", "a1", AuditAction::Create));
    assert!(matches!(r.changes, AuditChanges::AssetCreated { ref title, tag_count: 1 } if title == "a1"));

    let req = UpdateAssetRequest { title: Some("new".to_string()), content: None, metadata: None };
    let r = asset_updated("a1", &a, &req);
    match r.changes {
        AuditChanges::AssetUpdated { old_title, old_content, new_title, new_content } => {
            assert_eq!(old_title, "a1");
            assert!(old_content.is_none());
            assert_eq!(new_title.as_deref(), Some("new"));
            assert!(new_content.is_none());
        }
        other => panic!("unexpected {:?}", other),
    }

    let r = deleted("collection", "c1");
    assert_eq!((r.entity_type.as_str(), r.action), ("collection", AuditAction::Delete));
    assert!(matches!(r.changes, AuditChanges::Nothing));

    let r = tag_added("a1", &tag());
    assert!(matches!(r.changes, AuditChanges::TagAdded { ref tag_id, .. } if tag_id == "t1"));
    let r = tag_removed("a1", "t1");
    assert_eq!(r.action, AuditAction::RemoveTag);

    let rel = Relation {
        id: "r1".to_string(),
        from_asset_id: "a".to_string(),
        to_asset_id: "b".to_string(),
        relation_type: RelationType::Supersedes,
        metadata: vec![],
        created_at: "t".to_string(),
        created_by: "u".to_string(),
    };
    let r = relation_created(&rel);
    assert_eq!((r.entity_type.as_str(), r.entity_id.as_str()), ("relation", "r1"));
    assert!(matches!(r.changes, AuditChanges::Relation { ref relation_type, .. } if relation_type == "supersedes"));
    assert_eq!(relation_removed("r1", &rel).action, AuditAction::RemoveRelation);

    assert_eq!(membership_changed("c", "a", true).action, AuditAction::AddToCollection);
    assert_eq!(membership_changed("c", "a", false).action, AuditAction::RemoveFromCollection);
}

#[test]
fn a_missing_source_is_reported_before_a_self_relation() {
    match run("a", "a", &[], true) {
        RelationStep::Refuse(ApiError::NotFound(m)) => assert_eq!(m, "Source asset not found: a"),
        other => panic!("unexpected step: {:?}", other),
    }
}

#[test]
fn asset_deletion_runs_its_steps_in_order() {
    let (mut d, mut step) = AssetService::delete("a1", "u1");
    let mut seen = Vec::new();
    loop {
        let name = match &step {
            DeletionStep::Load(a) => format!("load {}", a),
            DeletionStep::SoftDelete(a) => format!("soft-delete {}", a),
            DeletionStep::DeleteRelations(a) => format!("relations {}", a),
            DeletionStep::RemoveFromCollections(a) => format!("collections {}", a),
            DeletionStep::Audit { record, user_id } => {
                assert_eq!(record.entity_type, "asset");
                assert_eq!(record.action, AuditAction::Delete);
                format!("audit {} by {}", record.entity_id, user_id)
            }
            DeletionStep::Done => break,
        };
        seen.push(name);
        assert!(!d.is_done());
        let (d2, s2) = d.on_done();
        d = d2;
        step = s2;
    }
    assert!(d.is_done());
    assert_eq!(
        seen,
        vec!["load a1", "soft-delete a1", "relations a1", "collections a1", "audit a1 by u1"]
    );
}
