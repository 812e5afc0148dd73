use pdt::tenant::{
    db_path_in, delete_target, evicted_ids, group_instance_tree, instance_tree, join, locate_db, merge_instance_ids,
    provision_response, provisioned_instances, validate_uuid, ChildProbe, EntryProbe, ProvisionAction, ProvisionPlan,
    TenantContext, TenantError, WorkspaceProbe,
};

#[test]
fn validate_uuid_rejects_traversal() {
    assert!(validate_uuid("../../etc/passwd").is_err());
    assert!(validate_uuid("foo/bar").is_err());
    assert!(validate_uuid("..").is_err());
    assert!(validate_uuid("not-a-uuid").is_err());
    assert!(validate_uuid("").is_err());
    assert!(validate_uuid("550e8400-e29b-41d4-a716-446655440000").is_ok());
    // Uppercase and non-hyphenated forms are valid UUIDs; path-safe.
    assert!(validate_uuid("550E8400E29B41D4A716446655440000").is_ok());
}

#[test]
fn validate_uuid_accepts_braced_and_urn_forms() {
    assert!(validate_uuid("{6d93bade-bd9f-4e13-8914-9474e1e3567b}").is_ok());
    assert!(validate_uuid("urn:uuid:67e55044-10b1-426f-9247-bb680e5fe0c8").is_ok());
    assert!(validate_uuid("URN:UUID:67e55044-10b1-426f-9247-bb680e5fe0c8").is_ok());
    assert!(validate_uuid("550e8400-e29b-41d4-a716-44665544000g").is_err());
    assert!(validate_uuid("550e8400e29b-41d4-a716-4466554400001").is_err());
}

#[test]
fn invalid_ids_are_answered_400_with_the_parser_reason() {
    let e = validate_uuid("nope").unwrap_err();
    assert_eq!(e.status(), 400);
    let m = e.message();
    assert!(m.starts_with("invalid instance id (not a UUID): nope ("), "{m}");
    assert!(m.ends_with(')'));
    match e {
        TenantError::InvalidInstanceId { id, reason } => {
            assert_eq!(id, "nope");
            assert!(!reason.is_empty());
        }
        other => panic!("unexpected {:?}", other),
    }
}

#[test]
fn tenant_context_reports_its_instance() {
    let t = TenantContext { instance_id: Some("abc".to_string()) };
    assert_eq!(t.instance_id(), Some("abc"));
    assert!(t.is_tenant());
    let g = TenantContext::default();
    assert_eq!(g.instance_id(), None);
    assert!(!g.is_tenant());
}

#[test]
fn paths_are_joined_like_the_platform() {
    assert_eq!(join("/data/instances", "x"), "/data/instances/x");
    assert_eq!(join("/data/instances/", "x"), "/data/instances/x");
    assert_eq!(join("", "x"), "x");
    assert_eq!(db_path_in("/d/w"), "/d/w/pdt.db");
}

const WS: &str = "11111111-1111-4111-8111-111111111111";
const CHILD: &str = "22222222-2222-4222-8222-222222222222";

fn entry(name: &str, is_dir: bool, child_db: bool, child_dir: bool) -> EntryProbe {
    EntryProbe { name: name.to_string(), is_dir, child_db_exists: child_db, child_is_dir: child_dir }
}

#[test]
fn routing_prefers_the_workspace_database() {
    let entries = vec![entry(WS, true, true, true)];
    assert_eq!(locate_db("/d", CHILD, true, &entries), format!("/d/{}/pdt.db", CHILD));
}

#[test]
fn routing_finds_a_child_database() {
    let entries = vec![entry("file.txt", false, true, false), entry("other", true, false, false), entry(WS, true, true, true)];
    assert_eq!(locate_db("/d", CHILD, false, &entries), format!("/d/{}/{}/pdt.db", WS, CHILD));
}

#[test]
fn routing_falls_back_to_a_new_workspace() {
    let entries = vec![entry(WS, true, false, false)];
    assert_eq!(locate_db("/d", CHILD, false, &entries), format!("/d/{}/pdt.db", CHILD));
}

#[test]
fn provisioning_plans_workspaces_and_children() {
    let top = ProvisionPlan::new("/d", WS, None).unwrap();
    assert_eq!(top.db_path, format!("/d/{}/pdt.db", WS));
    assert!(top.parent.is_none());
    let child = ProvisionPlan::new("/d", CHILD, Some(WS)).unwrap();
    assert_eq!(child.db_path, format!("/d/{}/{}/pdt.db", WS, CHILD));
    let (p, pdb) = child.parent.clone().unwrap();
    assert_eq!(p, WS);
    assert_eq!(pdb, format!("/d/{}/pdt.db", WS));
}

#[test]
fn provisioning_rejects_traversal() {
    assert!(ProvisionPlan::new("/d", "../evil", None).is_err());
    match ProvisionPlan::new("/d", WS, Some("../parent")) {
        Err(TenantError::InvalidInstanceId { id, .. }) => assert_eq!(id, "../parent"),
        other => panic!("unexpected {:?}", other),
    }
}

#[test]
fn child_requires_existing_parent() {
    let plan = ProvisionPlan::new("/d", CHILD, Some(WS)).unwrap();
    let e = plan.decide(false, false).unwrap_err();
    assert_eq!(e.status(), 400);
    assert_eq!(
        e.message(),
        format!("Parent workspace {} is not provisioned (missing \"/d/{}/pdt.db\")", WS, WS)
    );
}

#[test]
fn provisioning_is_idempotent() {
    let plan = ProvisionPlan::new("/d", WS, None).unwrap();
    assert_eq!(plan.decide(false, true).unwrap(), ProvisionAction::AlreadyProvisioned);
    assert_eq!(plan.decide(false, false).unwrap(), ProvisionAction::Create);
}

#[test]
fn provisioning_answer() {
    let r = provision_response(WS.to_string(), true);
    assert_eq!(r.instance_id, WS);
    assert_eq!(r.status, "provisioned");
    assert_eq!(r.message, "Nested instance database created and migrated");
    assert_eq!(provision_response(WS.to_string(), false).message, "Instance database created and migrated");
}

#[test]
fn deletion_targets_workspace_or_child() {
    assert_eq!(delete_target("/d", WS, true, &vec![]).unwrap(), format!("/d/{}", WS));
    let entries = vec![entry("x", true, false, false), entry(WS, true, true, true)];
    assert_eq!(delete_target("/d", CHILD, false, &entries).unwrap(), format!("/d/{}/{}", WS, CHILD));
    let e = delete_target("/d", CHILD, false, &vec![]).unwrap_err();
    assert_eq!(e.status(), 404);
    assert_eq!(e.message(), format!("Instance {} not found on disk", CHILD));
}

#[test]
fn deletion_evicts_the_instance_and_its_entries() {
    let names = vec!["pdt.db".to_string(), CHILD.to_string()];
    assert_eq!(evicted_ids(WS, &names), vec![WS.to_string(), "pdt.db".to_string(), CHILD.to_string()]);
}

fn workspace(name: &str, is_dir: bool, has_db: bool, children: Vec<(&str, bool, bool)>) -> WorkspaceProbe {
    WorkspaceProbe {
        name: name.to_string(),
        is_dir,
        has_db,
        children: children
            .into_iter()
            .map(|(n, d, db)| ChildProbe { name: n.to_string(), is_dir: d, has_db: db })
            .collect(),
    }
}

#[test]
fn list_instance_tree_reports_hierarchy() {
    let scan = vec![
        workspace(WS, true, true, vec![(CHILD, true, true), ("pdt.db", false, false), ("empty", true, false)]),
        workspace("loose-file", false, false, vec![]),
        workspace("bare", true, false, vec![("c2", true, true)]),
    ];
    let tree = instance_tree(&scan);
    assert!(tree.contains(&(WS.to_string(), None)));
    assert!(tree.contains(&(WS.to_string(), Some(CHILD.to_string()))));
    assert_eq!(
        tree,
        vec![
            (WS.to_string(), None),
            (WS.to_string(), Some(CHILD.to_string())),
            ("bare".to_string(), Some("c2".to_string())),
        ]
    );
    assert_eq!(provisioned_instances(&scan), vec![WS.to_string(), CHILD.to_string(), "c2".to_string()]);
}

#[test]
fn instance_tree_groups_children_sorted() {
    let entries = vec![
        ("w1".to_string(), None),
        ("w1".to_string(), Some("c".to_string())),
        ("w2".to_string(), Some("z".to_string())),
        ("w1".to_string(), Some("a".to_string())),
        ("w2".to_string(), None),
    ];
    let nodes = group_instance_tree(&entries);
    assert_eq!(nodes.len(), 2);
    assert_eq!(nodes[0].workspace_id, "w1");
    assert_eq!(nodes[0].children, vec!["a".to_string(), "c".to_string()]);
    assert_eq!(nodes[1].workspace_id, "w2");
    assert_eq!(nodes[1].children, vec!["z".to_string()]);
}

#[test]
fn instance_ids_are_listed_once() {
    let cached = vec!["a".to_string(), "b".to_string(), "a".to_string()];
    let scanned = vec!["b".to_string(), "c".to_string()];
    assert_eq!(merge_instance_ids(&cached, &scanned), vec!["a".to_string(), "b".to_string(), "c".to_string()]);
}

#[test]
fn workspace_provision_creates_top_level_db() {
    let plan = ProvisionPlan::new("/d", WS, None).unwrap();
    assert_eq!(plan.db_path, format!("/d/{}/pdt.db", WS));
    assert!(plan.parent.is_none());
    assert_eq!(plan.decide(true, false).unwrap(), ProvisionAction::Create);
}

#[test]
fn child_provision_creates_nested_db() {
    let plan = ProvisionPlan::new("/d", CHILD, Some(WS)).unwrap();
    assert_eq!(plan.db_path, format!("/d/{}/{}/pdt.db", WS, CHILD));
    assert_eq!(plan.parent, Some((WS.to_string(), format!("/d/{}/pdt.db", WS))));
    assert_eq!(plan.decide(true, false).unwrap(), ProvisionAction::Create);
}

#[test]
fn routing_finds_child_db() {
    let entries = vec![entry(WS, true, true, true)];
    assert_eq!(locate_db("/d", CHILD, false, &entries), format!("/d/{}/{}/pdt.db", WS, CHILD));
    // Nothing on disk yet: the top-level location.
    assert_eq!(locate_db("/d", CHILD, false, &vec![]), format!("/d/{}/pdt.db", CHILD));
}

#[test]
fn routing_rejects_non_uuid_header() {
    assert!(validate_uuid("../etc").is_err());
    assert!(validate_uuid("nope").is_err());
}

#[test]
fn delete_workspace_removes_children() {
    let target = delete_target("/d", WS, true, &vec![]).unwrap();
    assert_eq!(target, format!("/d/{}", WS));
    let a = "33333333-3333-4333-8333-333333333333".to_string();
    let b = "44444444-4444-4444-8444-444444444444".to_string();
    let inside = vec!["pdt.db".to_string(), a.clone(), b.clone()];
    let evicted = evicted_ids(WS, &inside);
    assert!(evicted.contains(&WS.to_string()));
    assert!(evicted.contains(&a) && evicted.contains(&b));
}

#[test]
fn delete_child_keeps_workspace() {
    let entries = vec![entry(WS, true, true, true)];
    let target = delete_target("/d", CHILD, false, &entries).unwrap();
    assert_eq!(target, format!("/d/{}/{}", WS, CHILD));
    assert_ne!(target, format!("/d/{}", WS));
}

#[test]
fn listed_instances_include_children_on_disk() {
    let scan = vec![workspace(WS, true, true, vec![(CHILD, true, true)])];
    let listed = merge_instance_ids(&vec![WS.to_string()], &provisioned_instances(&scan));
    assert_eq!(listed, vec![WS.to_string(), CHILD.to_string()]);
}
