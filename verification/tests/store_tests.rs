use pdt::models::asset::{CreateAssetRequest, UpdateAssetRequest};
use pdt::models::auth_context::AuthContext;
use pdt::models::tag::AddTagRequest;
use pdt::models::MetadataEntry;
use pdt::query::SqlValue;
use pdt::store::{build_asset, hydrate_asset, new_asset, update_statements, AssetRow};
use pdt::tenant::validate_uuid;

fn request() -> CreateAssetRequest {
    CreateAssetRequest {
        title: "Doc".to_string(),
        content: Some("body".to_string()),
        tags: vec![AddTagRequest { category: "asset_type".to_string(), value: "document".to_string() }],
        metadata: vec![MetadataEntry { key: "k".to_string(), value_json: "1".to_string() }],
        auth_context: None,
    }
}

#[test]
fn built_assets_take_request_fields_and_defaults() {
    let a = build_asset(request(), "u1", "id1".to_string(), &vec!["t1".to_string()], "2024-01-01T00:00:00+00:00");
    assert_eq!(a.id, "id1");
    assert_eq!(a.title, "Doc");
    assert_eq!(a.content.as_deref(), Some("body"));
    assert_eq!(a.tags.len(), 1);
    assert_eq!(a.tags[0].id, "t1");
    assert_eq!(a.tags[0].added_by, "u1");
    assert_eq!(a.created_at, "2024-01-01T00:00:00+00:00");
    assert_eq!(a.updated_by, "u1");
    assert!(a.deleted_at.is_none());
    let ctx = a.auth_context.unwrap();
    assert_eq!(ctx.visibility, "public");
    assert!(ctx.owner_groups.is_empty());
    assert_eq!(ctx.confidentiality, "internal");
}

#[test]
fn new_assets_get_fresh_uuids() {
    let a = new_asset(request(), "u1");
    let b = new_asset(request(), "u1");
    assert!(validate_uuid(&a.id).is_ok());
    assert!(validate_uuid(&a.tags[0].id).is_ok());
    assert_ne!(a.id, b.id);
    assert!(!a.created_at.is_empty());
}

fn row(visibility: Option<&str>, groups: Option<&str>) -> AssetRow {
    AssetRow {
        id: "a".to_string(),
        title: "T".to_string(),
        content: None,
        created_at: "c".to_string(),
        updated_at: "u".to_string(),
        created_by: "x".to_string(),
        updated_by: "y".to_string(),
        deleted_at: None,
        visibility: visibility.map(|s| s.to_string()),
        confidentiality: None,
        owner_groups: groups.map(|s| s.to_string()),
    }
}

#[test]
fn hydration_reads_the_context_columns() {
    let a = hydrate_asset(row(None, None), vec![], vec![]);
    assert!(a.auth_context.is_none());
    let a = hydrate_asset(row(Some("team"), Some("[\"devs\",\"ops\"]")), vec![], vec![]);
    let c: AuthContext = a.auth_context.unwrap();
    assert_eq!(c.visibility, "team");
    assert_eq!(c.owner_groups, vec!["devs".to_string(), "ops".to_string()]);
    assert_eq!(c.confidentiality, "");
    let a = hydrate_asset(row(None, Some("not json")), vec![], vec![]);
    let c = a.auth_context.unwrap();
    assert!(c.owner_groups.is_empty());
    assert_eq!(c.visibility, "");
}

#[test]
fn hydration_drops_invalid_metadata() {
    let metadata = vec![
        MetadataEntry { key: "good".to_string(), value_json: "{\"x\":1}".to_string() },
        MetadataEntry { key: "bad".to_string(), value_json: "{x".to_string() },
        MetadataEntry { key: "num".to_string(), value_json: "2".to_string() },
    ];
    let a = hydrate_asset(row(None, None), vec![], metadata);
    let keys: Vec<&str> = a.metadata.iter().map(|m| m.key.as_str()).collect();
    assert_eq!(keys, vec!["good", "num"]);
}

fn texts(q: &pdt::query::SqlQuery) -> String {
    format!("{:?}", q)
}

#[test]
fn update_statements_follow_the_request() {
    let req = UpdateAssetRequest { title: Some("New".to_string()), content: None, metadata: None };
    let stmts: Vec<(String, Vec<SqlValue>)> = update_statements("a1", &req, "u2", "now").into_iter().map(|q| q.into_parts()).collect();
    assert_eq!(stmts.len(), 1);
    assert_eq!(stmts[0].0, "UPDATE assets SET title = ?, updated_at = ?, updated_by = ? WHERE id = ? AND deleted_at IS NULL");
    assert_eq!(stmts[0].1.len(), 4);

    let req = UpdateAssetRequest { title: None, content: None, metadata: None };
    let stmts = update_statements("a1", &req, "u2", "now");
    assert_eq!(stmts.len(), 1);
    assert!(!texts(&stmts[0]).is_empty());
    let (sql, params) = update_statements("a1", &req, "u2", "now").remove(0).into_parts();
    assert_eq!(sql, "UPDATE assets SET updated_at = ?, updated_by = ? WHERE id = ? AND deleted_at IS NULL");
    assert_eq!(params.len(), 3);

    let req = UpdateAssetRequest {
        title: None,
        content: Some("c".to_string()),
        metadata: Some(vec![MetadataEntry { key: "k".to_string(), value_json: "true".to_string() }]),
    };
    let stmts: Vec<String> = update_statements("a1", &req, "u2", "now").into_iter().map(|q| q.into_parts().0).collect();
    assert_eq!(
        stmts,
        vec![
            "UPDATE assets SET content = ?, updated_at = ?, updated_by = ? WHERE id = ? AND deleted_at IS NULL".to_string(),
            "DELETE FROM asset_metadata WHERE asset_id = ?".to_string(),
            "INSERT INTO asset_metadata (asset_id, key, value_json) VALUES (?, ?, ?)".to_string(),
            "UPDATE assets SET updated_at = ?, updated_by = ? WHERE id = ? AND deleted_at IS NULL".to_string(),
        ]
    );
}

#[test]
fn insert_statements_store_row_tags_and_metadata() {
    let stmts: Vec<(String, Vec<SqlValue>)> =
        pdt::store::insert_statements(&request(), "u1", "id1", &vec!["t1".to_string()], "now")
            .into_iter()
            .map(|q| q.into_parts())
            .collect();
    assert_eq!(stmts.len(), 3);
    assert_eq!(
        stmts[0].0,
        "INSERT INTO assets (id, title, content, created_at, updated_at, created_by, updated_by, deleted_at, visibility, confidentiality, owner_groups)\n             VALUES (?, ?, ?, ?, ?, ?, ?, NULL, ?, ?, ?)"
    );
    assert_eq!(stmts[0].1.len(), 10);
    assert!(matches!(&stmts[0].1[2], SqlValue::Text(c) if c == "body"));
    assert!(matches!(&stmts[0].1[7], SqlValue::Text(v) if v == "public"));
    assert!(matches!(&stmts[0].1[8], SqlValue::Text(c) if c == "internal"));
    assert!(matches!(&stmts[0].1[9], SqlValue::Text(g) if g == "[]"));
    assert_eq!(stmts[1].0, "INSERT INTO tags (id, asset_id, category, value, added_by, added_at) VALUES (?, ?, ?, ?, ?, ?)");
    assert!(matches!(&stmts[1].1[0], SqlValue::Text(t) if t == "t1"));
    assert_eq!(stmts[2].0, "INSERT INTO asset_metadata (asset_id, key, value_json) VALUES (?, ?, ?)");
    let mut no_content = request();
    no_content.content = None;
    no_content.auth_context = Some(AuthContext {
        visibility: "team".to_string(),
        owner_groups: vec!["a\"b".to_string()],
        confidentiality: "internal".to_string(),
    });
    let (_, params) = pdt::store::insert_statements(&no_content, "u1", "id1", &vec!["t1".to_string()], "now")
        .remove(0)
        .into_parts();
    assert!(matches!(&params[2], SqlValue::Null));
    assert!(matches!(&params[7], SqlValue::Text(v) if v == "team"));
    assert!(matches!(&params[9], SqlValue::Text(g) if g == "[\"a\\\"b\"]"));
}

#[test]
fn auth_context_statement_stores_the_three_columns() {
    let ctx = AuthContext {
        visibility: "private".to_string(),
        owner_groups: vec!["eng".to_string(), "ops".to_string()],
        confidentiality: "restricted".to_string(),
    };
    let (sql, params) = pdt::store::auth_context_statement("a1", &ctx, "now").into_parts();
    assert_eq!(
        sql,
        "UPDATE assets SET visibility = ?, confidentiality = ?, owner_groups = ?, updated_at = ?\n             WHERE id = ? AND deleted_at IS NULL"
    );
    assert_eq!(params.len(), 5);
    assert!(matches!(&params[0], SqlValue::Text(v) if v == "private"));
    assert!(matches!(&params[1], SqlValue::Text(v) if v == "restricted"));
    assert!(matches!(&params[2], SqlValue::Text(g) if g == "[\"eng\",\"ops\"]"));
    assert!(matches!(&params[3], SqlValue::Text(t) if t == "now"));
    assert!(matches!(&params[4], SqlValue::Text(i) if i == "a1"));
}

#[test]
fn hydration_reads_times_in_utc() {
    let mut r = row(None, None);
    r.created_at = "2024-03-01T12:00:00+02:00".to_string();
    r.updated_at = "2024-03-01T10:00:00Z".to_string();
    r.deleted_at = Some("not a time".to_string());
    let tag = pdt::models::Tag {
        id: "t".to_string(),
        category: "c".to_string(),
        value: "v".to_string(),
        added_by: "u".to_string(),
        added_at: "2024-03-01T10:00:00.5Z".to_string(),
    };
    let a = hydrate_asset(r, vec![tag], vec![]);
    assert_eq!(a.created_at, "2024-03-01T10:00:00+00:00");
    assert_eq!(a.updated_at, "2024-03-01T10:00:00+00:00");
    assert_eq!(a.tags[0].added_at, "2024-03-01T10:00:00.500+00:00");
    // An unreadable time is replaced by the current time.
    let d = a.deleted_at.unwrap();
    assert!(d != "not a time" && !d.contains('|'));
    assert_eq!(pdt::store::read_stored_time("2024-01-01T00:00:00Z"), "2024-01-01T00:00:00+00:00");
}

#[test]
fn hydration_keeps_one_entry_per_metadata_key() {
    let metadata = vec![
        MetadataEntry { key: "k".to_string(), value_json: "1".to_string() },
        MetadataEntry { key: "j".to_string(), value_json: "true".to_string() },
        MetadataEntry { key: "k".to_string(), value_json: "2".to_string() },
    ];
    let a = hydrate_asset(row(None, None), vec![], metadata);
    let entries: Vec<(&str, &str)> = a.metadata.iter().map(|m| (m.key.as_str(), m.value_json.as_str())).collect();
    assert_eq!(entries, vec![("k", "2"), ("j", "true")]);
}

#[test]
fn a_stored_context_reads_back() {
    let ctx = AuthContext {
        visibility: "team".to_string(),
        owner_groups: vec!["eng".to_string(), "a \"quoted\" \\ group".to_string(), "".to_string()],
        confidentiality: "internal".to_string(),
    };
    let (_, params) = pdt::store::auth_context_statement("a1", &ctx, "now").into_parts();
    let text = |v: &SqlValue| match v {
        SqlValue::Text(t) => t.clone(),
        _ => panic!("text expected"),
    };
    let mut r = row(Some(&text(&params[0])), Some(&text(&params[2])));
    r.confidentiality = Some(text(&params[1]));
    let back = hydrate_asset(r, vec![], vec![]).auth_context.unwrap();
    assert_eq!(back.visibility, ctx.visibility);
    assert_eq!(back.owner_groups, ctx.owner_groups);
    assert_eq!(back.confidentiality, ctx.confidentiality);
}
