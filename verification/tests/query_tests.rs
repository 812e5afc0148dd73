use pdt::models::asset::Asset;
use pdt::models::audit::{AuditAction, AuditEntry};
use pdt::models::collection::Collection;
use pdt::query::{
    build_audit_query, build_collection_query, build_list_query, build_search_query, finish_asset_page,
    finish_audit_page, finish_collection_page, finish_popped_collection_page, finish_popped_page, parse_cursor, sort_field_of, sort_order_of,
    PageCursor, SortField, SortOrder, SqlValue,
};

const LIST_SELECT: &str = "SELECT a.id, a.title, a.content, a.created_at, a.updated_at, a.created_by, a.updated_by, a.deleted_at, a.visibility, a.confidentiality, a.owner_groups\n             FROM assets a\n             WHERE a.deleted_at IS NULL";

fn text(v: &SqlValue) -> &str {
    match v {
        SqlValue::Text(s) => s.as_str(),
        other => panic!("expected text, got {:?}", other),
    }
}

fn as_int(v: &SqlValue) -> i64 {
    match v {
        SqlValue::Integer(i) => *i,
        other => panic!("expected an integer, got {:?}", other),
    }
}

#[test]
fn sort_parameters() {
    assert_eq!(sort_field_of("created_at"), SortField::CreatedAt);
    assert_eq!(sort_field_of("updated_at"), SortField::UpdatedAt);
    assert_eq!(sort_field_of("title"), SortField::UpdatedAt);
    assert_eq!(sort_order_of("asc"), SortOrder::Asc);
    assert_eq!(sort_order_of("ASC"), SortOrder::Asc);
    assert_eq!(sort_order_of("desc"), SortOrder::Desc);
    assert_eq!(sort_order_of("ascending"), SortOrder::Desc);
}

#[test]
fn cursors_split_at_the_first_bar() {
    match parse_cursor("2024-01-01T00:00:00+00:00|abc|d") {
        PageCursor::Seek { timestamp, id } => {
            assert_eq!(timestamp, "2024-01-01T00:00:00+00:00");
            assert_eq!(id, "abc|d");
        }
        other => panic!("unexpected {:?}", other),
    }
    match parse_cursor("abc") {
        PageCursor::Id(id) => assert_eq!(id, "abc"),
        other => panic!("unexpected {:?}", other),
    }
}

#[test]
fn default_listing_query() {
    let (sql, params) = build_list_query(20, None, None, "updated_at", "desc").into_parts();
    assert_eq!(sql, format!("{} ORDER BY a.updated_at DESC, a.id DESC LIMIT ?", LIST_SELECT));
    assert_eq!(params.len(), 1);
    assert_eq!(as_int(&params[0]), 21);
}

#[test]
fn listing_query_with_type_and_seek_cursor() {
    let (sql, params) =
        build_list_query(2, Some("2024-05-01T10:00:00+00:00|id-9"), Some("document"), "created_at", "AsC")
            .into_parts();
    assert_eq!(
        sql,
        format!(
            "{} AND EXISTS (SELECT 1 FROM tags t WHERE t.asset_id = a.id AND t.category = 'asset_type' AND t.value = ?) AND (a.created_at > ? OR (a.created_at = ? AND a.id > ?)) ORDER BY a.created_at ASC, a.id ASC LIMIT ?",
            LIST_SELECT
        )
    );
    assert_eq!(params.len(), 5);
    assert_eq!(text(&params[0]), "document");
    assert_eq!(text(&params[1]), "2024-05-01T10:00:00+00:00");
    assert_eq!(text(&params[2]), "2024-05-01T10:00:00+00:00");
    assert_eq!(text(&params[3]), "id-9");
    assert_eq!(as_int(&params[4]), 3);
}

#[test]
fn listing_query_with_id_cursor() {
    let (sql, params) = build_list_query(5, Some("id-3"), None, "x", "y").into_parts();
    assert_eq!(sql, format!("{} AND a.id < ? ORDER BY a.updated_at DESC, a.id DESC LIMIT ?", LIST_SELECT));
    assert_eq!(text(&params[0]), "id-3");
    assert_eq!(as_int(&params[1]), 6);
}

#[test]
fn search_query_binds_the_sanitized_match_and_tags() {
    let filters = vec![("type".to_string(), "doc".to_string()), ("status".to_string(), "draft".to_string())];
    let (sql, params) = build_search_query(Some("type:dispatch"), &filters, 10, Some("t|i")).into_parts();
    assert!(sql.starts_with("SELECT DISTINCT a.id, a.title"));
    assert!(sql.contains(" AND a.rowid IN (SELECT assets_fts.rowid FROM assets_fts WHERE assets_fts MATCH ?)"));
    assert!(sql.ends_with(
        " AND EXISTS (SELECT 1 FROM tags t WHERE t.asset_id = a.id AND t.category = ? AND t.value = ?) AND EXISTS (SELECT 1 FROM tags t WHERE t.asset_id = a.id AND t.category = ? AND t.value = ?) AND (a.updated_at < ? OR (a.updated_at = ? AND a.id < ?)) ORDER BY a.updated_at DESC, a.id DESC LIMIT ?"
    ));
    let texts: Vec<&str> = params[..params.len() - 1].iter().map(text).collect();
    assert_eq!(texts, vec!["\"type\" \"dispatch\"", "type", "doc", "status", "draft", "t", "t", "i"]);
    assert_eq!(as_int(&params[params.len() - 1]), 11);
    assert_eq!(sql.matches('?').count(), params.len());
}

#[test]
fn search_without_usable_text_skips_the_match() {
    for q in [None, Some(""), Some("!!! ---")] {
        let (sql, params) = build_search_query(q, &vec![], 3, None).into_parts();
        assert!(!sql.contains("MATCH"));
        assert_eq!(params.len(), 1);
    }
}

#[test]
fn audit_query_filters() {
    let (sql, params) = build_audit_query(Some("asset"), None, Some("u1"), 20, Some("c")).into_parts();
    assert_eq!(
        sql,
        "SELECT id, entity_type, entity_id, action, changes_json, user_id, timestamp\n             FROM audit_entries WHERE 1=1 AND entity_type = ? AND user_id = ? AND id < ? ORDER BY timestamp DESC, id DESC LIMIT ?"
    );
    assert_eq!(params.len(), 4);
    assert_eq!(text(&params[0]), "asset");
    assert_eq!(text(&params[1]), "u1");
    assert_eq!(text(&params[2]), "c");
    assert_eq!(as_int(&params[3]), 21);
}

#[test]
fn audit_query_resumes_after_timestamp_and_id() {
    let (sql, params) = build_audit_query(None, None, None, 5, Some("2024-01-01T00:00:00+00:00|e2")).into_parts();
    assert_eq!(
        sql,
        "SELECT id, entity_type, entity_id, action, changes_json, user_id, timestamp\n             FROM audit_entries WHERE 1=1 AND (timestamp < ? OR (timestamp = ? AND id < ?)) ORDER BY timestamp DESC, id DESC LIMIT ?"
    );
    assert_eq!(params.len(), 4);
    assert_eq!(text(&params[0]), "2024-01-01T00:00:00+00:00");
    assert_eq!(text(&params[1]), "2024-01-01T00:00:00+00:00");
    assert_eq!(text(&params[2]), "e2");
    assert_eq!(as_int(&params[3]), 6);
}

#[test]
fn collection_queries() {
    let (sql, params) = build_collection_query(2, Some("c1")).into_parts();
    assert_eq!(
        sql,
        "SELECT id, name, description, created_at, updated_at, created_by, updated_by\n             FROM collections WHERE id > ? ORDER BY id ASC LIMIT ?"
    );
    assert_eq!(text(&params[0]), "c1");
    assert_eq!(as_int(&params[1]), 3);
    let (sql, params) = build_collection_query(2, None).into_parts();
    assert_eq!(
        sql,
        "SELECT id, name, description, created_at, updated_at, created_by, updated_by\n             FROM collections ORDER BY id ASC LIMIT ?"
    );
    assert_eq!(params.len(), 1);
}

fn asset(id: &str, created: &str, updated: &str) -> Asset {
    Asset {
        id: id.to_string(),
        title: id.to_string(),
        content: None,
        tags: vec![],
        metadata: vec![],
        created_at: created.to_string(),
        updated_at: updated.to_string(),
        created_by: "u".to_string(),
        updated_by: "u".to_string(),
        deleted_at: None,
        auth_context: None,
    }
}

fn rows(n: usize) -> Vec<Asset> {
    (0..n).map(|i| asset(&format!("a{}", i), &format!("c{}", i), &format!("u{}", i))).collect()
}

#[test]
fn asset_pages_keep_limit_rows_and_resume_after_the_last() {
    let (page, cursor) = finish_asset_page(rows(3), 2, SortField::UpdatedAt);
    assert_eq!(page.iter().map(|a| a.id.as_str()).collect::<Vec<_>>(), vec!["a0", "a1"]);
    assert_eq!(cursor.as_deref(), Some("u1|a1"));
    let (page, cursor) = finish_asset_page(rows(3), 2, SortField::CreatedAt);
    assert_eq!(page.len(), 2);
    assert_eq!(cursor.as_deref(), Some("c1|a1"));
    let (page, cursor) = finish_asset_page(rows(2), 2, SortField::UpdatedAt);
    assert_eq!(page.len(), 2);
    assert!(cursor.is_none());
    let (page, cursor) = finish_asset_page(rows(2), -1, SortField::UpdatedAt);
    assert_eq!(page.len(), 2);
    assert!(cursor.is_none());
    let (page, cursor) = finish_asset_page(rows(1), 0, SortField::UpdatedAt);
    assert!(page.is_empty());
    assert!(cursor.is_none());
}

#[test]
fn popped_pages_drop_the_extra_row() {
    let (page, cursor) = finish_popped_page(rows(3), 2, SortField::UpdatedAt);
    assert_eq!(page.len(), 2);
    assert_eq!(cursor.as_deref(), Some("u1|a1"));
}

fn entry(id: &str) -> AuditEntry {
    AuditEntry {
        id: id.to_string(),
        entity_type: "asset".to_string(),
        entity_id: "a".to_string(),
        action: AuditAction::Create,
        changes_json: "{}".to_string(),
        user_id: "u".to_string(),
        timestamp: "t".to_string(),
    }
}

#[test]
fn audit_pages_resume_after_the_last_entry() {
    let (page, cursor) = finish_audit_page(vec![entry("e3"), entry("e2"), entry("e1")], 2);
    assert_eq!(page.len(), 2);
    assert_eq!(cursor.as_deref(), Some("t|e2"));
    let (page, cursor) = finish_audit_page(vec![entry("e1")], 2);
    assert_eq!(page.len(), 1);
    assert!(cursor.is_none());
}

fn collection(id: &str) -> Collection {
    Collection {
        id: id.to_string(),
        name: id.to_string(),
        description: None,
        tags: vec![],
        asset_ids: vec![],
        created_at: "t".to_string(),
        updated_at: "t".to_string(),
        created_by: "u".to_string(),
        updated_by: "u".to_string(),
    }
}

#[test]
fn collection_pages_resume_after_the_last_kept_id() {
    let (page, cursor) = finish_collection_page(vec![collection("c1"), collection("c2"), collection("c3")], 2);
    assert_eq!(page.iter().map(|c| c.id.as_str()).collect::<Vec<_>>(), vec!["c1", "c2"]);
    assert_eq!(cursor.as_deref(), Some("c2"));
    let (page, cursor) = finish_collection_page(vec![collection("c1")], 0);
    assert!(page.is_empty());
    assert!(cursor.is_none());
    let (page, cursor) = finish_collection_page(vec![collection("c1"), collection("c2")], 2);
    assert_eq!(page.len(), 2);
    assert!(cursor.is_none());
}

#[test]
fn document_collection_pages_resume_after_the_last_kept_id() {
    let (page, cursor) =
        finish_popped_collection_page(vec![collection("c1"), collection("c2"), collection("c3")], 2);
    assert_eq!(page.iter().map(|c| c.id.as_str()).collect::<Vec<_>>(), vec!["c1", "c2"]);
    assert_eq!(cursor.as_deref(), Some("c2"));
    let (page, cursor) = finish_popped_collection_page(vec![collection("c1")], 0);
    assert!(page.is_empty());
    assert!(cursor.is_none());
    let (page, cursor) = finish_popped_collection_page(vec![collection("c1"), collection("c2")], 2);
    assert_eq!(page.len(), 2);
    assert!(cursor.is_none());
}

#[test]
fn a_page_cursor_reads_back_as_the_last_item() {
    let items = vec![
        asset("x|1", "2024-01-01T00:00:00+00:00", "2024-02-01T00:00:00+00:00"),
        asset("x|2", "2024-01-02T00:00:00+00:00", "2024-02-02T00:00:00+00:00"),
    ];
    let (_, cursor) = finish_asset_page(items, 1, SortField::UpdatedAt);
    let cursor = cursor.unwrap();
    match parse_cursor(&cursor) {
        PageCursor::Seek { timestamp, id } => {
            assert_eq!(timestamp, "2024-02-01T00:00:00+00:00");
            assert_eq!(id, "x|1");
        }
        other => panic!("unexpected {:?}", other),
    }
    match pdt::docstore::seek_of(&cursor) {
        pdt::docstore::Seek::After { millis, id } => {
            assert_eq!(millis, 1706745600000);
            assert_eq!(id, "x|1");
        }
        other => panic!("unexpected {:?}", other),
    }
}
