//! Records of the stores: new assets, assets read back from relational
//! rows, and the statements that write assets to the relational store.

use vstd::prelude::*;

use crate::models::asset::{Asset, CreateAssetRequest, UpdateAssetRequest};
use crate::models::auth_context::{
    creation_default, creation_default_context, strings_view, AuthContext, AuthContextView,
};
use crate::models::tag::{AddTagRequest, Tag};
use crate::models::{keyed, keys_distinct, put_metadata, MetadataEntry};
use crate::query::{value_view, with_param, with_text, QueryView, SqlQuery, SqlValue, SqlValueView};
use crate::text::owned;

verus! {

// ---------------------------------------------------------------------------
// Identifiers, time and JSON
// ---------------------------------------------------------------------------

/// A fresh random identifier: `uuid::Uuid::new_v4` in its `Display` form,
/// which the crate documents as the lower-case hyphenated form.
#[verifier::external_body]
fn new_entity_id() -> (id: String)
    ensures
        crate::tenant::is_hyphenated_uuid(id@),
{
    uuid::Uuid::new_v4().to_string()
}

/// The current time as RFC 3339 text (`chrono::Utc::now().to_rfc3339()`).
/// Which time it is, is not stated; chrono's RFC 3339 writer emits digits,
/// a sign for years outside 0..=9999, `-`, `T`, `:`, `.` and `+`, so the
/// text holds no `|`.
#[verifier::external_body]
fn now_rfc3339() -> (t: String)
    ensures
        !t@.contains('|'),
{
    chrono::Utc::now().to_rfc3339()
}

/// The stored time `text` read as RFC 3339 and written again in UTC as
/// chrono writes it; `None` when `text` is not RFC 3339.
pub uninterp spec fn utc_rfc3339_of(text: Seq<char>) -> Option<Seq<char>>;

/// `chrono::DateTime::parse_from_rfc3339`, then `with_timezone(&Utc)` and
/// `to_rfc3339`; the result is named `utc_rfc3339_of`. As for
/// `now_rfc3339`, chrono's writer puts no `|` in the text.
#[verifier::external_body]
fn normalize_rfc3339(text: &str) -> (r: Option<String>)
    ensures
        match r {
            Some(t) => utc_rfc3339_of(text@) == Some(t@) && !t@.contains('|'),
            None => utc_rfc3339_of(text@) is None,
        },
{
    chrono::DateTime::parse_from_rfc3339(text).ok().map(|t| t.with_timezone(&chrono::Utc).to_rfc3339())
}

/// `t` is how a stored time `s` is read back: the UTC form of `s` when it is
/// RFC 3339 (otherwise the current time), never holding `|`.
pub open spec fn read_time_ok(t: Seq<char>, s: Seq<char>) -> bool {
    &&& match utc_rfc3339_of(s) {
        Some(x) => t == x,
        None => true,
    }
    &&& !t.contains('|')
}

/// Reads a stored time: its UTC RFC 3339 form, or the current time when it
/// is not RFC 3339.
pub fn read_stored_time(text: &str) -> (t: String)
    ensures
        read_time_ok(t@, text@),
{
    match normalize_rfc3339(text) {
        Some(t) => t,
        None => now_rfc3339(),
    }
}

/// The strings a JSON text denotes when it is an array of strings
/// (`serde_json::from_str::<Vec<String>>`); `None` otherwise.
pub uninterp spec fn json_string_list(text: Seq<char>) -> Option<Seq<Seq<char>>>;

/// `serde_json::from_str::<Vec<String>>`; its result is named
/// `json_string_list`.
#[verifier::external_body]
fn parse_string_list(text: &str) -> (r: Option<Vec<String>>)
    ensures
        match r {
            Some(v) => json_string_list(text@) == Some(strings_view(v@)),
            None => json_string_list(text@) is None,
        },
{
    serde_json::from_str::<Vec<String>>(text).ok()
}

/// Whether a text is a JSON document (`serde_json::from_str` into a
/// `serde_json::Value` succeeds).
pub uninterp spec fn is_json(text: Seq<char>) -> bool;

/// `serde_json::from_str::<serde_json::Value>(..).is_ok()`; its result is
/// named `is_json`.
#[verifier::external_body]
fn json_parses(text: &str) -> (b: bool)
    ensures
        b == is_json(text@),
{
    serde_json::from_str::<serde_json::Value>(text).is_ok()
}

/// The JSON text of a list of strings (`serde_json::to_string`).
pub uninterp spec fn string_list_json(strings: Seq<Seq<char>>) -> Seq<char>;

/// `serde_json::to_string` of a list of strings; its result is named
/// `string_list_json`, and it reads back (`serde_json::from_str`) as the
/// same list: serde_json writes each string as a JSON string literal, which
/// it parses back to that string.
#[verifier::external_body]
fn string_list_to_json(v: &Vec<String>) -> (s: String)
    ensures
        s@ == string_list_json(strings_view(v@)),
        json_string_list(s@) == Some(strings_view(v@)),
{
    serde_json::to_string(v).unwrap_or_default()
}

// ---------------------------------------------------------------------------
// New assets
// ---------------------------------------------------------------------------

/// The view of an optional string.
pub open spec fn ostr(o: Option<String>) -> Option<Seq<char>> {
    match o {
        Some(s) => Some(s@),
        None => None,
    }
}

/// `t` is the tag made from request `r` with id `id` by `user` at `now`.
pub open spec fn tag_from(t: Tag, r: AddTagRequest, id: Seq<char>, user: Seq<char>, now: Seq<char>) -> bool {
    &&& t.id@ == id
    &&& t.category@ == r.category@
    &&& t.value@ == r.value@
    &&& t.added_by@ == user
    &&& t.added_at@ == now
}

/// `a` is the asset made from `request` with id `id` and tag ids `tag_ids`
/// by `user` at `now`: the request's title, content, tags and metadata;
/// created and updated at `now` by `user`; not deleted; with the request's
/// authorization context, or when it has none the default one (public,
/// no owner groups, internal).
pub open spec fn asset_from(
    a: Asset,
    request: CreateAssetRequest,
    user: Seq<char>,
    id: Seq<char>,
    tag_ids: Seq<Seq<char>>,
    now: Seq<char>,
) -> bool {
    &&& a.id@ == id
    &&& a.title@ == request.title@
    &&& ostr(a.content) == ostr(request.content)
    &&& a.tags@.len() == request.tags@.len()
    &&& forall|i: int| 0 <= i < a.tags@.len() ==> tag_from(#[trigger] a.tags@[i], request.tags@[i], tag_ids[i], user, now)
    &&& a.metadata@ == request.metadata@
    &&& a.created_at@ == now
    &&& a.updated_at@ == now
    &&& a.created_by@ == user
    &&& a.updated_by@ == user
    &&& a.deleted_at is None
    &&& a.auth_context is Some
    &&& a.auth_context->0.view() == request_context(request)
}

/// Builds a new asset from a request, its identifiers and the time (see
/// `asset_from`).
pub fn build_asset(request: CreateAssetRequest, user_id: &str, id: String, tag_ids: &Vec<String>, now: &str) -> (a: Asset)
    requires
        tag_ids@.len() == request.tags@.len(),
    ensures
        asset_from(a, request, user_id@, id@, strings_view(tag_ids@), now@),
{
    let ghost req = request;
    let CreateAssetRequest { title, content, tags: requested, metadata, auth_context } = request;
    let mut tags: Vec<Tag> = Vec::new();
    let n = requested.len();
    for i in 0..n
        invariant
            n == requested@.len(),
            n == tag_ids@.len(),
            requested@ == req.tags@,
            tags@.len() == i,
            forall|j: int| 0 <= j < i ==> tag_from(#[trigger] tags@[j], req.tags@[j], strings_view(tag_ids@)[j], user_id@, now@),
    {
        let t = Tag {
            id: tag_ids[i].clone(),
            category: requested[i].category.clone(),
            value: requested[i].value.clone(),
            added_by: owned(user_id),
            added_at: owned(now),
        };
        assert(strings_view(tag_ids@)[i as int] == tag_ids@[i as int]@);
        tags.push(t);
    }
    let ctx = match auth_context {
        Some(c) => c,
        None => creation_default(),
    };
    Asset {
        id,
        title,
        content,
        tags,
        metadata,
        created_at: owned(now),
        updated_at: owned(now),
        created_by: owned(user_id),
        updated_by: owned(user_id),
        deleted_at: None,
        auth_context: Some(ctx),
    }
}

/// A new asset for a request by `user_id`, with fresh identifiers (UUIDs
/// in hyphenated form) for it and its tags and the current time.
pub fn new_asset(request: CreateAssetRequest, user_id: &str) -> (a: Asset)
    ensures
        exists|id: Seq<char>, tag_ids: Seq<Seq<char>>, now: Seq<char>| #[trigger] asset_from(a, request, user_id@, id, tag_ids, now),
        crate::tenant::is_hyphenated_uuid(a.id@),
        forall|i: int| 0 <= i < a.tags@.len() ==> crate::tenant::is_hyphenated_uuid(#[trigger] a.tags@[i].id@),
{
    let id = new_entity_id();
    let now = now_rfc3339();
    let mut tag_ids: Vec<String> = Vec::new();
    let n = request.tags.len();
    for i in 0..n
        invariant
            tag_ids@.len() == i,
            forall|j: int| 0 <= j < i ==> crate::tenant::is_hyphenated_uuid(#[trigger] tag_ids@[j]@),
    {
        tag_ids.push(new_entity_id());
    }
    let ghost idv = id@;
    let a = build_asset(request, user_id, id, &tag_ids, now.as_str());
    assert(asset_from(a, request, user_id@, idv, strings_view(tag_ids@), now@));
    a
}

// ---------------------------------------------------------------------------
// Assets read back from the relational store
// ---------------------------------------------------------------------------

/// An asset row as stored.
#[derive(Debug)]
pub struct AssetRow {
    pub id: String,
    pub title: String,
    pub content: Option<String>,
    pub created_at: String,
    pub updated_at: String,
    pub created_by: String,
    pub updated_by: String,
    pub deleted_at: Option<String>,
    pub visibility: Option<String>,
    pub confidentiality: Option<String>,
    /// The owner groups as a JSON array of strings.
    pub owner_groups: Option<String>,
}

/// The authorization context stored in a row: none when all three columns
/// are empty; otherwise the visibility and classification (empty when
/// unset) and the owner groups parsed from JSON (none when unset or not an
/// array of strings).
pub open spec fn row_context(row: AssetRow) -> Option<AuthContextView> {
    if row.visibility is None && row.confidentiality is None && row.owner_groups is None {
        None
    } else {
        Some(
            AuthContextView {
                visibility: match row.visibility {
                    Some(v) => v@,
                    None => Seq::empty(),
                },
                owner_groups: match row.owner_groups {
                    Some(g) => match json_string_list(g@) {
                        Some(list) => list,
                        None => Seq::empty(),
                    },
                    None => Seq::empty(),
                },
                confidentiality: match row.confidentiality {
                    Some(c) => c@,
                    None => Seq::empty(),
                },
            },
        )
    }
}

/// The metadata entries whose value is a JSON document, in order.
pub open spec fn valid_metadata(m: Seq<MetadataEntry>) -> Seq<MetadataEntry>
    decreases m.len(),
{
    if m.len() == 0 {
        Seq::empty()
    } else {
        let prev = valid_metadata(m.drop_last());
        if is_json(m.last().value_json@) {
            prev.push(m.last())
        } else {
            prev
        }
    }
}

fn text_or_empty(o: Option<String>) -> (s: String)
    ensures
        s@ == match o {
            Some(x) => x@,
            None => Seq::<char>::empty(),
        },
{
    proof {
        reveal_strlit("");
    }
    match o {
        Some(x) => x,
        None => owned(""),
    }
}

/// A tag read back: the stored tag with its time read as `read_time_ok`
/// says.
pub open spec fn tag_read_back(t: Tag, stored: Tag) -> bool {
    &&& t.id@ == stored.id@
    &&& t.category@ == stored.category@
    &&& t.value@ == stored.value@
    &&& t.added_by@ == stored.added_by@
    &&& read_time_ok(t.added_at@, stored.added_at@)
}

/// Reads back stored tags (see `tag_read_back`).
pub fn read_tags(tags: Vec<Tag>) -> (r: Vec<Tag>)
    ensures
        r@.len() == tags@.len(),
        forall|i: int| 0 <= i < r@.len() ==> tag_read_back(#[trigger] r@[i], tags@[i]),
{
    let ghost all = tags@;
    let mut out: Vec<Tag> = Vec::new();
    let mut rest = tags;
    let n = rest.len();
    let mut i: usize = 0;
    while i < n
        invariant
            n == all.len(),
            i <= n,
            rest@ == all.skip(i as int),
            out@.len() == i,
            forall|k: int| 0 <= k < i ==> tag_read_back(#[trigger] out@[k], all[k]),
        decreases n - i,
    {
        let t = rest.remove(0);
        assert(t == all[i as int]);
        assert(rest@ =~= all.skip(i + 1));
        let added_at = read_stored_time(t.added_at.as_str());
        out.push(Tag { id: t.id, category: t.category, value: t.value, added_by: t.added_by, added_at });
        i = i + 1;
    }
    out
}

/// The asset of a row with its tags and metadata: the row's fields as
/// stored, with its times (and the tags' times) read as `read_time_ok` says,
/// the metadata entries whose value is valid JSON (one per key, the last
/// value of a key winning), and the authorization context of `row_context`.
pub fn hydrate_asset(row: AssetRow, tags: Vec<Tag>, metadata: Vec<MetadataEntry>) -> (a: Asset)
    ensures
        a.id@ == row.id@,
        a.title@ == row.title@,
        ostr(a.content) == ostr(row.content),
        a.tags@.len() == tags@.len(),
        forall|i: int| 0 <= i < a.tags@.len() ==> tag_read_back(#[trigger] a.tags@[i], tags@[i]),
        a.metadata@ == keyed(valid_metadata(metadata@)),
        keys_distinct(a.metadata@),
        read_time_ok(a.created_at@, row.created_at@),
        read_time_ok(a.updated_at@, row.updated_at@),
        a.created_by@ == row.created_by@,
        a.updated_by@ == row.updated_by@,
        match row.deleted_at {
            Some(d) => a.deleted_at matches Some(x) && read_time_ok(x@, d@),
            None => a.deleted_at is None,
        },
        match row_context(row) {
            Some(c) => a.auth_context is Some && a.auth_context->0.view() == c,
            None => a.auth_context is None,
        },
{
    let ghost r = row;
    let mut kept: Vec<MetadataEntry> = Vec::new();
    let mut rest = metadata;
    let ghost all = rest@;
    let n = rest.len();
    let mut i: usize = 0;
    while i < n
        invariant
            n == all.len(),
            i <= n,
            rest@ == all.skip(i as int),
            kept@ == keyed(valid_metadata(all.take(i as int))),
            keys_distinct(kept@),
        decreases n - i,
    {
        let m = rest.remove(0);
        assert(all.take(i + 1).drop_last() =~= all.take(i as int));
        assert(m == all[i as int]);
        assert(rest@ =~= all.skip(i + 1));
        let ghost prev = valid_metadata(all.take(i as int));
        if json_parses(m.value_json.as_str()) {
            put_metadata(&mut kept, m);
            assert(valid_metadata(all.take(i + 1)) == prev.push(all[i as int]));
            assert(prev.push(all[i as int]).drop_last() =~= prev);
        } else {
            assert(valid_metadata(all.take(i + 1)) == prev);
        }
        i = i + 1;
    }
    assert(all.take(n as int) =~= all);
    let AssetRow {
        id,
        title,
        content,
        created_at,
        updated_at,
        created_by,
        updated_by,
        deleted_at,
        visibility,
        confidentiality,
        owner_groups,
    } = row;
    let auth_context = if visibility.is_some() || confidentiality.is_some() || owner_groups.is_some() {
        let groups = match &owner_groups {
            Some(g) => match parse_string_list(g.as_str()) {
                Some(list) => list,
                None => Vec::new(),
            },
            None => Vec::new(),
        };
        let c = AuthContext {
            visibility: text_or_empty(visibility),
            owner_groups: groups,
            confidentiality: text_or_empty(confidentiality),
        };
        assert(c.view().owner_groups =~= row_context(r)->0.owner_groups);
        Some(c)
    } else {
        None
    };
    let tags = read_tags(tags);
    let created_at = read_stored_time(created_at.as_str());
    let updated_at = read_stored_time(updated_at.as_str());
    let deleted_at = match deleted_at {
        Some(d) => Some(read_stored_time(d.as_str())),
        None => None,
    };
    Asset {
        id,
        title,
        content,
        tags,
        metadata: kept,
        created_at,
        updated_at,
        created_by,
        updated_by,
        deleted_at,
        auth_context,
    }
}

// ---------------------------------------------------------------------------
// Writing assets to the relational store
// ---------------------------------------------------------------------------

/// The view of a list of statements.
pub open spec fn statements_view(v: Seq<SqlQuery>) -> Seq<QueryView> {
    v.map_values(|q: SqlQuery| q.view())
}

/// A statement built from fragments and values: `texts[0] ? texts[1] ? …`.
pub open spec fn statement(texts: Seq<Seq<char>>, values: Seq<SqlValueView>) -> QueryView
    decreases values.len(),
{
    if values.len() == 0 {
        (texts[0], Seq::empty())
    } else {
        with_text(
            with_param(statement(texts.drop_last(), values.drop_last()), values.last()),
            texts.last(),
        )
    }
}

/// A statement binds its values, in order.
proof fn lemma_statement_params(texts: Seq<Seq<char>>, values: Seq<SqlValueView>)
    ensures
        statement(texts, values).1 == values,
    decreases values.len(),
{
    if values.len() > 0 {
        lemma_statement_params(texts.drop_last(), values.drop_last());
        assert(values.drop_last().push(values.last()) =~= values);
    }
}

/// `UPDATE assets SET <column> = ?, updated_at = ?, updated_by = ? WHERE id
/// = ? AND deleted_at IS NULL` (or only the bookkeeping columns when
/// `column` is empty).
pub open spec fn touch_statement(column: Seq<char>, value: Option<SqlValueView>, now: Seq<char>, user: Seq<char>, id: Seq<char>) -> QueryView {
    match value {
        Some(v) => statement(
            seq![
                "UPDATE assets SET "@ + column + " = "@,
                ", updated_at = "@,
                ", updated_by = "@,
                " WHERE id = "@,
                " AND deleted_at IS NULL"@,
            ],
            seq![v, SqlValueView::Text(now), SqlValueView::Text(user), SqlValueView::Text(id)],
        ),
        None => statement(
            seq!["UPDATE assets SET updated_at = "@, ", updated_by = "@, " WHERE id = "@, " AND deleted_at IS NULL"@],
            seq![SqlValueView::Text(now), SqlValueView::Text(user), SqlValueView::Text(id)],
        ),
    }
}

/// `INSERT INTO asset_metadata (asset_id, key, value_json) VALUES (?, ?, ?)`.
pub open spec fn metadata_insert(id: Seq<char>, m: MetadataEntry) -> QueryView {
    statement(
        seq!["INSERT INTO asset_metadata (asset_id, key, value_json) VALUES ("@, ", "@, ", "@, ")"@],
        seq![SqlValueView::Text(id), SqlValueView::Text(m.key@), SqlValueView::Text(m.value_json@)],
    )
}

/// The inserts of a list of metadata entries.
pub open spec fn metadata_inserts(id: Seq<char>, ms: Seq<MetadataEntry>) -> Seq<QueryView> {
    ms.map_values(|m: MetadataEntry| metadata_insert(id, m))
}

/// The statements of an asset update, in order: the title when set, the
/// content when set, and when metadata is set the removal of the old
/// entries, the insertion of the new ones and a bump of the update time;
/// when nothing is set, only the bump.
pub open spec fn update_statements_spec(id: Seq<char>, request: UpdateAssetRequest, user: Seq<char>, now: Seq<char>) -> Seq<
    QueryView,
> {
    let t = match request.title {
        Some(x) => seq![touch_statement("title"@, Some(SqlValueView::Text(x@)), now, user, id)],
        None => Seq::empty(),
    };
    let c = match request.content {
        Some(x) => seq![touch_statement("content"@, Some(SqlValueView::Text(x@)), now, user, id)],
        None => Seq::empty(),
    };
    let m = match request.metadata {
        Some(ms) => seq![
            statement(seq!["DELETE FROM asset_metadata WHERE asset_id = "@, ""@], seq![SqlValueView::Text(id)]),
        ] + metadata_inserts(id, ms@) + seq![touch_statement(""@, None, now, user, id)],
        None => Seq::empty(),
    };
    let bump = if request.title is None && request.content is None && request.metadata is None {
        seq![touch_statement(""@, None, now, user, id)]
    } else {
        Seq::empty()
    };
    t + c + m + bump
}

fn touch(column: Option<&str>, value: Option<SqlValue>, now: &str, user_id: &str, id: &str) -> (q: SqlQuery)
    requires
        column is Some == value is Some,
        column matches Some(c) ==> !c@.contains('?'),
    ensures
        q.view() == touch_statement(
            match column {
                Some(c) => c@,
                None => ""@,
            },
            match value {
                Some(v) => Some(value_view(v)),
                None => None,
            },
            now@,
            user_id@,
            id@,
        ),
{
    proof {
        reveal_strlit("UPDATE assets SET ");
        reveal_strlit(" = ");
        reveal_strlit(", updated_at = ");
        reveal_strlit(", updated_by = ");
        reveal_strlit(" WHERE id = ");
        reveal_strlit(" AND deleted_at IS NULL");
        reveal_strlit("UPDATE assets SET updated_at = ");
    }
    match (column, value) {
        (Some(c), Some(v)) => {
            let head = crate::text::concat_str("UPDATE assets SET ", c);
            let head = crate::text::concat_str(head.as_str(), " = ");
            proof {
                assert(!head@.contains('?')) by {
                    if head@.contains('?') {
                        let i = choose|i: int| 0 <= i < head@.len() && head@[i] == '?';
                        assert(head@ == "UPDATE assets SET "@ + c@ + " = "@);
                        if i < 18 {
                            assert(head@[i] == "UPDATE assets SET "@[i]);
                        } else if i < 18 + c@.len() {
                            assert(head@[i] == c@[i - 18]);
                        } else {
                            assert(head@[i] == " = "@[i - 18 - c@.len()]);
                        }
                    }
                }
            }
            let q = SqlQuery::new(head.as_str()).param(v).text(", updated_at = ").param(SqlValue::Text(owned(now)));
            let q = q.text(", updated_by = ").param(SqlValue::Text(owned(user_id))).text(" WHERE id = ");
            let q = q.param(SqlValue::Text(owned(id))).text(" AND deleted_at IS NULL");
            proof {
                reveal_with_fuel(statement, 5);
            }
            q
        },
        _ => {
            let q = SqlQuery::new("UPDATE assets SET updated_at = ").param(SqlValue::Text(owned(now)));
            let q = q.text(", updated_by = ").param(SqlValue::Text(owned(user_id))).text(" WHERE id = ");
            let q = q.param(SqlValue::Text(owned(id))).text(" AND deleted_at IS NULL");
            proof {
                reveal_with_fuel(statement, 4);
            }
            q
        },
    }
}

fn insert_metadata(id: &str, m: &MetadataEntry) -> (q: SqlQuery)
    ensures
        q.view() == metadata_insert(id@, *m),
{
    proof {
        reveal_strlit("INSERT INTO asset_metadata (asset_id, key, value_json) VALUES (");
        reveal_strlit(", ");
        reveal_strlit(")");
        reveal_with_fuel(statement, 4);
    }
    SqlQuery::new("INSERT INTO asset_metadata (asset_id, key, value_json) VALUES (").param(SqlValue::Text(owned(id))).text(
        ", ",
    ).param(SqlValue::Text(m.key.clone())).text(", ").param(SqlValue::Text(m.value_json.clone())).text(")")
}

fn push_statement(out: &mut Vec<SqlQuery>, q: SqlQuery)
    ensures
        statements_view(final(out)@) == statements_view(old(out)@).push(q.view()),
{
    let ghost before = out@;
    let ghost v = q.view();
    out.push(q);
    assert(statements_view(out@) =~= statements_view(before).push(v));
}

/// The statements that apply an update to an asset (see
/// `update_statements_spec`).
pub fn update_statements(id: &str, request: &UpdateAssetRequest, user_id: &str, now: &str) -> (r: Vec<SqlQuery>)
    ensures
        statements_view(r@) == update_statements_spec(id@, *request, user_id@, now@),
{
    proof {
        reveal_strlit("title");
        reveal_strlit("content");
        reveal_strlit("");
    }
    let mut out: Vec<SqlQuery> = Vec::new();
    assert(statements_view(out@) =~= Seq::<QueryView>::empty());
    let ghost s0 = statements_view(out@);
    match &request.title {
        Some(t) => push_statement(&mut out, touch(Some("title"), Some(SqlValue::Text(t.clone())), now, user_id, id)),
        None => {},
    }
    let ghost s1 = statements_view(out@);
    match &request.content {
        Some(c) => push_statement(&mut out, touch(Some("content"), Some(SqlValue::Text(c.clone())), now, user_id, id)),
        None => {},
    }
    let ghost s2 = statements_view(out@);
    match &request.metadata {
        Some(ms) => {
            proof {
                reveal_strlit("DELETE FROM asset_metadata WHERE asset_id = ");
                reveal_with_fuel(statement, 2);
            }
            push_statement(
                &mut out,
                SqlQuery::new("DELETE FROM asset_metadata WHERE asset_id = ").param(SqlValue::Text(owned(id))).text(""),
            );
            let ghost base = statements_view(out@);
            let n = ms.len();
            for i in 0..n
                invariant
                    n == ms@.len(),
                    statements_view(out@) == base + metadata_inserts(id@, ms@.take(i as int)),
            {
                push_statement(&mut out, insert_metadata(id, &ms[i]));
                assert(metadata_inserts(id@, ms@.take(i + 1)) =~= metadata_inserts(id@, ms@.take(i as int)).push(
                    metadata_insert(id@, ms@[i as int]),
                ));
            }
            assert(ms@.take(n as int) =~= ms@);
            push_statement(&mut out, touch(None, None, now, user_id, id));
        },
        None => {},
    }
    if request.title.is_none() && request.content.is_none() && request.metadata.is_none() {
        push_statement(&mut out, touch(None, None, now, user_id, id));
    }
    out
}

/// The views of bound values.
pub open spec fn values_view(v: Seq<SqlValue>) -> Seq<SqlValueView> {
    v.map_values(|x: SqlValue| value_view(x))
}

/// The views of text fragments.
pub open spec fn texts_view(t: Seq<&str>) -> Seq<Seq<char>> {
    t.map_values(|x: &str| x@)
}

/// The statement made of the placeholder-free fragments `texts` with one
/// value between consecutive fragments.
pub fn build_statement(texts: &[&str], values: Vec<SqlValue>) -> (q: SqlQuery)
    requires
        texts@.len() == values@.len() + 1,
        forall|i: int| 0 <= i < texts@.len() ==> !(#[trigger] texts@[i])@.contains('?'),
    ensures
        q.view() == statement(
            texts_view(texts@),
            values_view(values@),
        ),
{
    let ghost tv = texts_view(texts@);
    let ghost vv = values_view(values@);
    let mut q = SqlQuery::new(texts[0]);
    assert(tv.take(1).len() == 1);
    assert(q.view() == statement(tv.take(1), vv.take(0))) by {
        assert(vv.take(0).len() == 0);
        assert(tv.take(1)[0] == texts@[0]@);
    }
    let n = values.len();
    let mut rest = values;
    let mut i: usize = 0;
    while i < n
        invariant
            n + 1 == texts@.len(),
            i <= n,
            tv == texts_view(texts@),
            vv.len() == n,
            values_view(rest@) == vv.skip(i as int),
            rest@.len() == n - i,
            forall|k: int| 0 <= k < texts@.len() ==> !(#[trigger] texts@[k])@.contains('?'),
            q.view() == statement(tv.take(i + 1), vv.take(i as int)),
        decreases n - i,
    {
        let ghost rest0 = rest@;
        let v = rest.remove(0);
        proof {
            assert(value_view(v) == vv[i as int]) by {
                assert(values_view(rest0)[0] == value_view(rest0[0]));
            }
            assert(values_view(rest@) =~= vv.skip(i + 1)) by {
                assert forall|j: int| 0 <= j < rest@.len() implies #[trigger] values_view(rest@)[j]
                    == vv.skip(i + 1)[j] by {
                    assert(rest@[j] == rest0[j + 1]);
                    assert(values_view(rest0)[j + 1] == value_view(rest0[j + 1]));
                }
            }
            assert(tv.take(i + 2).drop_last() =~= tv.take(i + 1));
            assert(vv.take(i + 1).drop_last() =~= vv.take(i as int));
            assert(tv.take(i + 2).last() == texts@[i + 1]@);
        }
        q = q.param(v).text(texts[i + 1]);
        i = i + 1;
    }
    assert(tv.take(n + 1) =~= tv);
    assert(vv.take(n as int) =~= vv);
    q
}

/// The authorization context a creation request sets: its own, or the
/// default one.
pub open spec fn request_context(r: CreateAssetRequest) -> AuthContextView {
    match r.auth_context {
        Some(c) => c.view(),
        None => creation_default_context(),
    }
}

/// The value bound for optional content: the text, or `NULL`.
pub open spec fn content_value(c: Option<String>) -> SqlValueView {
    match c {
        Some(x) => SqlValueView::Text(x@),
        None => SqlValueView::Null,
    }
}

/// Whether a row's authorization columns hold the given stored values.
pub open spec fn row_holds(row: AssetRow, visibility: SqlValueView, confidentiality: SqlValueView, groups: SqlValueView) -> bool {
    &&& (row.visibility matches Some(v) && visibility == SqlValueView::Text(v@))
    &&& (row.confidentiality matches Some(c) && confidentiality == SqlValueView::Text(c@))
    &&& (row.owner_groups matches Some(g) && groups == SqlValueView::Text(g@))
}

/// The JSON text of an authorization context's owner groups.
pub open spec fn owner_groups_json(c: AuthContextView) -> Seq<char> {
    string_list_json(c.owner_groups)
}

/// The statements that store a new asset, in order: the asset row (its
/// authorization context, or the default one, in three columns, the owner
/// groups as JSON), one row per tag with the given tag ids, one row per
/// metadata entry.
pub open spec fn insert_statements_spec(
    request: CreateAssetRequest,
    user: Seq<char>,
    id: Seq<char>,
    tag_ids: Seq<Seq<char>>,
    now: Seq<char>,
) -> Seq<QueryView> {
    let ctx = request_context(request);
    let asset_row = statement(
        seq![
            "INSERT INTO assets (id, title, content, created_at, updated_at, created_by, updated_by, deleted_at, visibility, confidentiality, owner_groups)\n             VALUES ("@,
            ", "@,
            ", "@,
            ", "@,
            ", "@,
            ", "@,
            ", "@,
            ", NULL, "@,
            ", "@,
            ", "@,
            ")"@,
        ],
        seq![
            SqlValueView::Text(id),
            SqlValueView::Text(request.title@),
            content_value(request.content),
            SqlValueView::Text(now),
            SqlValueView::Text(now),
            SqlValueView::Text(user),
            SqlValueView::Text(user),
            SqlValueView::Text(ctx.visibility),
            SqlValueView::Text(ctx.confidentiality),
            SqlValueView::Text(owner_groups_json(ctx)),
        ],
    );
    let tags = Seq::new(
        request.tags@.len(),
        |i: int|
            statement(
                seq![
                    "INSERT INTO tags (id, asset_id, category, value, added_by, added_at) VALUES ("@,
                    ", "@,
                    ", "@,
                    ", "@,
                    ", "@,
                    ", "@,
                    ")"@,
                ],
                seq![
                    SqlValueView::Text(tag_ids[i]),
                    SqlValueView::Text(id),
                    SqlValueView::Text(request.tags@[i].category@),
                    SqlValueView::Text(request.tags@[i].value@),
                    SqlValueView::Text(user),
                    SqlValueView::Text(now),
                ],
            ),
    );
    seq![asset_row] + tags + metadata_inserts(id, request.metadata@)
}

proof fn lemma_list_views(texts: Seq<&str>, lits: Seq<Seq<char>>, values: Seq<SqlValue>, views: Seq<SqlValueView>)
    requires
        texts.len() == lits.len(),
        forall|i: int| 0 <= i < texts.len() ==> (#[trigger] texts[i])@ == lits[i],
        values.len() == views.len(),
        forall|i: int| 0 <= i < values.len() ==> value_view(#[trigger] values[i]) == views[i],
    ensures
        texts_view(texts) == lits,
        values_view(values) == views,
{
    assert(texts_view(texts) =~= lits);
    assert(values_view(values) =~= views);
}

/// The statements that store a new asset (see `insert_statements_spec`).
pub fn insert_statements(request: &CreateAssetRequest, user_id: &str, id: &str, tag_ids: &Vec<String>, now: &str) -> (r: Vec<
    SqlQuery,
>)
    requires
        tag_ids@.len() == request.tags@.len(),
    ensures
        statements_view(r@) == insert_statements_spec(*request, user_id@, id@, strings_view(tag_ids@), now@),
        forall|row: AssetRow|
            #[trigger] row_holds(row, statements_view(r@)[0].1[7], statements_view(r@)[0].1[8], statements_view(r@)[0].1[9])
                ==> row_context(row) == Some(request_context(*request)),
{
    let ctx = match &request.auth_context {
        Some(c) => c.duplicate(),
        None => creation_default(),
    };
    let groups = string_list_to_json(&ctx.owner_groups);
    let content = match &request.content {
        Some(c) => SqlValue::Text(c.clone()),
        None => SqlValue::Null,
    };
    proof {
        reveal_strlit(
            "INSERT INTO assets (id, title, content, created_at, updated_at, created_by, updated_by, deleted_at, visibility, confidentiality, owner_groups)\n             VALUES (",
        );
        reveal_strlit(", ");
        reveal_strlit(", NULL, ");
        reveal_strlit(")");
    }
    let head: [&str; 11] = [
        "INSERT INTO assets (id, title, content, created_at, updated_at, created_by, updated_by, deleted_at, visibility, confidentiality, owner_groups)\n             VALUES (",
        ", ",
        ", ",
        ", ",
        ", ",
        ", ",
        ", ",
        ", NULL, ",
        ", ",
        ", ",
        ")",
    ];
    let values = vec![
        SqlValue::Text(owned(id)),
        SqlValue::Text(request.title.clone()),
        content,
        SqlValue::Text(owned(now)),
        SqlValue::Text(owned(now)),
        SqlValue::Text(owned(user_id)),
        SqlValue::Text(owned(user_id)),
        SqlValue::Text(ctx.visibility.clone()),
        SqlValue::Text(ctx.confidentiality.clone()),
        SqlValue::Text(groups),
    ];
    let ghost ctxv = request_context(*request);
    proof {
        let spec_row = insert_statements_spec(*request, user_id@, id@, strings_view(tag_ids@), now@)[0];
        lemma_list_views(
            head@,
            seq![
                "INSERT INTO assets (id, title, content, created_at, updated_at, created_by, updated_by, deleted_at, visibility, confidentiality, owner_groups)\n             VALUES ("@,
                ", "@,
                ", "@,
                ", "@,
                ", "@,
                ", "@,
                ", "@,
                ", NULL, "@,
                ", "@,
                ", "@,
                ")"@,
            ],
            values@,
            seq![
                SqlValueView::Text(id@),
                SqlValueView::Text(request.title@),
                content_value(request.content),
                SqlValueView::Text(now@),
                SqlValueView::Text(now@),
                SqlValueView::Text(user_id@),
                SqlValueView::Text(user_id@),
                SqlValueView::Text(ctxv.visibility),
                SqlValueView::Text(ctxv.confidentiality),
                SqlValueView::Text(owner_groups_json(ctxv)),
            ],
        );
    }
    proof {
        lemma_statement_params(
            seq![
                "INSERT INTO assets (id, title, content, created_at, updated_at, created_by, updated_by, deleted_at, visibility, confidentiality, owner_groups)\n             VALUES ("@,
                ", "@,
                ", "@,
                ", "@,
                ", "@,
                ", "@,
                ", "@,
                ", NULL, "@,
                ", "@,
                ", "@,
                ")"@,
            ],
            seq![
                SqlValueView::Text(id@),
                SqlValueView::Text(request.title@),
                content_value(request.content),
                SqlValueView::Text(now@),
                SqlValueView::Text(now@),
                SqlValueView::Text(user_id@),
                SqlValueView::Text(user_id@),
                SqlValueView::Text(ctxv.visibility),
                SqlValueView::Text(ctxv.confidentiality),
                SqlValueView::Text(owner_groups_json(ctxv)),
            ],
        );
    }
    let row = build_statement(&head, values);
    let mut out: Vec<SqlQuery> = Vec::new();
    push_statement(&mut out, row);
    let ghost spec = insert_statements_spec(*request, user_id@, id@, strings_view(tag_ids@), now@);
    assert(statements_view(out@) =~= spec.take(1));
    let n = request.tags.len();
    for i in 0..n
        invariant
            n == request.tags@.len(),
            n == tag_ids@.len(),
            spec == insert_statements_spec(*request, user_id@, id@, strings_view(tag_ids@), now@),
            statements_view(out@) == spec.take(i + 1),
    {
        proof {
            reveal_strlit("INSERT INTO tags (id, asset_id, category, value, added_by, added_at) VALUES (");
            reveal_strlit(", ");
            reveal_strlit(")");
        }
        let texts: [&str; 7] = [
            "INSERT INTO tags (id, asset_id, category, value, added_by, added_at) VALUES (",
            ", ",
            ", ",
            ", ",
            ", ",
            ", ",
            ")",
        ];
        let values = vec![
            SqlValue::Text(tag_ids[i].clone()),
            SqlValue::Text(owned(id)),
            SqlValue::Text(request.tags[i].category.clone()),
            SqlValue::Text(request.tags[i].value.clone()),
            SqlValue::Text(owned(user_id)),
            SqlValue::Text(owned(now)),
        ];
        proof {
            lemma_list_views(
                texts@,
                seq![
                    "INSERT INTO tags (id, asset_id, category, value, added_by, added_at) VALUES ("@,
                    ", "@,
                    ", "@,
                    ", "@,
                    ", "@,
                    ", "@,
                    ")"@,
                ],
                values@,
                seq![
                    SqlValueView::Text(strings_view(tag_ids@)[i as int]),
                    SqlValueView::Text(id@),
                    SqlValueView::Text(request.tags@[i as int].category@),
                    SqlValueView::Text(request.tags@[i as int].value@),
                    SqlValueView::Text(user_id@),
                    SqlValueView::Text(now@),
                ],
            );
        }
        let q = build_statement(&texts, values);
        push_statement(&mut out, q);
        assert(statements_view(out@) =~= spec.take(i + 2));
    }
    let base = out.len();
    let m = request.metadata.len();
    for j in 0..m
        invariant
            n == request.tags@.len(),
            m == request.metadata@.len(),
            base == n + 1,
            spec == insert_statements_spec(*request, user_id@, id@, strings_view(tag_ids@), now@),
            spec.len() == n + 1 + m,
            statements_view(out@) == spec.take(base + j),
    {
        push_statement(&mut out, insert_metadata(id, &request.metadata[j]));
        assert(statements_view(out@) =~= spec.take(base + j + 1));
    }
    assert(spec.take(base + m) =~= spec);
    out
}

/// `UPDATE assets SET visibility = ?, confidentiality = ?, owner_groups = ?,
/// updated_at = ? WHERE id = ? AND deleted_at IS NULL`, with the owner
/// groups as JSON.
pub open spec fn auth_context_statement_spec(id: Seq<char>, ctx: AuthContextView, now: Seq<char>) -> QueryView {
    statement(
        seq![
            "UPDATE assets SET visibility = "@,
            ", confidentiality = "@,
            ", owner_groups = "@,
            ", updated_at = "@,
            "\n             WHERE id = "@,
            " AND deleted_at IS NULL"@,
        ],
        seq![
            SqlValueView::Text(ctx.visibility),
            SqlValueView::Text(ctx.confidentiality),
            SqlValueView::Text(owner_groups_json(ctx)),
            SqlValueView::Text(now),
            SqlValueView::Text(id),
        ],
    )
}

/// The statement that stores an asset's authorization context (see
/// `auth_context_statement_spec`).
pub fn auth_context_statement(id: &str, ctx: &AuthContext, now: &str) -> (q: SqlQuery)
    ensures
        q.view() == auth_context_statement_spec(id@, ctx.view(), now@),
        forall|row: AssetRow|
            #[trigger] row_holds(row, q.view().1[0], q.view().1[1], q.view().1[2]) ==> row_context(row) == Some(ctx.view()),
{
    proof {
        reveal_strlit("UPDATE assets SET visibility = ");
        reveal_strlit(", confidentiality = ");
        reveal_strlit(", owner_groups = ");
        reveal_strlit(", updated_at = ");
        reveal_strlit("\n             WHERE id = ");
        reveal_strlit(" AND deleted_at IS NULL");
    }
    let texts: [&str; 6] = [
        "UPDATE assets SET visibility = ",
        ", confidentiality = ",
        ", owner_groups = ",
        ", updated_at = ",
        "\n             WHERE id = ",
        " AND deleted_at IS NULL",
    ];
    let groups = string_list_to_json(&ctx.owner_groups);
    let values = vec![
        SqlValue::Text(ctx.visibility.clone()),
        SqlValue::Text(ctx.confidentiality.clone()),
        SqlValue::Text(groups),
        SqlValue::Text(owned(now)),
        SqlValue::Text(owned(id)),
    ];
    proof {
        lemma_list_views(
            texts@,
            seq![
                "UPDATE assets SET visibility = "@,
                ", confidentiality = "@,
                ", owner_groups = "@,
                ", updated_at = "@,
                "\n             WHERE id = "@,
                " AND deleted_at IS NULL"@,
            ],
            values@,
            seq![
                SqlValueView::Text(ctx.visibility@),
                SqlValueView::Text(ctx.confidentiality@),
                SqlValueView::Text(owner_groups_json(ctx.view())),
                SqlValueView::Text(now@),
                SqlValueView::Text(id@),
            ],
        );
        lemma_statement_params(
            seq![
                "UPDATE assets SET visibility = "@,
                ", confidentiality = "@,
                ", owner_groups = "@,
                ", updated_at = "@,
                "\n             WHERE id = "@,
                " AND deleted_at IS NULL"@,
            ],
            seq![
                SqlValueView::Text(ctx.visibility@),
                SqlValueView::Text(ctx.confidentiality@),
                SqlValueView::Text(owner_groups_json(ctx.view())),
                SqlValueView::Text(now@),
                SqlValueView::Text(id@),
            ],
        );
    }
    build_statement(&texts, values)
}

} // verus!
