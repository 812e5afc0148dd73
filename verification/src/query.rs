//! Listing and search queries of the relational store: the SQL text with its
//! bound parameters, sort and cursor handling, and page assembly.

use vstd::prelude::*;

use crate::models::asset::Asset;
use crate::models::audit::AuditEntry;
use crate::models::collection::Collection;
use crate::search::{alnum_flags, build_fts_match_query, fts_query_text, pairs_view};
use crate::text::{chars_of, concat_str, eq_ignore_ascii_case, owned, split_once, split_once_at};

verus! {

// ---------------------------------------------------------------------------
// Parameterised SQL
// ---------------------------------------------------------------------------

/// Number of `?` placeholders in `s`.
pub open spec fn placeholders(s: Seq<char>) -> nat
    decreases s.len(),
{
    if s.len() == 0 {
        0
    } else {
        placeholders(s.drop_last()) + if s.last() == '?' {
            1nat
        } else {
            0nat
        }
    }
}

proof fn lemma_placeholders_concat(a: Seq<char>, b: Seq<char>)
    ensures
        placeholders(a + b) == placeholders(a) + placeholders(b),
    decreases b.len(),
{
    if b.len() == 0 {
        assert(a + b =~= a);
    } else {
        lemma_placeholders_concat(a, b.drop_last());
        assert((a + b).drop_last() =~= a + b.drop_last());
    }
}

proof fn lemma_no_placeholders(s: Seq<char>)
    requires
        !s.contains('?'),
    ensures
        placeholders(s) == 0,
    decreases s.len(),
{
    if s.len() > 0 {
        assert(!s.drop_last().contains('?')) by {
            if s.drop_last().contains('?') {
                let i = choose|i: int| 0 <= i < s.drop_last().len() && s.drop_last()[i] == '?';
                assert(s[i] == '?');
            }
        }
        lemma_no_placeholders(s.drop_last());
        assert(s.last() != '?') by {
            if s.last() == '?' {
                assert(s[s.len() - 1] == '?');
            }
        }
    }
}

/// A value bound to a placeholder.
#[derive(Debug)]
pub enum SqlValue {
    Text(String),
    Integer(i64),
    Null,
}

/// The mathematical form of a bound value.
pub enum SqlValueView {
    Text(Seq<char>),
    Integer(int),
    Null,
}

pub open spec fn value_view(v: SqlValue) -> SqlValueView {
    match v {
        SqlValue::Text(s) => SqlValueView::Text(s@),
        SqlValue::Integer(i) => SqlValueView::Integer(i as int),
        SqlValue::Null => SqlValueView::Null,
    }
}

/// SQL text with its parameters, one per `?` placeholder, in order. The
/// text is only ever extended with placeholder-free fragments or with a
/// placeholder together with its value, so the two always agree.
#[derive(Debug)]
pub struct SqlQuery {
    sql: String,
    params: Vec<SqlValue>,
}

/// The mathematical form of a query: its text and its values.
pub type QueryView = (Seq<char>, Seq<SqlValueView>);

/// `q` extended with the placeholder-free fragment `t`.
pub open spec fn with_text(q: QueryView, t: Seq<char>) -> QueryView {
    (q.0 + t, q.1)
}

/// `q` extended with a placeholder bound to `v`.
pub open spec fn with_param(q: QueryView, v: SqlValueView) -> QueryView {
    (q.0 + seq!['?'], q.1.push(v))
}

impl SqlQuery {
    #[verifier::type_invariant]
    spec fn placeholders_match(self) -> bool {
        placeholders(self.sql@) == self.params@.len()
    }

    /// The text and values of the query.
    pub closed spec fn view(&self) -> QueryView {
        (self.sql@, self.params@.map_values(|v: SqlValue| value_view(v)))
    }

    /// A query made of the placeholder-free text `t`.
    pub fn new(t: &str) -> (q: SqlQuery)
        requires
            !t@.contains('?'),
        ensures
            q.view() == (t@, Seq::<SqlValueView>::empty()),
    {
        proof {
            lemma_no_placeholders(t@);
        }
        let q = SqlQuery { sql: owned(t), params: Vec::new() };
        assert(q.params@.map_values(|v: SqlValue| value_view(v)) =~= Seq::<SqlValueView>::empty());
        q
    }

    /// The query extended with the placeholder-free fragment `t`.
    pub fn text(self, t: &str) -> (q: SqlQuery)
        requires
            !t@.contains('?'),
        ensures
            q.view() == with_text(self.view(), t@),
    {
        proof {
            use_type_invariant(&self);
            lemma_no_placeholders(t@);
            lemma_placeholders_concat(self.sql@, t@);
        }
        let SqlQuery { sql, params } = self;
        SqlQuery { sql: concat_str(sql.as_str(), t), params }
    }

    /// The query extended with a placeholder bound to `v`.
    pub fn param(self, v: SqlValue) -> (q: SqlQuery)
        ensures
            q.view() == with_param(self.view(), value_view(v)),
    {
        proof {
            use_type_invariant(&self);
            lemma_placeholders_concat(self.sql@, seq!['?']);
            reveal_strlit("?");
            assert(placeholders(seq!['?']) == 1) by {
                assert(seq!['?'].drop_last() =~= Seq::<char>::empty());
                assert(placeholders(Seq::<char>::empty()) == 0);
                assert(seq!['?'].last() == '?');
            }
        }
        let SqlQuery { sql, params } = self;
        let ghost vv = value_view(v);
        let mut params = params;
        let ghost before = params@;
        params.push(v);
        assert(params@.map_values(|x: SqlValue| value_view(x)) =~= before.map_values(|x: SqlValue| value_view(x)).push(vv));
        let s = concat_str(sql.as_str(), "?");
        assert("?"@ =~= seq!['?']);
        SqlQuery { sql: s, params }
    }

    /// The text and the values of the query.
    pub fn into_parts(self) -> (r: (String, Vec<SqlValue>))
        ensures
            (r.0@, r.1@.map_values(|v: SqlValue| value_view(v))) == self.view(),
            placeholders(r.0@) == r.1@.len(),
    {
        proof {
            use_type_invariant(&self);
        }
        let SqlQuery { sql, params } = self;
        (sql, params)
    }
}

// ---------------------------------------------------------------------------
// Sorting and cursors
// ---------------------------------------------------------------------------

/// The timestamp an asset listing is sorted by.
#[derive(PartialEq, Eq, Structural, Clone, Copy, Debug)]
pub enum SortField {
    CreatedAt,
    UpdatedAt,
}

/// Direction of a listing.
#[derive(PartialEq, Eq, Structural, Clone, Copy, Debug)]
pub enum SortOrder {
    Asc,
    Desc,
}

/// `created_at` selects the creation time; anything else the update time.
pub open spec fn sort_field_spec(sort_by: Seq<char>) -> SortField {
    if sort_by == "created_at"@ {
        SortField::CreatedAt
    } else {
        SortField::UpdatedAt
    }
}

/// The sort field named by a `sort_by` parameter (default: update time).
pub fn sort_field_of(sort_by: &str) -> (f: SortField)
    ensures
        f == sort_field_spec(sort_by@),
{
    if crate::text::str_eq(sort_by, "created_at") {
        SortField::CreatedAt
    } else {
        SortField::UpdatedAt
    }
}

/// `asc` in any ASCII case sorts ascending; anything else descending.
pub open spec fn sort_order_spec(order: Seq<char>) -> SortOrder {
    if eq_ignore_ascii_case(order, "asc"@) {
        SortOrder::Asc
    } else {
        SortOrder::Desc
    }
}

/// Case-insensitive ASCII comparison of two strings.
pub fn str_eq_ignore_ascii_case(a: &str, b: &str) -> (r: bool)
    ensures
        r == eq_ignore_ascii_case(a@, b@),
{
    let x = chars_of(a);
    let y = chars_of(b);
    if x.len() != y.len() {
        return false;
    }
    let n = x.len();
    for i in 0..n
        invariant
            n == x@.len(),
            n == y@.len(),
            x@ == a@,
            y@ == b@,
            forall|j: int| 0 <= j < i ==> crate::text::ascii_lower(#[trigger] x@[j]) == crate::text::ascii_lower(y@[j]),
    {
        if ascii_lower_code(x[i]) != ascii_lower_code(y[i]) {
            return false;
        }
    }
    true
}

/// The code of the ASCII lower case of `c`.
fn ascii_lower_code(c: char) -> (l: u32)
    ensures
        l == crate::text::ascii_lower(c) as u32,
{
    if 'A' <= c && c <= 'Z' {
        c as u32 + 32
    } else {
        c as u32
    }
}

/// The sort order named by an `order` parameter (default: descending).
pub fn sort_order_of(order: &str) -> (o: SortOrder)
    ensures
        o == sort_order_spec(order@),
{
    if str_eq_ignore_ascii_case(order, "asc") {
        SortOrder::Asc
    } else {
        SortOrder::Desc
    }
}

/// A page cursor: `<timestamp>|<id>` seeks past a (timestamp, id) position;
/// a cursor without `|` is an id.
#[derive(Debug)]
pub enum PageCursor {
    Seek { timestamp: String, id: String },
    Id(String),
}

pub enum PageCursorView {
    Seek { timestamp: Seq<char>, id: Seq<char> },
    Id(Seq<char>),
}

pub open spec fn cursor_spec(c: Seq<char>) -> PageCursorView {
    match split_once_at(c, '|') {
        Some((t, i)) => PageCursorView::Seek { timestamp: t, id: i },
        None => PageCursorView::Id(c),
    }
}

pub open spec fn cursor_view(c: PageCursor) -> PageCursorView {
    match c {
        PageCursor::Seek { timestamp, id } => PageCursorView::Seek { timestamp: timestamp@, id: id@ },
        PageCursor::Id(i) => PageCursorView::Id(i@),
    }
}

/// Reads a page cursor (split at its first `|`).
pub fn parse_cursor(c: &str) -> (r: PageCursor)
    ensures
        cursor_view(r) == cursor_spec(c@),
{
    let v = chars_of(c);
    match split_once(&v, '|') {
        Some((t, i)) => PageCursor::Seek { timestamp: t, id: i },
        None => PageCursor::Id(owned(c)),
    }
}

/// The cursor that resumes after an item: `<timestamp>|<id>`.
pub open spec fn seek_cursor(timestamp: Seq<char>, id: Seq<char>) -> Seq<char> {
    timestamp + seq!['|'] + id
}

/// A cursor handed out after an item reads back as that item's position:
/// its timestamp and its id (a timestamp holds no `|`; an id may).
pub proof fn law_cursor_names_its_item(timestamp: Seq<char>, id: Seq<char>)
    requires
        !timestamp.contains('|'),
    ensures
        cursor_spec(seek_cursor(timestamp, id)) == (PageCursorView::Seek { timestamp, id }),
{
    let c = seek_cursor(timestamp, id);
    let n = timestamp.len() as int;
    assert(c[n] == '|');
    assert forall|j: int| 0 <= j < n implies c[j] != '|' by {
        assert(c[j] == timestamp[j]);
    }
    let w = choose|i: int| 0 <= i < c.len() && c[i] == '|' && forall|j: int| 0 <= j < i ==> c[j] != '|';
    assert(w == n) by {
        if w > n {
            assert(c[n] != '|');
        }
    }
    assert(crate::text::first_index_of(c, '|') == Some(n));
    assert(c.take(n) =~= timestamp);
    assert(c.skip(n + 1) =~= id);
}

// ---------------------------------------------------------------------------
// Asset listing and search
// ---------------------------------------------------------------------------

/// The column of a sort field.
pub open spec fn sort_column(f: SortField) -> Seq<char> {
    match f {
        SortField::CreatedAt => "created_at"@,
        SortField::UpdatedAt => "updated_at"@,
    }
}

/// The SQL keyword of a sort order.
pub open spec fn order_keyword(o: SortOrder) -> Seq<char> {
    match o {
        SortOrder::Asc => "ASC"@,
        SortOrder::Desc => "DESC"@,
    }
}

/// The comparison that moves past a cursor in a given order.
pub open spec fn seek_comparator(o: SortOrder) -> Seq<char> {
    match o {
        SortOrder::Asc => ">"@,
        SortOrder::Desc => "<"@,
    }
}

/// The view of an optional string slice.
pub open spec fn opt_str(s: Option<&str>) -> Option<Seq<char>> {
    match s {
        Some(t) => Some(t@),
        None => None,
    }
}

/// The listing query's cursor condition.
pub open spec fn list_cursor_clause(q: QueryView, cursor: Option<Seq<char>>, f: SortField, o: SortOrder) -> QueryView {
    match cursor {
        Some(c) => match cursor_spec(c) {
            PageCursorView::Seek { timestamp, id } => {
                let col = sort_column(f);
                let cmp = seek_comparator(o);
                let q1 = with_text(q, " AND (a."@ + col + " "@ + cmp + " "@);
                let q2 = with_text(with_param(q1, SqlValueView::Text(timestamp)), " OR (a."@ + col + " = "@);
                let q3 = with_text(with_param(q2, SqlValueView::Text(timestamp)), " AND a.id "@ + cmp + " "@);
                with_text(with_param(q3, SqlValueView::Text(id)), "))"@)
            },
            PageCursorView::Id(id) => with_param(
                with_text(q, " AND a.id "@ + seek_comparator(o) + " "@),
                SqlValueView::Text(id),
            ),
        },
        None => q,
    }
}

/// The listing query: live assets, optionally of one `asset_type` tag value,
/// after the cursor, sorted by the field then the id in the given order, at
/// most `limit + 1` rows (one more than a page, to learn whether another
/// page follows).
pub open spec fn list_query_spec(
    limit: i64,
    cursor: Option<Seq<char>>,
    asset_type: Option<Seq<char>>,
    f: SortField,
    o: SortOrder,
) -> QueryView {
    let q0: QueryView = (
        "SELECT a.id, a.title, a.content, a.created_at, a.updated_at, a.created_by, a.updated_by, a.deleted_at, a.visibility, a.confidentiality, a.owner_groups\n             FROM assets a\n             WHERE a.deleted_at IS NULL"@,
        Seq::empty(),
    );
    let q1 = match asset_type {
        Some(t) => with_text(
            with_param(
                with_text(
                    q0,
                    " AND EXISTS (SELECT 1 FROM tags t WHERE t.asset_id = a.id AND t.category = 'asset_type' AND t.value = "@,
                ),
                SqlValueView::Text(t),
            ),
            ")"@,
        ),
        None => q0,
    };
    let q2 = list_cursor_clause(q1, cursor, f, o);
    let ord = order_keyword(o);
    with_param(
        with_text(q2, " ORDER BY a."@ + sort_column(f) + " "@ + ord + ", a.id "@ + ord + " LIMIT "@),
        SqlValueView::Integer(limit + 1),
    )
}

fn column_name(f: SortField) -> (s: &'static str)
    ensures
        s@ == sort_column(f),
        !s@.contains('?'),
{
    proof {
        reveal_strlit("created_at");
        reveal_strlit("updated_at");
    }
    match f {
        SortField::CreatedAt => "created_at",
        SortField::UpdatedAt => "updated_at",
    }
}

fn order_name(o: SortOrder) -> (s: &'static str)
    ensures
        s@ == order_keyword(o),
        !s@.contains('?'),
{
    proof {
        reveal_strlit("ASC");
        reveal_strlit("DESC");
    }
    match o {
        SortOrder::Asc => "ASC",
        SortOrder::Desc => "DESC",
    }
}

fn comparator_name(o: SortOrder) -> (s: &'static str)
    ensures
        s@ == seek_comparator(o),
        !s@.contains('?'),
{
    proof {
        reveal_strlit(">");
        reveal_strlit("<");
    }
    match o {
        SortOrder::Asc => ">",
        SortOrder::Desc => "<",
    }
}

/// `q` extended with the placeholder-free pieces of `parts`, in order.
fn texts(q: SqlQuery, parts: &[&str]) -> (r: SqlQuery)
    requires
        forall|i: int| 0 <= i < parts@.len() ==> !(#[trigger] parts@[i])@.contains('?'),
    ensures
        r.view() == with_text(q.view(), concat_views(parts@)),
{
    let mut r = q;
    let n = parts.len();
    let ghost start = r.view();
    for i in 0..n
        invariant
            n == parts@.len(),
            forall|i: int| 0 <= i < parts@.len() ==> !(#[trigger] parts@[i])@.contains('?'),
            r.view() == with_text(start, concat_views(parts@.take(i as int))),
    {
        r = r.text(parts[i]);
        assert(parts@.take(i + 1).drop_last() =~= parts@.take(i as int));
        assert(start.0 + concat_views(parts@.take(i as int)) + parts@[i as int]@ =~= start.0 + concat_views(
            parts@.take(i + 1),
        ));
    }
    assert(parts@.take(n as int) =~= parts@);
    r
}

/// The concatenation of the views of string slices.
pub open spec fn concat_views(parts: Seq<&str>) -> Seq<char>
    decreases parts.len(),
{
    if parts.len() == 0 {
        Seq::empty()
    } else {
        concat_views(parts.drop_last()) + parts.last()@
    }
}

fn list_cursor(q: SqlQuery, cursor: Option<&str>, f: SortField, o: SortOrder) -> (r: SqlQuery)
    ensures
        r.view() == list_cursor_clause(q.view(), opt_str(cursor), f, o),
{
    match cursor {
        None => q,
        Some(c) => {
            let col = column_name(f);
            let cmp = comparator_name(o);
            proof {
                reveal_strlit(" AND (a.");
                reveal_strlit(" ");
                reveal_strlit(" OR (a.");
                reveal_strlit(" = ");
                reveal_strlit(" AND a.id ");
                reveal_strlit("))");
            }
            match parse_cursor(c) {
                PageCursor::Seek { timestamp, id } => {
                    let t2 = timestamp.clone();
                    let q1 = texts(q, &[" AND (a.", col, " ", cmp, " "]);
                    let q2 = texts(q1.param(SqlValue::Text(timestamp)), &[" OR (a.", col, " = "]);
                    let q3 = texts(q2.param(SqlValue::Text(t2)), &[" AND a.id ", cmp, " "]);
                    let r = q3.param(SqlValue::Text(id)).text("))");
                    proof {
                        reveal_with_fuel(concat_views, 6);
                    }
                    r
                },
                PageCursor::Id(id) => {
                    let q1 = texts(q, &[" AND a.id ", cmp, " "]);
                    proof {
                        reveal_with_fuel(concat_views, 4);
                    }
                    q1.param(SqlValue::Text(id))
                },
            }
        },
    }
}

/// The listing query for the given parameters (see `list_query_spec`).
pub fn build_list_query(
    limit: i64,
    cursor: Option<&str>,
    asset_type_tag: Option<&str>,
    sort_by: &str,
    order: &str,
) -> (q: SqlQuery)
    requires
        limit < i64::MAX,
    ensures
        q.view() == list_query_spec(
            limit,
            opt_str(cursor),
            opt_str(asset_type_tag),
            sort_field_spec(sort_by@),
            sort_order_spec(order@),
        ),
{
    let f = sort_field_of(sort_by);
    let o = sort_order_of(order);
    proof {
        reveal_strlit(
            "SELECT a.id, a.title, a.content, a.created_at, a.updated_at, a.created_by, a.updated_by, a.deleted_at, a.visibility, a.confidentiality, a.owner_groups\n             FROM assets a\n             WHERE a.deleted_at IS NULL",
        );
        reveal_strlit(
            " AND EXISTS (SELECT 1 FROM tags t WHERE t.asset_id = a.id AND t.category = 'asset_type' AND t.value = ",
        );
        reveal_strlit(")");
        reveal_strlit(" ORDER BY a.");
        reveal_strlit(" ");
        reveal_strlit(", a.id ");
        reveal_strlit(" LIMIT ");
    }
    let q0 = SqlQuery::new(
        "SELECT a.id, a.title, a.content, a.created_at, a.updated_at, a.created_by, a.updated_by, a.deleted_at, a.visibility, a.confidentiality, a.owner_groups\n             FROM assets a\n             WHERE a.deleted_at IS NULL",
    );
    let q1 = match asset_type_tag {
        Some(t) => q0.text(
            " AND EXISTS (SELECT 1 FROM tags t WHERE t.asset_id = a.id AND t.category = 'asset_type' AND t.value = ",
        ).param(SqlValue::Text(owned(t))).text(")"),
        None => q0,
    };
    let q2 = list_cursor(q1, cursor, f, o);
    let ord = order_name(o);
    let q3 = texts(q2, &[" ORDER BY a.", column_name(f), " ", ord, ", a.id ", ord, " LIMIT "]);
    proof {
        reveal_with_fuel(concat_views, 8);
    }
    q3.param(SqlValue::Integer(limit + 1))
}

/// The match expression bound for a search query: none for an absent or
/// empty query, nor when the query holds no alphanumeric character.
pub open spec fn fts_param(query: Option<Seq<char>>) -> Option<Seq<char>> {
    match query {
        Some(q) => if q.len() > 0 && fts_query_text(q, alnum_flags(q)).len() > 0 {
            Some(fts_query_text(q, alnum_flags(q)))
        } else {
            None
        },
        None => None,
    }
}

/// One tag-filter condition per `(category, value)` pair, in order.
pub open spec fn with_tag_filters(q: QueryView, filters: Seq<(Seq<char>, Seq<char>)>) -> QueryView
    decreases filters.len(),
{
    if filters.len() == 0 {
        q
    } else {
        let prev = with_tag_filters(q, filters.drop_last());
        let f = filters.last();
        with_text(
            with_param(
                with_text(
                    with_param(
                        with_text(
                            prev,
                            " AND EXISTS (SELECT 1 FROM tags t WHERE t.asset_id = a.id AND t.category = "@,
                        ),
                        SqlValueView::Text(f.0),
                    ),
                    " AND t.value = "@,
                ),
                SqlValueView::Text(f.1),
            ),
            ")"@,
        )
    }
}

/// The search query: live assets matching the full-text expression (when
/// there is one) and every tag filter, after the cursor, newest update
/// first (ties by descending id), at most `limit + 1` rows.
pub open spec fn search_query_spec(
    query: Option<Seq<char>>,
    filters: Seq<(Seq<char>, Seq<char>)>,
    limit: i64,
    cursor: Option<Seq<char>>,
) -> QueryView {
    let q0: QueryView = (
        "SELECT DISTINCT a.id, a.title, a.content, a.created_at, a.updated_at, a.created_by, a.updated_by, a.deleted_at, a.visibility, a.confidentiality, a.owner_groups\n             FROM assets a\n             WHERE a.deleted_at IS NULL"@,
        Seq::empty(),
    );
    let q1 = match fts_param(query) {
        Some(m) => with_text(
            with_param(
                with_text(q0, " AND a.rowid IN (SELECT assets_fts.rowid FROM assets_fts WHERE assets_fts MATCH "@),
                SqlValueView::Text(m),
            ),
            ")"@,
        ),
        None => q0,
    };
    let q2 = with_tag_filters(q1, filters);
    let q3 = list_cursor_clause(q2, cursor, SortField::UpdatedAt, SortOrder::Desc);
    with_param(
        with_text(q3, " ORDER BY a.updated_at DESC, a.id DESC LIMIT "@),
        SqlValueView::Integer(limit + 1),
    )
}

/// The search query for a text query, tag filters, page size and cursor
/// (see `search_query_spec`).
pub fn build_search_query(
    query: Option<&str>,
    tag_filters: &Vec<(String, String)>,
    limit: i64,
    cursor: Option<&str>,
) -> (q: SqlQuery)
    requires
        limit < i64::MAX,
    ensures
        q.view() == search_query_spec(opt_str(query), pairs_view(tag_filters@), limit, opt_str(cursor)),
{
    proof {
        reveal_strlit(
            "SELECT DISTINCT a.id, a.title, a.content, a.created_at, a.updated_at, a.created_by, a.updated_by, a.deleted_at, a.visibility, a.confidentiality, a.owner_groups\n             FROM assets a\n             WHERE a.deleted_at IS NULL",
        );
        reveal_strlit(" AND a.rowid IN (SELECT assets_fts.rowid FROM assets_fts WHERE assets_fts MATCH ");
        reveal_strlit(")");
        reveal_strlit(" AND EXISTS (SELECT 1 FROM tags t WHERE t.asset_id = a.id AND t.category = ");
        reveal_strlit(" AND t.value = ");
        reveal_strlit(" ORDER BY a.updated_at DESC, a.id DESC LIMIT ");
    }
    let mut q = SqlQuery::new(
        "SELECT DISTINCT a.id, a.title, a.content, a.created_at, a.updated_at, a.created_by, a.updated_by, a.deleted_at, a.visibility, a.confidentiality, a.owner_groups\n             FROM assets a\n             WHERE a.deleted_at IS NULL",
    );
    let fts = match query {
        Some(text) => if !text.is_empty() {
            let m = build_fts_match_query(text);
            if !m.as_str().is_empty() {
                Some(m)
            } else {
                None
            }
        } else {
            None
        },
        None => None,
    };
    q = match fts {
        Some(m) => q.text(" AND a.rowid IN (SELECT assets_fts.rowid FROM assets_fts WHERE assets_fts MATCH ").param(
            SqlValue::Text(m),
        ).text(")"),
        None => q,
    };
    let ghost filters = pairs_view(tag_filters@);
    let ghost after_fts = q.view();
    let n = tag_filters.len();
    for i in 0..n
        invariant
            n == tag_filters@.len(),
            filters == pairs_view(tag_filters@),
            q.view() == with_tag_filters(after_fts, filters.take(i as int)),
    {
        assert(filters.take(i + 1).drop_last() =~= filters.take(i as int));
        proof {
            reveal_strlit(" AND EXISTS (SELECT 1 FROM tags t WHERE t.asset_id = a.id AND t.category = ");
            reveal_strlit(" AND t.value = ");
            reveal_strlit(")");
        }
        let (category, value) = &tag_filters[i];
        q = q.text(" AND EXISTS (SELECT 1 FROM tags t WHERE t.asset_id = a.id AND t.category = ").param(
            SqlValue::Text(category.clone()),
        ).text(" AND t.value = ").param(SqlValue::Text(value.clone())).text(")");
    }
    assert(filters.take(n as int) =~= filters);
    let q = list_cursor(q, cursor, SortField::UpdatedAt, SortOrder::Desc);
    q.text(" ORDER BY a.updated_at DESC, a.id DESC LIMIT ").param(SqlValue::Integer(limit + 1))
}

// ---------------------------------------------------------------------------
// Audit and collection listings
// ---------------------------------------------------------------------------

/// The audit query's cursor condition: a cursor `<timestamp>|<id>` resumes
/// after that entry in the order of the listing (older entries, or equally
/// old ones with smaller ids); a cursor without `|` is taken as an id.
pub open spec fn audit_cursor_clause(q: QueryView, cursor: Option<Seq<char>>) -> QueryView {
    match cursor {
        Some(c) => match cursor_spec(c) {
            PageCursorView::Seek { timestamp, id } => {
                let q1 = with_param(with_text(q, " AND (timestamp < "@), SqlValueView::Text(timestamp));
                let q2 = with_param(with_text(q1, " OR (timestamp = "@), SqlValueView::Text(timestamp));
                with_text(with_param(with_text(q2, " AND id < "@), SqlValueView::Text(id)), "))"@)
            },
            PageCursorView::Id(id) => with_param(with_text(q, " AND id < "@), SqlValueView::Text(id)),
        },
        None => q,
    }
}

/// The audit listing query: entries matching each given filter, after the
/// cursor (see `audit_cursor_clause`), newest first (ties by descending id),
/// at most `limit + 1` rows.
pub open spec fn audit_query_spec(
    entity_type: Option<Seq<char>>,
    entity_id: Option<Seq<char>>,
    user_id: Option<Seq<char>>,
    limit: i64,
    cursor: Option<Seq<char>>,
) -> QueryView {
    let q0: QueryView = (
        "SELECT id, entity_type, entity_id, action, changes_json, user_id, timestamp\n             FROM audit_entries WHERE 1=1"@,
        Seq::empty(),
    );
    let q1 = match entity_type {
        Some(v) => with_param(with_text(q0, " AND entity_type = "@), SqlValueView::Text(v)),
        None => q0,
    };
    let q2 = match entity_id {
        Some(v) => with_param(with_text(q1, " AND entity_id = "@), SqlValueView::Text(v)),
        None => q1,
    };
    let q3 = match user_id {
        Some(v) => with_param(with_text(q2, " AND user_id = "@), SqlValueView::Text(v)),
        None => q2,
    };
    let q4 = audit_cursor_clause(q3, cursor);
    with_param(with_text(q4, " ORDER BY timestamp DESC, id DESC LIMIT "@), SqlValueView::Integer(limit + 1))
}

/// A query has one value per placeholder of its text.
pub open spec fn query_wf(q: QueryView) -> bool {
    placeholders(q.0) == q.1.len()
}

/// The query binds `v` to a placeholder written right after `clause`: some
/// `?` of the text is preceded by `clause`, and the value it stands for
/// (the values are taken in the order of the placeholders) is `v`.
#[verifier::opaque]
pub open spec fn binds_after(q: QueryView, clause: Seq<char>, v: SqlValueView) -> bool {
    exists|pos: int|
        clause.len() <= pos < q.0.len() && q.0[pos] == '?' && q.0.subrange(pos - clause.len(), pos) == clause
            && placeholders(#[trigger] q.0.take(pos)) < q.1.len() && q.1[placeholders(q.0.take(pos)) as int] == v
}

proof fn lemma_one_placeholder()
    ensures
        placeholders(seq!['?']) == 1,
{
    assert(seq!['?'].drop_last() =~= Seq::<char>::empty());
    assert(placeholders(Seq::<char>::empty()) == 0);
    assert(seq!['?'].last() == '?');
}

/// The audit listing's first fragment holds no placeholder.
proof fn lemma_audit_head_wf()
    ensures
        query_wf(
            (
                "SELECT id, entity_type, entity_id, action, changes_json, user_id, timestamp\n             FROM audit_entries WHERE 1=1"@,
                Seq::<SqlValueView>::empty(),
            ),
        ),
{
    reveal_strlit("SELECT id, entity_type, entity_id, action, changes_json, user_id, timestamp\n             FROM audit_entries WHERE 1=1");
    lemma_no_placeholders("SELECT id, entity_type, entity_id, action, changes_json, user_id, timestamp\n             FROM audit_entries WHERE 1=1"@);
}

/// Appending `clause ?` bound to `v` binds `v` after `clause`.
proof fn lemma_bind_intro(q: QueryView, clause: Seq<char>, v: SqlValueView)
    requires
        query_wf(q),
        !clause.contains('?'),
    ensures
        query_wf(with_param(with_text(q, clause), v)),
        binds_after(with_param(with_text(q, clause), v), clause, v),
{
    reveal(binds_after);
    let r = with_param(with_text(q, clause), v);
    let pos: int = (q.0.len() + clause.len()) as int;
    lemma_no_placeholders(clause);
    lemma_placeholders_concat(q.0, clause);
    lemma_placeholders_concat(q.0 + clause, seq!['?']);
    lemma_one_placeholder();
    assert(r.0 =~= q.0 + clause + seq!['?']);
    assert(r.0.take(pos) =~= q.0 + clause);
    assert(r.0.subrange(pos - clause.len(), pos) =~= clause);
    assert(r.0[pos] == '?');
    assert(r.1[q.1.len() as int] == v);
}

/// Appending a placeholder-free fragment keeps every binding.
proof fn lemma_text_keeps(q: QueryView, t: Seq<char>)
    requires
        query_wf(q),
        !t.contains('?'),
    ensures
        query_wf(with_text(q, t)),
        forall|c: Seq<char>, v: SqlValueView| binds_after(q, c, v) ==> #[trigger] binds_after(with_text(q, t), c, v),
{
    reveal(binds_after);
    lemma_no_placeholders(t);
    lemma_placeholders_concat(q.0, t);
    let r = with_text(q, t);
    assert forall|c: Seq<char>, v: SqlValueView| binds_after(q, c, v) implies #[trigger] binds_after(r, c, v) by {
        let pos = choose|pos: int|
            c.len() <= pos < q.0.len() && q.0[pos] == '?' && q.0.subrange(pos - c.len(), pos) == c
                && placeholders(#[trigger] q.0.take(pos)) < q.1.len() && q.1[placeholders(q.0.take(pos)) as int] == v;
        assert(r.0.take(pos) =~= q.0.take(pos));
        assert(r.0.subrange(pos - c.len(), pos) =~= q.0.subrange(pos - c.len(), pos));
        assert(r.0[pos] == q.0[pos]);
    }
}

/// Appending a placeholder with its value keeps every binding.
proof fn lemma_param_keeps(q: QueryView, w: SqlValueView)
    requires
        query_wf(q),
    ensures
        query_wf(with_param(q, w)),
        forall|c: Seq<char>, v: SqlValueView| binds_after(q, c, v) ==> #[trigger] binds_after(with_param(q, w), c, v),
{
    reveal(binds_after);
    lemma_one_placeholder();
    lemma_placeholders_concat(q.0, seq!['?']);
    let r = with_param(q, w);
    assert forall|c: Seq<char>, v: SqlValueView| binds_after(q, c, v) implies #[trigger] binds_after(r, c, v) by {
        let pos = choose|pos: int|
            c.len() <= pos < q.0.len() && q.0[pos] == '?' && q.0.subrange(pos - c.len(), pos) == c
                && placeholders(#[trigger] q.0.take(pos)) < q.1.len() && q.1[placeholders(q.0.take(pos)) as int] == v;
        assert(r.0.take(pos) =~= q.0.take(pos));
        assert(r.0.subrange(pos - c.len(), pos) =~= q.0.subrange(pos - c.len(), pos));
        assert(r.0[pos] == q.0[pos]);
    }
}

/// An optional equality filter `clause ?`: it binds its value after the
/// clause and keeps every earlier binding.
proof fn lemma_filter_step(q: QueryView, clause: Seq<char>, value: Option<Seq<char>>, r: QueryView)
    requires
        query_wf(q),
        !clause.contains('?'),
        r == match value {
            Some(v) => with_param(with_text(q, clause), SqlValueView::Text(v)),
            None => q,
        },
    ensures
        query_wf(r),
        forall|c: Seq<char>, v: SqlValueView| binds_after(q, c, v) ==> #[trigger] binds_after(r, c, v),
        value matches Some(v) ==> binds_after(r, clause, SqlValueView::Text(v)),
{
    if let Some(v) = value {
        lemma_text_keeps(q, clause);
        lemma_param_keeps(with_text(q, clause), SqlValueView::Text(v));
        lemma_bind_intro(q, clause, SqlValueView::Text(v));
    }
}

/// The audit cursor condition keeps every binding.
proof fn lemma_audit_cursor_keeps(q: QueryView, cursor: Option<Seq<char>>)
    requires
        query_wf(q),
    ensures
        query_wf(audit_cursor_clause(q, cursor)),
        forall|c: Seq<char>, v: SqlValueView| binds_after(q, c, v) ==> #[trigger] binds_after(audit_cursor_clause(q, cursor), c, v),
{
    reveal_strlit(" AND (timestamp < ");
    reveal_strlit(" OR (timestamp = ");
    reveal_strlit(" AND id < ");
    reveal_strlit("))");
    if let Some(cv) = cursor {
        match cursor_spec(cv) {
            PageCursorView::Seek { timestamp, id } => {
                let a = with_text(q, " AND (timestamp < "@);
                lemma_text_keeps(q, " AND (timestamp < "@);
                let b = with_param(a, SqlValueView::Text(timestamp));
                lemma_param_keeps(a, SqlValueView::Text(timestamp));
                let c1 = with_text(b, " OR (timestamp = "@);
                lemma_text_keeps(b, " OR (timestamp = "@);
                let d = with_param(c1, SqlValueView::Text(timestamp));
                lemma_param_keeps(c1, SqlValueView::Text(timestamp));
                let e = with_text(d, " AND id < "@);
                lemma_text_keeps(d, " AND id < "@);
                let f = with_param(e, SqlValueView::Text(id));
                lemma_param_keeps(e, SqlValueView::Text(id));
                lemma_text_keeps(f, "))"@);
            },
            PageCursorView::Id(id) => {
                lemma_text_keeps(q, " AND id < "@);
                lemma_param_keeps(with_text(q, " AND id < "@), SqlValueView::Text(id));
            },
        }
    }
}

/// One value for a given filter, none for an absent one.
pub open spec fn filter_values(v: Option<Seq<char>>) -> nat {
    if v is Some {
        1
    } else {
        0
    }
}

/// The values a cursor contributes: timestamp, timestamp and id for a
/// `<timestamp>|<id>` cursor, the id for any other.
pub open spec fn cursor_values(cursor: Option<Seq<char>>) -> nat {
    match cursor {
        Some(c) => match cursor_spec(c) {
            PageCursorView::Seek { .. } => 3,
            PageCursorView::Id(_) => 1,
        },
        None => 0,
    }
}

/// The audit listing query binds each given filter to its own column: the
/// entity type after `AND entity_type = `, the entity id after `AND
/// entity_id = `, the user after `AND user_id = `; it binds `limit + 1`
/// after its `LIMIT`; and it binds nothing else besides the cursor's
/// values.
pub proof fn law_audit_query_binds_filters(
    entity_type: Option<Seq<char>>,
    entity_id: Option<Seq<char>>,
    user_id: Option<Seq<char>>,
    limit: i64,
    cursor: Option<Seq<char>>,
)
    ensures
        ({
            let q = audit_query_spec(entity_type, entity_id, user_id, limit, cursor);
            &&& query_wf(q)
            &&& (entity_type matches Some(v) ==> binds_after(q, " AND entity_type = "@, SqlValueView::Text(v)))
            &&& (entity_id matches Some(v) ==> binds_after(q, " AND entity_id = "@, SqlValueView::Text(v)))
            &&& (user_id matches Some(v) ==> binds_after(q, " AND user_id = "@, SqlValueView::Text(v)))
            &&& binds_after(q, " ORDER BY timestamp DESC, id DESC LIMIT "@, SqlValueView::Integer(limit + 1))
            &&& q.1.len() == filter_values(entity_type) + filter_values(entity_id) + filter_values(user_id)
                + cursor_values(cursor) + 1
        }),
{
    reveal_strlit(" AND entity_type = ");
    reveal_strlit(" AND entity_id = ");
    reveal_strlit(" AND user_id = ");
    reveal_strlit(" ORDER BY timestamp DESC, id DESC LIMIT ");
    let q0: QueryView = (
        "SELECT id, entity_type, entity_id, action, changes_json, user_id, timestamp\n             FROM audit_entries WHERE 1=1"@,
        Seq::empty(),
    );
    lemma_audit_head_wf();
    let q1 = match entity_type {
        Some(v) => with_param(with_text(q0, " AND entity_type = "@), SqlValueView::Text(v)),
        None => q0,
    };
    lemma_filter_step(q0, " AND entity_type = "@, entity_type, q1);
    let q2 = match entity_id {
        Some(v) => with_param(with_text(q1, " AND entity_id = "@), SqlValueView::Text(v)),
        None => q1,
    };
    lemma_filter_step(q1, " AND entity_id = "@, entity_id, q2);
    let q3 = match user_id {
        Some(v) => with_param(with_text(q2, " AND user_id = "@), SqlValueView::Text(v)),
        None => q2,
    };
    lemma_filter_step(q2, " AND user_id = "@, user_id, q3);
    lemma_audit_cursor_keeps(q3, cursor);
    let q4 = audit_cursor_clause(q3, cursor);
    let tail = " ORDER BY timestamp DESC, id DESC LIMIT "@;
    let q5 = with_text(q4, tail);
    let lim = SqlValueView::Integer(limit + 1);
    let q6 = with_param(q5, lim);
    lemma_text_keeps(q4, tail);
    lemma_param_keeps(q5, lim);
    lemma_bind_intro(q4, tail, lim);
    assert(audit_query_spec(entity_type, entity_id, user_id, limit, cursor) == q6);
    // Each filter's binding survives the later steps.
    assert forall|c: Seq<char>, v: SqlValueView| binds_after(q3, c, v) implies binds_after(q6, c, v) by {
        assert(binds_after(audit_cursor_clause(q3, cursor), c, v));
        assert(binds_after(q5, c, v));
    }
    if let Some(v) = entity_type {
        assert(binds_after(q1, " AND entity_type = "@, SqlValueView::Text(v)));
        assert(binds_after(q2, " AND entity_type = "@, SqlValueView::Text(v)));
        assert(binds_after(q3, " AND entity_type = "@, SqlValueView::Text(v)));
    }
    if let Some(v) = entity_id {
        assert(binds_after(q2, " AND entity_id = "@, SqlValueView::Text(v)));
        assert(binds_after(q3, " AND entity_id = "@, SqlValueView::Text(v)));
    }
}

fn filter_eq(q: SqlQuery, clause: &str, v: Option<&str>) -> (r: SqlQuery)
    requires
        !clause@.contains('?'),
    ensures
        r.view() == match opt_str(v) {
            Some(x) => with_param(with_text(q.view(), clause@), SqlValueView::Text(x)),
            None => q.view(),
        },
{
    match v {
        Some(x) => q.text(clause).param(SqlValue::Text(owned(x))),
        None => q,
    }
}

fn audit_cursor(q: SqlQuery, cursor: Option<&str>) -> (r: SqlQuery)
    ensures
        r.view() == audit_cursor_clause(q.view(), opt_str(cursor)),
{
    proof {
        reveal_strlit(" AND (timestamp < ");
        reveal_strlit(" OR (timestamp = ");
        reveal_strlit(" AND id < ");
        reveal_strlit("))");
    }
    match cursor {
        None => q,
        Some(c) => match parse_cursor(c) {
            PageCursor::Seek { timestamp, id } => {
                let t2 = timestamp.clone();
                q.text(" AND (timestamp < ").param(SqlValue::Text(timestamp)).text(" OR (timestamp = ").param(
                    SqlValue::Text(t2),
                ).text(" AND id < ").param(SqlValue::Text(id)).text("))")
            },
            PageCursor::Id(id) => q.text(" AND id < ").param(SqlValue::Text(id)),
        },
    }
}

/// The audit listing query for the given filters (see `audit_query_spec`).
pub fn build_audit_query(
    entity_type: Option<&str>,
    entity_id: Option<&str>,
    user_id: Option<&str>,
    limit: i64,
    cursor: Option<&str>,
) -> (q: SqlQuery)
    requires
        limit < i64::MAX,
    ensures
        q.view() == audit_query_spec(opt_str(entity_type), opt_str(entity_id), opt_str(user_id), limit, opt_str(cursor)),
{
    proof {
        reveal_strlit("SELECT id, entity_type, entity_id, action, changes_json, user_id, timestamp\n             FROM audit_entries WHERE 1=1");
        reveal_strlit(" AND entity_type = ");
        reveal_strlit(" AND entity_id = ");
        reveal_strlit(" AND user_id = ");
        reveal_strlit(" ORDER BY timestamp DESC, id DESC LIMIT ");
    }
    let q = SqlQuery::new(
        "SELECT id, entity_type, entity_id, action, changes_json, user_id, timestamp\n             FROM audit_entries WHERE 1=1",
    );
    let q = filter_eq(q, " AND entity_type = ", entity_type);
    let q = filter_eq(q, " AND entity_id = ", entity_id);
    let q = filter_eq(q, " AND user_id = ", user_id);
    let q = audit_cursor(q, cursor);
    q.text(" ORDER BY timestamp DESC, id DESC LIMIT ").param(SqlValue::Integer(limit + 1))
}

/// The collection listing query: collections with ids above the cursor (when
/// there is one), by ascending id, at most `limit + 1` rows.
pub open spec fn collection_query_spec(limit: i64, cursor: Option<Seq<char>>) -> QueryView {
    match cursor {
        Some(c) => with_param(
            with_text(
                with_param(
                    (
                        "SELECT id, name, description, created_at, updated_at, created_by, updated_by\n             FROM collections WHERE id > "@,
                        Seq::empty(),
                    ),
                    SqlValueView::Text(c),
                ),
                " ORDER BY id ASC LIMIT "@,
            ),
            SqlValueView::Integer(limit + 1),
        ),
        None => with_param(
            (
                "SELECT id, name, description, created_at, updated_at, created_by, updated_by\n             FROM collections ORDER BY id ASC LIMIT "@,
                Seq::empty(),
            ),
            SqlValueView::Integer(limit + 1),
        ),
    }
}

/// The collection listing query (see `collection_query_spec`).
pub fn build_collection_query(limit: i64, cursor: Option<&str>) -> (q: SqlQuery)
    requires
        limit < i64::MAX,
    ensures
        q.view() == collection_query_spec(limit, opt_str(cursor)),
{
    proof {
        reveal_strlit("SELECT id, name, description, created_at, updated_at, created_by, updated_by\n             FROM collections WHERE id > ");
        reveal_strlit(" ORDER BY id ASC LIMIT ");
        reveal_strlit("SELECT id, name, description, created_at, updated_at, created_by, updated_by\n             FROM collections ORDER BY id ASC LIMIT ");
    }
    match cursor {
        Some(c) => SqlQuery::new(
            "SELECT id, name, description, created_at, updated_at, created_by, updated_by\n             FROM collections WHERE id > ",
        ).param(SqlValue::Text(owned(c))).text(" ORDER BY id ASC LIMIT ").param(SqlValue::Integer(limit + 1)),
        None => SqlQuery::new(
            "SELECT id, name, description, created_at, updated_at, created_by, updated_by\n             FROM collections ORDER BY id ASC LIMIT ",
        ).param(SqlValue::Integer(limit + 1)),
    }
}

// ---------------------------------------------------------------------------
// Pages
// ---------------------------------------------------------------------------

/// More rows came back than a page holds (a negative limit never fills a
/// page).
pub open spec fn overflows(len: nat, limit: i64) -> bool {
    limit >= 0 && len > limit
}

/// The value an asset is sorted by.
pub open spec fn sort_value(a: Asset, f: SortField) -> Seq<char> {
    match f {
        SortField::CreatedAt => a.created_at@,
        SortField::UpdatedAt => a.updated_at@,
    }
}

/// The view of an optional string.
pub open spec fn opt_string(s: Option<String>) -> Option<Seq<char>> {
    match s {
        Some(t) => Some(t@),
        None => None,
    }
}

/// The cursor after the last asset of a page, if the page has one.
pub open spec fn asset_cursor_after(page: Seq<Asset>, f: SortField) -> Option<Seq<char>> {
    if page.len() == 0 {
        None
    } else {
        Some(seek_cursor(sort_value(page.last(), f), page.last().id@))
    }
}

/// The page of a listing from the rows fetched for it (at most `limit + 1`):
/// when more rows than `limit` came back, the first `limit` of them, with the
/// cursor after the last kept one (`<sort value>|<id>`); otherwise all rows
/// and no cursor.
pub fn finish_asset_page(rows: Vec<Asset>, limit: i64, f: SortField) -> (r: (Vec<Asset>, Option<String>))
    ensures
        overflows(rows@.len(), limit) ==> r.0@ == rows@.take(limit as int) && opt_string(r.1)
            == asset_cursor_after(rows@.take(limit as int), f),
        !overflows(rows@.len(), limit) ==> r.0@ == rows@ && r.1 is None,
{
    let mut rows = rows;
    if limit >= 0 && rows.len() as u128 > limit as u128 {
        let ghost all = rows@;
        let keep = limit as usize;
        rows.truncate(keep);
        assert(rows@ =~= all.take(limit as int));
        let cursor = if keep == 0 {
            None
        } else {
            let last = &rows[keep - 1];
            let value = match f {
                SortField::CreatedAt => last.created_at.as_str(),
                SortField::UpdatedAt => last.updated_at.as_str(),
            };
            let with_bar = concat_str(value, "|");
            proof {
                reveal_strlit("|");
            }
            let c = concat_str(with_bar.as_str(), last.id.as_str());
            assert(c@ =~= seek_cursor(sort_value(rows@.last(), f), rows@.last().id@));
            Some(c)
        };
        (rows, cursor)
    } else {
        (rows, None)
    }
}

/// The page of a search in the document store: when more rows than `limit`
/// came back, the last row is dropped and the cursor is the one after the
/// new last row; otherwise all rows and no cursor.
pub fn finish_popped_page(rows: Vec<Asset>, limit: i64, f: SortField) -> (r: (Vec<Asset>, Option<String>))
    ensures
        overflows(rows@.len(), limit) ==> r.0@ == rows@.drop_last() && opt_string(r.1)
            == asset_cursor_after(rows@.drop_last(), f),
        !overflows(rows@.len(), limit) ==> r.0@ == rows@ && r.1 is None,
{
    let mut rows = rows;
    if limit >= 0 && rows.len() as u128 > limit as u128 {
        let ghost all = rows@;
        let _ = rows.pop();
        assert(rows@ =~= all.drop_last());
        let n = rows.len();
        let cursor = if n == 0 {
            None
        } else {
            let last = &rows[n - 1];
            let value = match f {
                SortField::CreatedAt => last.created_at.as_str(),
                SortField::UpdatedAt => last.updated_at.as_str(),
            };
            let with_bar = concat_str(value, "|");
            proof {
                reveal_strlit("|");
            }
            let c = concat_str(with_bar.as_str(), last.id.as_str());
            assert(c@ =~= seek_cursor(sort_value(rows@.last(), f), rows@.last().id@));
            Some(c)
        };
        (rows, cursor)
    } else {
        (rows, None)
    }
}

/// The cursor after the last entry of a page, if the page has one.
pub open spec fn audit_cursor_after(page: Seq<AuditEntry>) -> Option<Seq<char>> {
    if page.len() == 0 {
        None
    } else {
        Some(seek_cursor(page.last().timestamp@, page.last().id@))
    }
}

/// The id of the last collection of a page, if the page has one.
pub open spec fn collection_cursor_after(page: Seq<Collection>) -> Option<Seq<char>> {
    if page.len() == 0 {
        None
    } else {
        Some(page.last().id@)
    }
}

/// The page of an audit listing: when more rows than `limit` came back, the
/// last row is dropped and the cursor is the one after the new last row
/// (`<timestamp>|<id>`); otherwise all rows and no cursor.
pub fn finish_audit_page(rows: Vec<AuditEntry>, limit: i64) -> (r: (Vec<AuditEntry>, Option<String>))
    ensures
        overflows(rows@.len(), limit) ==> r.0@ == rows@.drop_last() && opt_string(r.1) == audit_cursor_after(
            rows@.drop_last(),
        ),
        !overflows(rows@.len(), limit) ==> r.0@ == rows@ && r.1 is None,
{
    let mut rows = rows;
    if limit >= 0 && rows.len() as u128 > limit as u128 {
        let ghost all = rows@;
        let _ = rows.pop();
        assert(rows@ =~= all.drop_last());
        let n = rows.len();
        let cursor = if n == 0 {
            None
        } else {
            let last = &rows[n - 1];
            let with_bar = concat_str(last.timestamp.as_str(), "|");
            proof {
                reveal_strlit("|");
            }
            let c = concat_str(with_bar.as_str(), last.id.as_str());
            assert(c@ =~= seek_cursor(rows@.last().timestamp@, rows@.last().id@));
            Some(c)
        };
        (rows, cursor)
    } else {
        (rows, None)
    }
}

/// The page of a collection listing: when more rows than `limit` came back,
/// the first `limit` of them, with the id of the last one kept as the
/// cursor; otherwise all rows and no cursor.
pub fn finish_collection_page(rows: Vec<Collection>, limit: i64) -> (r: (Vec<Collection>, Option<String>))
    ensures
        overflows(rows@.len(), limit) ==> r.0@ == rows@.take(limit as int) && opt_string(r.1)
            == collection_cursor_after(rows@.take(limit as int)),
        !overflows(rows@.len(), limit) ==> r.0@ == rows@ && r.1 is None,
{
    let mut rows = rows;
    if limit >= 0 && rows.len() as u128 > limit as u128 {
        let ghost all = rows@;
        let keep = limit as usize;
        rows.truncate(keep);
        assert(rows@ =~= all.take(limit as int));
        let cursor = if keep == 0 {
            None
        } else {
            Some(rows[keep - 1].id.clone())
        };
        (rows, cursor)
    } else {
        (rows, None)
    }
}

/// The page of a collection listing in the document store: when more rows
/// than `limit` came back, the last row is dropped and the cursor is the id
/// of the new last row; otherwise all rows and no cursor.
pub fn finish_popped_collection_page(rows: Vec<Collection>, limit: i64) -> (r: (Vec<Collection>, Option<String>))
    ensures
        overflows(rows@.len(), limit) ==> r.0@ == rows@.drop_last() && opt_string(r.1)
            == collection_cursor_after(rows@.drop_last()),
        !overflows(rows@.len(), limit) ==> r.0@ == rows@ && r.1 is None,
{
    let mut rows = rows;
    if limit >= 0 && rows.len() as u128 > limit as u128 {
        let ghost all = rows@;
        let _ = rows.pop();
        assert(rows@ =~= all.drop_last());
        let n = rows.len();
        let cursor = if n == 0 {
            None
        } else {
            Some(rows[n - 1].id.clone())
        };
        (rows, cursor)
    } else {
        (rows, None)
    }
}

} // verus!
