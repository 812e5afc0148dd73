//! Find plans of the document store: what an asset listing or search asks
//! the store for (filters, seek position, sort and row limit), decided from
//! the request parameters.

use vstd::prelude::*;

use crate::models::asset::Asset;
use crate::order::str_lt;
use crate::query::{
    cursor_spec, opt_str, sort_field_spec, sort_value, str_eq_ignore_ascii_case, PageCursorView, SortField,
};
use crate::search::{pairs_view, text_search_query, text_search_string};
use crate::text::{chars_of, eq_ignore_ascii_case, owned, split_once};

verus! {

/// The instant that `s` names in chrono's relaxed RFC 3339 form, in
/// milliseconds since the Unix epoch; `None` when `s` is not such a text.
pub uninterp spec fn utc_millis_of(s: Seq<char>) -> Option<int>;

/// Parses `s` as `chrono::DateTime<Utc>` (`str::parse`, relaxed RFC 3339)
/// and gives `DateTime::timestamp_millis` of the result. The result is named
/// `utc_millis_of`.
#[verifier::external_body]
fn parse_utc_millis(s: &str) -> (r: Option<i64>)
    ensures
        match r {
            Some(m) => utc_millis_of(s@) == Some(m as int),
            None => utc_millis_of(s@) is None,
        },
{
    s.parse::<chrono::DateTime<chrono::Utc>>().ok().map(|dt| dt.timestamp_millis())
}

/// Where a page starts.
#[derive(Debug)]
pub enum Seek {
    /// Past the `(timestamp, id)` position of the last item seen: a strictly
    /// further timestamp, or the same timestamp and a further id.
    After { millis: i64, id: String },
    /// Past an id.
    PastId(String),
}

pub enum SeekView {
    After { millis: int, id: Seq<char> },
    PastId(Seq<char>),
}

pub open spec fn seek_view(s: Seek) -> SeekView {
    match s {
        Seek::After { millis, id } => SeekView::After { millis: millis as int, id: id@ },
        Seek::PastId(i) => SeekView::PastId(i@),
    }
}

/// The seek position of a cursor: `<timestamp>|<id>` with a readable
/// timestamp seeks past that position; any other cursor is taken whole as an
/// id.
pub open spec fn seek_spec(c: Seq<char>) -> SeekView {
    match cursor_spec(c) {
        PageCursorView::Seek { timestamp, id } => match utc_millis_of(timestamp) {
            Some(m) => SeekView::After { millis: m, id },
            None => SeekView::PastId(c),
        },
        PageCursorView::Id(_) => SeekView::PastId(c),
    }
}

/// The seek position a cursor stands for.
pub fn seek_of(c: &str) -> (s: Seek)
    ensures
        seek_view(s) == seek_spec(c@),
{
    let v = chars_of(c);
    match split_once(&v, '|') {
        Some((t, id)) => match parse_utc_millis(t.as_str()) {
            Some(m) => Seek::After { millis: m, id },
            None => Seek::PastId(owned(c)),
        },
        None => Seek::PastId(owned(c)),
    }
}

/// A cursor handed out after an item whose timestamp the store can read
/// seeks past exactly that item's position.
pub proof fn law_cursor_seeks_past_its_item(timestamp: Seq<char>, id: Seq<char>, millis: int)
    requires
        !timestamp.contains('|'),
        utc_millis_of(timestamp) == Some(millis),
    ensures
        seek_spec(crate::query::seek_cursor(timestamp, id)) == (SeekView::After { millis, id }),
{
    crate::query::law_cursor_names_its_item(timestamp, id);
}

/// How results are ordered.
#[derive(Debug)]
pub enum DocSort {
    /// By text-search relevance.
    Relevance,
    /// By a timestamp, then by id, in one direction.
    ByField { field: SortField, ascending: bool },
    /// By update time, newest first.
    NewestUpdate,
}

/// What a listing or search asks the document store for (see
/// `plan_selects` for the assets it selects).
#[derive(Debug)]
pub struct FindPlan {
    /// Only assets that are not soft-deleted (no `deleted_at`).
    pub live_only: bool,
    /// Only assets with this `asset_type` tag value.
    pub asset_type: Option<String>,
    /// Text-search string.
    pub text: Option<String>,
    /// `(category, value)` tags that must all be present.
    pub tags: Vec<(String, String)>,
    /// Where the page starts.
    pub seek: Option<Seek>,
    /// The timestamp a `Seek::After` position is compared on.
    pub seek_field: SortField,
    /// Whether seeking moves towards larger values.
    pub seek_ascending: bool,
    pub sort: DocSort,
    /// Maximum rows fetched: one more than a page.
    pub fetch_limit: i64,
}

/// Asset `a` carries a tag `category:value`.
pub open spec fn has_tag(a: Asset, category: Seq<char>, value: Seq<char>) -> bool {
    exists|k: int| 0 <= k < a.tags@.len() && (#[trigger] a.tags@[k]).category@ == category && a.tags@[k].value@ == value
}

/// Asset `a` lies past a seek position, in the seek direction: past a
/// `(timestamp, id)` position its timestamp `f` (read as an instant) is
/// further, or equal with a further id; past an id, its id is further. Ids
/// compare by code point, which is the byte order of their UTF-8 text.
pub open spec fn seek_admits(s: Option<SeekView>, f: SortField, ascending: bool, a: Asset) -> bool {
    match s {
        None => true,
        Some(SeekView::After { millis, id }) => match utc_millis_of(sort_value(a, f)) {
            Some(m) => if ascending {
                m > millis || (m == millis && str_lt(id, a.id@))
            } else {
                m < millis || (m == millis && str_lt(a.id@, id))
            },
            None => false,
        },
        Some(SeekView::PastId(c)) => if ascending {
            str_lt(c, a.id@)
        } else {
            str_lt(a.id@, c)
        },
    }
}

/// The assets a plan selects. `text_ok` is the store's own text-search
/// verdict on `a` for the plan's text, which only matters when the plan has
/// one: the asset is live when the plan asks for live assets only, carries
/// the `asset_type` tag asked for, matches the text, carries every tag
/// filter, and lies past the seek position.
pub open spec fn plan_selects(p: FindPlan, a: Asset, text_ok: bool) -> bool {
    &&& p.live_only ==> a.deleted_at is None
    &&& match p.asset_type {
        Some(t) => has_tag(a, "asset_type"@, t@),
        None => true,
    }
    &&& p.text is Some ==> text_ok
    &&& forall|i: int| 0 <= i < p.tags@.len() ==> has_tag(a, (#[trigger] p.tags@[i]).0@, p.tags@[i].1@)
    &&& seek_admits(opt_seek_view(p.seek), p.seek_field, p.seek_ascending, a)
}

/// `asc` or `ascending`, in any ASCII case, sorts ascending; anything else
/// descending. (Lower-casing maps no other text onto these two words.)
pub open spec fn ascending_spec(order: Seq<char>) -> bool {
    eq_ignore_ascii_case(order, "asc"@) || eq_ignore_ascii_case(order, "ascending"@)
}

/// The document store lists in ascending order for `asc` and `ascending`,
/// in any ASCII case, and only for those; every order the relational
/// listing takes as ascending is ascending here too.
pub proof fn law_ascending_orders(order: Seq<char>)
    ensures
        eq_ignore_ascii_case(order, "asc"@) ==> ascending_spec(order),
        eq_ignore_ascii_case(order, "ascending"@) ==> ascending_spec(order),
        ascending_spec(order) ==> eq_ignore_ascii_case(order, "asc"@) || eq_ignore_ascii_case(order, "ascending"@),
        crate::query::sort_order_spec(order) == crate::query::SortOrder::Asc ==> ascending_spec(order),
{
}

pub open spec fn opt_seek(c: Option<Seq<char>>) -> Option<SeekView> {
    match c {
        Some(x) => Some(seek_spec(x)),
        None => None,
    }
}

pub open spec fn opt_seek_view(s: Option<Seek>) -> Option<SeekView> {
    match s {
        Some(x) => Some(seek_view(x)),
        None => None,
    }
}

pub open spec fn opt_string_view(s: Option<String>) -> Option<Seq<char>> {
    match s {
        Some(x) => Some(x@),
        None => None,
    }
}

fn seek_opt(cursor: Option<&str>) -> (s: Option<Seek>)
    ensures
        opt_seek_view(s) == opt_seek(opt_str(cursor)),
{
    match cursor {
        Some(c) => Some(seek_of(c)),
        None => None,
    }
}

/// The plan of an asset listing: live assets (of one `asset_type` tag value
/// when given), sorted by the chosen timestamp then id in the chosen
/// direction, seeking past the cursor in that direction, `limit + 1` rows.
pub fn plan_asset_list(
    limit: i64,
    cursor: Option<&str>,
    asset_type_tag: Option<&str>,
    sort_by: &str,
    order: &str,
) -> (p: FindPlan)
    requires
        limit < i64::MAX,
    ensures
        opt_string_view(p.asset_type) == opt_str(asset_type_tag),
        p.text is None,
        p.tags@.len() == 0,
        opt_seek_view(p.seek) == opt_seek(opt_str(cursor)),
        p.seek_ascending == ascending_spec(order@),
        p.sort == (DocSort::ByField { field: sort_field_spec(sort_by@), ascending: ascending_spec(order@) }),
        p.fetch_limit == limit + 1,
        p.live_only,
        p.seek_field == sort_field_spec(sort_by@),
        forall|a: Asset, text_ok: bool| #[trigger] plan_selects(p, a, text_ok) <==> {
            &&& a.deleted_at is None
            &&& match asset_type_tag {
                Some(t) => has_tag(a, "asset_type"@, t@),
                None => true,
            }
            &&& seek_admits(opt_seek(opt_str(cursor)), sort_field_spec(sort_by@), ascending_spec(order@), a)
        },
{
    let ascending = str_eq_ignore_ascii_case(order, "asc") || str_eq_ignore_ascii_case(order, "ascending");
    let field = crate::query::sort_field_of(sort_by);
    let asset_type = match asset_type_tag {
        Some(t) => Some(owned(t)),
        None => None,
    };
    FindPlan {
        live_only: true,
        asset_type,
        text: None,
        tags: Vec::new(),
        seek: seek_opt(cursor),
        seek_field: field,
        seek_ascending: ascending,
        sort: DocSort::ByField { field, ascending },
        fetch_limit: limit + 1,
    }
}

/// The text-search string of a search: a nonempty query, with every word of
/// an unquoted multi-word query made required.
pub open spec fn search_text_spec(query: Option<Seq<char>>) -> Option<Seq<char>> {
    match query {
        Some(q) => if q.len() > 0 {
            Some(text_search_query(q))
        } else {
            None
        },
        None => None,
    }
}

/// The plan of an asset search: live assets matching the text search (for a
/// nonempty query) and every tag filter, seeking downwards past the cursor;
/// with a query (even an empty one) ordered by relevance, otherwise newest
/// update first; `limit + 1` rows.
pub fn plan_asset_search(
    query: Option<&str>,
    tag_filters: Vec<(String, String)>,
    limit: i64,
    cursor: Option<&str>,
) -> (p: FindPlan)
    requires
        limit < i64::MAX,
    ensures
        p.asset_type is None,
        opt_string_view(p.text) == search_text_spec(opt_str(query)),
        pairs_view(p.tags@) == pairs_view(tag_filters@),
        opt_seek_view(p.seek) == opt_seek(opt_str(cursor)),
        !p.seek_ascending,
        p.sort == (if query is Some {
            DocSort::Relevance
        } else {
            DocSort::NewestUpdate
        }),
        p.fetch_limit == limit + 1,
        p.live_only,
        p.seek_field == SortField::UpdatedAt,
        forall|a: Asset, text_ok: bool| #[trigger] plan_selects(p, a, text_ok) <==> {
            &&& a.deleted_at is None
            &&& search_text_spec(opt_str(query)) is Some ==> text_ok
            &&& forall|i: int|
                0 <= i < tag_filters@.len() ==> has_tag(a, (#[trigger] tag_filters@[i]).0@, tag_filters@[i].1@)
            &&& seek_admits(opt_seek(opt_str(cursor)), SortField::UpdatedAt, false, a)
        },
{
    let text = match query {
        Some(q) => if !q.is_empty() {
            Some(text_search_string(q))
        } else {
            None
        },
        None => None,
    };
    let sort = match query {
        Some(_) => DocSort::Relevance,
        None => DocSort::NewestUpdate,
    };
    let ghost filters = tag_filters@;
    let p = FindPlan {
        live_only: true,
        asset_type: None,
        text,
        tags: tag_filters,
        seek: seek_opt(cursor),
        seek_field: SortField::UpdatedAt,
        seek_ascending: false,
        sort,
        fetch_limit: limit + 1,
    };
    proof {
        assert forall|a: Asset, text_ok: bool| #[trigger] plan_selects(p, a, text_ok) <==> {
            &&& a.deleted_at is None
            &&& search_text_spec(opt_str(query)) is Some ==> text_ok
            &&& forall|i: int| 0 <= i < filters.len() ==> has_tag(a, (#[trigger] filters[i]).0@, filters[i].1@)
            &&& seek_admits(opt_seek(opt_str(cursor)), SortField::UpdatedAt, false, a)
        } by {
            assert(p.tags@ == filters);
        }
    }
    p
}

} // verus!
