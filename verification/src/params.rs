//! Request parameters of the HTTP interface, with their defaults, and the
//! paginated answer.

use vstd::prelude::*;

use crate::text::owned;

verus! {

/// Default page size.
pub fn default_limit() -> (l: i64)
    ensures
        l == 20,
{
    20
}

/// Default sort field of asset listings.
pub fn default_sort_by() -> (s: String)
    ensures
        s@ == "updated_at"@,
{
    owned("updated_at")
}

/// Default sort order of asset listings.
pub fn default_order() -> (s: String)
    ensures
        s@ == "desc"@,
{
    owned("desc")
}

/// Default number of history entries.
pub fn default_history_limit() -> (l: i64)
    ensures
        l == 50,
{
    50
}

/// Default depth of graph traversals.
pub fn default_depth() -> (d: u32)
    ensures
        d == 3,
{
    3
}

/// Page size and cursor.
#[derive(Debug)]
pub struct PaginationParams {
    pub limit: i64,
    pub cursor: Option<String>,
}

impl Default for PaginationParams {
    /// The default page size and no cursor.
    fn default() -> (p: PaginationParams)
        ensures
            p.limit == 20,
            p.cursor is None,
    {
        PaginationParams { limit: default_limit(), cursor: None }
    }
}

/// Parameters of an asset listing.
#[derive(Debug)]
pub struct ListAssetsParams {
    pub limit: i64,
    pub cursor: Option<String>,
    /// Only assets whose `asset_type` tag has this value.
    pub asset_type: Option<String>,
    /// `created_at` or `updated_at`.
    pub sort_by: String,
    /// `asc` or `desc`.
    pub order: String,
}

impl Default for ListAssetsParams {
    /// A first page of 20, newest update first.
    fn default() -> (p: ListAssetsParams)
        ensures
            p.limit == 20,
            p.cursor is None,
            p.asset_type is None,
            p.sort_by@ == "updated_at"@,
            p.order@ == "desc"@,
    {
        ListAssetsParams {
            limit: default_limit(),
            cursor: None,
            asset_type: None,
            sort_by: default_sort_by(),
            order: default_order(),
        }
    }
}

/// Parameters of an audit listing.
#[derive(Debug)]
pub struct AuditListParams {
    pub limit: i64,
    pub cursor: Option<String>,
    pub entity_type: Option<String>,
    pub entity_id: Option<String>,
    pub user_id: Option<String>,
}

/// Parameters of an asset's history.
#[derive(Debug)]
pub struct HistoryParams {
    pub limit: i64,
}

impl Default for HistoryParams {
    /// The 50 latest entries.
    fn default() -> (p: HistoryParams)
        ensures
            p.limit == 50,
    {
        HistoryParams { limit: default_history_limit() }
    }
}

/// Parameters of a collection listing.
#[derive(Debug)]
pub struct ListCollectionsParams {
    pub limit: i64,
    pub cursor: Option<String>,
}

/// Parameters of a graph traversal.
#[derive(Debug)]
pub struct TraverseParams {
    pub depth: u32,
}

impl Default for TraverseParams {
    /// Three levels.
    fn default() -> (p: TraverseParams)
        ensures
            p.depth == 3,
    {
        TraverseParams { depth: default_depth() }
    }
}

/// One page of results and the cursor of the next page, if any.
#[derive(Debug)]
pub struct PaginatedResponse<T> {
    pub data: Vec<T>,
    pub next_cursor: Option<String>,
    pub total: Option<u64>,
}

/// A page as answered: its items, the next cursor, no total.
pub fn paginated<T>(data: Vec<T>, next_cursor: Option<String>) -> (r: PaginatedResponse<T>)
    ensures
        r.data@ == data@,
        r.next_cursor == next_cursor,
        r.total is None,
{
    PaginatedResponse { data, next_cursor, total: None }
}

} // verus!
