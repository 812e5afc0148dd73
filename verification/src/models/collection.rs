//! Collections: named groups of assets.

use vstd::prelude::*;

use crate::models::tag::{AddTagRequest, Tag};

verus! {

/// A named collection of assets.
#[derive(Debug)]
pub struct Collection {
    pub id: String,
    pub name: String,
    pub description: Option<String>,
    pub tags: Vec<Tag>,
    pub asset_ids: Vec<String>,
    /// RFC 3339 creation time.
    pub created_at: String,
    /// RFC 3339 time of the last change.
    pub updated_at: String,
    pub created_by: String,
    pub updated_by: String,
}

/// Request to create a collection.
#[derive(Debug)]
pub struct CreateCollectionRequest {
    pub name: String,
    pub description: Option<String>,
    pub tags: Vec<AddTagRequest>,
}

/// Request to update a collection; absent fields stay unchanged.
#[derive(Debug)]
pub struct UpdateCollectionRequest {
    pub name: Option<String>,
    pub description: Option<String>,
}

/// Request to add an asset to a collection.
#[derive(Debug)]
pub struct AddAssetRequest {
    pub asset_id: String,
}

} // verus!
