//! Data models.

pub mod asset;
pub mod audit;
pub mod auth_context;
pub mod collection;
pub mod relation;
pub mod tag;

pub use asset::{
    generate_snippet, to_search_result, Asset, CreateAssetRequest, SearchResult, TagSummary, UpdateAssetRequest,
};
pub use audit::{AuditAction, AuditEntry};
pub use auth_context::{AuthContext, UpdateAuthContextRequest};
pub use collection::{AddAssetRequest, Collection, CreateCollectionRequest, UpdateCollectionRequest};
pub use relation::{CreateRelationRequest, Relation, RelationType};
pub use tag::{validate_category, validate_value, AddTagRequest, Tag};

use vstd::prelude::*;

verus! {

/// One metadata entry: a key and its JSON-encoded value. A list of entries
/// stands for a JSON object, so its keys are meant to be distinct (see
/// `keys_distinct`).
#[derive(Debug)]
pub struct MetadataEntry {
    pub key: String,
    /// The value as JSON text.
    pub value_json: String,
}

/// No two entries share a key.
pub open spec fn keys_distinct(m: Seq<MetadataEntry>) -> bool {
    forall|i: int, j: int| 0 <= i < m.len() && 0 <= j < m.len() && i != j ==> (#[trigger] m[i]).key@ != (#[trigger] m[j]).key@
}

/// `m` with entry `e` put in: it replaces the entry with the same key, if
/// any, in its place; otherwise it comes last.
pub open spec fn put_entry(m: Seq<MetadataEntry>, e: MetadataEntry) -> Seq<MetadataEntry> {
    if exists|i: int| 0 <= i < m.len() && (#[trigger] m[i]).key@ == e.key@ {
        m.update(choose|i: int| 0 <= i < m.len() && (#[trigger] m[i]).key@ == e.key@, e)
    } else {
        m.push(e)
    }
}

/// The entries put in one after another: one entry per key, holding the
/// last value given for it, at the place of the key's first entry.
pub open spec fn keyed(m: Seq<MetadataEntry>) -> Seq<MetadataEntry>
    decreases m.len(),
{
    if m.len() == 0 {
        Seq::empty()
    } else {
        put_entry(keyed(m.drop_last()), m.last())
    }
}

/// Puts entry `e` into `m` (see `put_entry`), keeping its keys distinct.
pub fn put_metadata(m: &mut Vec<MetadataEntry>, e: MetadataEntry)
    requires
        keys_distinct(old(m)@),
    ensures
        final(m)@ == put_entry(old(m)@, e),
        keys_distinct(final(m)@),
{
    let ghost before = m@;
    let n = m.len();
    let mut i: usize = 0;
    let mut found: Option<usize> = None;
    while i < n
        invariant
            n == m@.len(),
            m@ == before,
            keys_distinct(before),
            i <= n,
            forall|k: int| 0 <= k < i ==> (#[trigger] before[k]).key@ != e.key@,
            found matches Some(f) ==> f < n && before[f as int].key@ == e.key@,
        ensures
            found matches Some(f) ==> f < n && before[f as int].key@ == e.key@,
            found is None ==> forall|k: int| 0 <= k < n ==> (#[trigger] before[k]).key@ != e.key@,
        decreases n - i,
    {
        if crate::text::str_eq(m[i].key.as_str(), e.key.as_str()) {
            found = Some(i);
            break;
        }
        i = i + 1;
    }
    match found {
        Some(f) => {
            proof {
                assert(exists|k: int| 0 <= k < before.len() && (#[trigger] before[k]).key@ == e.key@);
                let w = choose|k: int| 0 <= k < before.len() && (#[trigger] before[k]).key@ == e.key@;
                if w != f {
                    assert(before[w].key@ != before[f as int].key@);
                }
                assert(put_entry(before, e) == before.update(f as int, e));
            }
            m.set(f, e);
            proof {
                assert forall|a: int, b: int| 0 <= a < m@.len() && 0 <= b < m@.len() && a != b implies (#[trigger] m@[a]).key@
                    != (#[trigger] m@[b]).key@ by {
                    if a == f {
                        assert(before[b].key@ != before[f as int].key@);
                    } else if b == f {
                        assert(before[a].key@ != before[f as int].key@);
                    } else {
                        assert(before[a].key@ != before[b].key@);
                    }
                }
            }
        },
        None => {
            m.push(e);
            proof {
                assert(!(exists|k: int| 0 <= k < before.len() && (#[trigger] before[k]).key@ == e.key@));
                assert forall|a: int, b: int| 0 <= a < m@.len() && 0 <= b < m@.len() && a != b implies (#[trigger] m@[a]).key@
                    != (#[trigger] m@[b]).key@ by {
                    if a == n {
                        assert(before[b].key@ != e.key@);
                    } else if b == n {
                        assert(before[a].key@ != e.key@);
                    } else {
                        assert(before[a].key@ != before[b].key@);
                    }
                }
            }
        },
    }
}

} // verus!
