//! Relations between assets.

use vstd::prelude::*;

use crate::models::MetadataEntry;
use crate::text::{str_eq, string_from_chars};

verus! {

/// Kinds of relationship between assets.
#[derive(PartialEq, Eq, Structural, Clone, Copy, Debug)]
pub enum RelationType {
    /// Asset includes other assets
    Contains,
    /// Asset cites or links to another
    References,
    /// General association between assets
    RelatedTo,
    /// Required relationship for asset validity
    DependsOn,
    /// Asset replaces or updates another
    Supersedes,
    /// Assets enhance each other's value
    Complements,
    /// Workspace owns an instance
    HasInstance,
    /// Workspace owns an agent
    HasAgent,
}

/// The wire/storage name of a relation type.
pub open spec fn relation_type_name(t: RelationType) -> Seq<char> {
    match t {
        RelationType::Contains => "contains"@,
        RelationType::References => "references"@,
        RelationType::RelatedTo => "related_to"@,
        RelationType::DependsOn => "depends_on"@,
        RelationType::Supersedes => "supersedes"@,
        RelationType::Complements => "complements"@,
        RelationType::HasInstance => "has_instance"@,
        RelationType::HasAgent => "has_agent"@,
    }
}

/// The relation type stored under `s`; unknown names read as `RelatedTo`.
pub open spec fn relation_type_from_name(s: Seq<char>) -> RelationType {
    if s == "contains"@ {
        RelationType::Contains
    } else if s == "references"@ {
        RelationType::References
    } else if s == "related_to"@ {
        RelationType::RelatedTo
    } else if s == "depends_on"@ {
        RelationType::DependsOn
    } else if s == "supersedes"@ {
        RelationType::Supersedes
    } else if s == "complements"@ {
        RelationType::Complements
    } else if s == "has_instance"@ {
        RelationType::HasInstance
    } else if s == "has_agent"@ {
        RelationType::HasAgent
    } else {
        RelationType::RelatedTo
    }
}

impl RelationType {
    /// The storage name of this relation type (its `Display` text).
    pub fn to_string(&self) -> (s: String)
        ensures
            s@ == relation_type_name(*self),
    {
        let v: Vec<char> = match self {
            RelationType::Contains => vec!['c', 'o', 'n', 't', 'a', 'i', 'n', 's'],
            RelationType::References => vec!['r', 'e', 'f', 'e', 'r', 'e', 'n', 'c', 'e', 's'],
            RelationType::RelatedTo => vec!['r', 'e', 'l', 'a', 't', 'e', 'd', '_', 't', 'o'],
            RelationType::DependsOn => vec!['d', 'e', 'p', 'e', 'n', 'd', 's', '_', 'o', 'n'],
            RelationType::Supersedes => vec!['s', 'u', 'p', 'e', 'r', 's', 'e', 'd', 'e', 's'],
            RelationType::Complements => vec!['c', 'o', 'm', 'p', 'l', 'e', 'm', 'e', 'n', 't', 's'],
            RelationType::HasInstance => vec!['h', 'a', 's', '_', 'i', 'n', 's', 't', 'a', 'n', 'c', 'e'],
            RelationType::HasAgent => vec!['h', 'a', 's', '_', 'a', 'g', 'e', 'n', 't'],
        };
        proof {
            reveal_strlit("contains");
            reveal_strlit("references");
            reveal_strlit("related_to");
            reveal_strlit("depends_on");
            reveal_strlit("supersedes");
            reveal_strlit("complements");
            reveal_strlit("has_instance");
            reveal_strlit("has_agent");
        }
        let s = string_from_chars(v.as_slice());
        assert(s@ =~= relation_type_name(*self));
        s
    }

    /// Reads a stored relation type name; unknown names become `RelatedTo`.
    pub fn parse(s: &str) -> (t: RelationType)
        ensures
            t == relation_type_from_name(s@),
    {
        if str_eq(s, "contains") {
            RelationType::Contains
        } else if str_eq(s, "references") {
            RelationType::References
        } else if str_eq(s, "related_to") {
            RelationType::RelatedTo
        } else if str_eq(s, "depends_on") {
            RelationType::DependsOn
        } else if str_eq(s, "supersedes") {
            RelationType::Supersedes
        } else if str_eq(s, "complements") {
            RelationType::Complements
        } else if str_eq(s, "has_instance") {
            RelationType::HasInstance
        } else if str_eq(s, "has_agent") {
            RelationType::HasAgent
        } else {
            RelationType::RelatedTo
        }
    }
}

/// Reading back a stored relation type name gives the same type.
pub proof fn law_relation_type_roundtrip(t: RelationType)
    ensures
        relation_type_from_name(relation_type_name(t)) == t,
{
    reveal_strlit("contains");
    reveal_strlit("references");
    reveal_strlit("related_to");
    reveal_strlit("depends_on");
    reveal_strlit("supersedes");
    reveal_strlit("complements");
    reveal_strlit("has_instance");
    reveal_strlit("has_agent");
    let names = seq![
        "contains"@,
        "references"@,
        "related_to"@,
        "depends_on"@,
        "supersedes"@,
        "complements"@,
        "has_instance"@,
        "has_agent"@,
    ];
    assert(names[0].len() == 8 && names[0][0] == 'c');
    assert(names[1].len() == 10 && names[1][0] == 'r' && names[1][2] == 'f');
    assert(names[2].len() == 10 && names[2][0] == 'r' && names[2][2] == 'l');
    assert(names[3].len() == 10 && names[3][0] == 'd');
    assert(names[4].len() == 10 && names[4][0] == 's');
    assert(names[5].len() == 11 && names[5][0] == 'c');
    assert(names[6].len() == 12 && names[6][0] == 'h');
    assert(names[7].len() == 9 && names[7][0] == 'h');
}

/// A relationship between two assets.
#[derive(Debug)]
pub struct Relation {
    pub id: String,
    pub from_asset_id: String,
    pub to_asset_id: String,
    pub relation_type: RelationType,
    pub metadata: Vec<MetadataEntry>,
    /// RFC 3339 creation time.
    pub created_at: String,
    pub created_by: String,
}

/// Request to create a relation.
#[derive(Debug)]
pub struct CreateRelationRequest {
    pub from_asset_id: String,
    pub to_asset_id: String,
    pub relation_type: RelationType,
    pub metadata: Vec<MetadataEntry>,
}

} // verus!
