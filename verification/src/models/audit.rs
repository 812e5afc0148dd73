//! The audit log: what was done to which entity, by whom.

use vstd::prelude::*;

use crate::text::{owned, str_eq};

verus! {

/// Types of audited actions.
#[derive(PartialEq, Eq, Structural, Clone, Copy, Debug)]
pub enum AuditAction {
    Create,
    Update,
    Delete,
    AddTag,
    RemoveTag,
    AddRelation,
    RemoveRelation,
    AddToCollection,
    RemoveFromCollection,
}

/// The stored (snake case) name of an action.
pub open spec fn audit_action_name(a: AuditAction) -> Seq<char> {
    match a {
        AuditAction::Create => "create"@,
        AuditAction::Update => "update"@,
        AuditAction::Delete => "delete"@,
        AuditAction::AddTag => "add_tag"@,
        AuditAction::RemoveTag => "remove_tag"@,
        AuditAction::AddRelation => "add_relation"@,
        AuditAction::RemoveRelation => "remove_relation"@,
        AuditAction::AddToCollection => "add_to_collection"@,
        AuditAction::RemoveFromCollection => "remove_from_collection"@,
    }
}

/// The action stored under `s`; an unknown name reads as `Update`.
pub open spec fn audit_action_from_name(s: Seq<char>) -> AuditAction {
    if s == "create"@ {
        AuditAction::Create
    } else if s == "update"@ {
        AuditAction::Update
    } else if s == "delete"@ {
        AuditAction::Delete
    } else if s == "add_tag"@ {
        AuditAction::AddTag
    } else if s == "remove_tag"@ {
        AuditAction::RemoveTag
    } else if s == "add_relation"@ {
        AuditAction::AddRelation
    } else if s == "remove_relation"@ {
        AuditAction::RemoveRelation
    } else if s == "add_to_collection"@ {
        AuditAction::AddToCollection
    } else if s == "remove_from_collection"@ {
        AuditAction::RemoveFromCollection
    } else {
        AuditAction::Update
    }
}

impl AuditAction {
    /// The stored name of the action (its `Display` text).
    pub fn to_string(&self) -> (s: String)
        ensures
            s@ == audit_action_name(*self),
    {
        match self {
            AuditAction::Create => owned("create"),
            AuditAction::Update => owned("update"),
            AuditAction::Delete => owned("delete"),
            AuditAction::AddTag => owned("add_tag"),
            AuditAction::RemoveTag => owned("remove_tag"),
            AuditAction::AddRelation => owned("add_relation"),
            AuditAction::RemoveRelation => owned("remove_relation"),
            AuditAction::AddToCollection => owned("add_to_collection"),
            AuditAction::RemoveFromCollection => owned("remove_from_collection"),
        }
    }

    /// Reads a stored action name; an unknown name becomes `Update`.
    pub fn parse(s: &str) -> (a: AuditAction)
        ensures
            a == audit_action_from_name(s@),
    {
        if str_eq(s, "create") {
            AuditAction::Create
        } else if str_eq(s, "update") {
            AuditAction::Update
        } else if str_eq(s, "delete") {
            AuditAction::Delete
        } else if str_eq(s, "add_tag") {
            AuditAction::AddTag
        } else if str_eq(s, "remove_tag") {
            AuditAction::RemoveTag
        } else if str_eq(s, "add_relation") {
            AuditAction::AddRelation
        } else if str_eq(s, "remove_relation") {
            AuditAction::RemoveRelation
        } else if str_eq(s, "add_to_collection") {
            AuditAction::AddToCollection
        } else if str_eq(s, "remove_from_collection") {
            AuditAction::RemoveFromCollection
        } else {
            AuditAction::Update
        }
    }
}

/// Reading back a stored action name gives the same action.
pub proof fn law_audit_action_roundtrip(a: AuditAction)
    ensures
        audit_action_from_name(audit_action_name(a)) == a,
{
    reveal_strlit("create");
    reveal_strlit("update");
    reveal_strlit("delete");
    reveal_strlit("add_tag");
    reveal_strlit("remove_tag");
    reveal_strlit("add_relation");
    reveal_strlit("remove_relation");
    reveal_strlit("add_to_collection");
    reveal_strlit("remove_from_collection");
    assert("create"@.len() == 6 && "create"@[0] == 'c');
    assert("update"@.len() == 6 && "update"@[0] == 'u');
    assert("delete"@.len() == 6 && "delete"@[0] == 'd');
    assert("add_tag"@.len() == 7);
    assert("remove_tag"@.len() == 10);
    assert("add_relation"@.len() == 12);
    assert("remove_relation"@.len() == 15);
    assert("add_to_collection"@.len() == 17);
    assert("remove_from_collection"@.len() == 22);
}

/// One audit log entry.
#[derive(Debug)]
pub struct AuditEntry {
    pub id: String,
    pub entity_type: String,
    pub entity_id: String,
    pub action: AuditAction,
    /// The recorded changes, as JSON text.
    pub changes_json: String,
    pub user_id: String,
    /// RFC 3339 time of the action.
    pub timestamp: String,
}

} // verus!
