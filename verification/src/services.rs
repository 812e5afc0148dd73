//! Service rules: request validation, the errors answered, what the audit
//! log records of each change, and the decision sequences of the operations
//! that consult the stores step by step (creating a relation, changing an
//! authorization context).

use vstd::prelude::*;

use crate::models::asset::{Asset, CreateAssetRequest, UpdateAssetRequest};
use crate::models::audit::AuditAction;
use crate::models::auth_context::{
    apply_patch, cascade_auth_context, own_context, cascade_patch, merge_auth_context, AuthContext,
    AuthContextView, UpdateAuthContextRequest,
};
use crate::models::collection::{Collection, CreateCollectionRequest, UpdateCollectionRequest};
use crate::models::relation::{CreateRelationRequest, Relation};
use crate::models::tag::{category_verdict, value_verdict, AddTagRequest, Tag};
use crate::text::{all_ws, concat_str, is_blank, owned};

verus! {

// ---------------------------------------------------------------------------
// Errors
// ---------------------------------------------------------------------------

/// An error answered to a request.
#[derive(Debug)]
pub enum ApiError {
    /// The request is malformed (400).
    Validation(String),
    /// The entity does not exist (404).
    NotFound(String),
    /// The caller may not do this (403).
    Forbidden(String),
    /// The store failed (500).
    GenericDatabase(String),
}

/// The HTTP status of an error.
pub open spec fn api_status(e: ApiError) -> u16 {
    match e {
        ApiError::Validation(_) => 400,
        ApiError::NotFound(_) => 404,
        ApiError::Forbidden(_) => 403,
        ApiError::GenericDatabase(_) => 500,
    }
}

/// The message of an error.
pub open spec fn api_message(e: ApiError) -> Seq<char> {
    match e {
        ApiError::Validation(m) => m@,
        ApiError::NotFound(m) => m@,
        ApiError::Forbidden(m) => m@,
        ApiError::GenericDatabase(m) => m@,
    }
}

impl ApiError {
    /// The HTTP status of the error.
    pub fn status(&self) -> (s: u16)
        ensures
            s == api_status(*self),
    {
        match self {
            ApiError::Validation(_) => 400,
            ApiError::NotFound(_) => 404,
            ApiError::Forbidden(_) => 403,
            ApiError::GenericDatabase(_) => 500,
        }
    }

    /// The message of the error.
    pub fn message(&self) -> (m: String)
        ensures
            m@ == api_message(*self),
    {
        match self {
            ApiError::Validation(m) => m.clone(),
            ApiError::NotFound(m) => m.clone(),
            ApiError::Forbidden(m) => m.clone(),
            ApiError::GenericDatabase(m) => m.clone(),
        }
    }
}

/// `<what> not found: <id>`.
pub open spec fn not_found_text(what: Seq<char>, id: Seq<char>) -> Seq<char> {
    what + " not found: "@ + id
}

/// The error for a missing entity: `<what> not found: <id>`.
pub fn not_found(what: &str, id: &str) -> (e: ApiError)
    ensures
        e matches ApiError::NotFound(m) && m@ == not_found_text(what@, id@),
{
    let a = concat_str(what, " not found: ");
    ApiError::NotFound(concat_str(a.as_str(), id))
}

// ---------------------------------------------------------------------------
// Validation
// ---------------------------------------------------------------------------

/// A title or name that is empty once trimmed is refused with `message`.
pub open spec fn blank_check(s: Seq<char>, message: Seq<char>) -> Result<(), Seq<char>> {
    if all_ws(s) {
        Err(message)
    } else {
        Ok(())
    }
}

/// The view of a validation outcome.
pub open spec fn validation_view(r: Result<(), ApiError>) -> Result<(), Seq<char>> {
    match r {
        Ok(()) => Ok(()),
        Err(e) => Err(api_message(e)),
    }
}

/// Whether a result is `Ok` or a validation error.
pub open spec fn ok_or_validation(r: Result<(), ApiError>) -> bool {
    r is Ok || r matches Err(ApiError::Validation(_))
}

fn check_not_blank(s: &str, message: &str) -> (r: Result<(), ApiError>)
    ensures
        validation_view(r) == blank_check(s@, message@),
        ok_or_validation(r),
{
    if is_blank(s) {
        Err(ApiError::Validation(owned(message)))
    } else {
        Ok(())
    }
}

/// Asset rules.
pub struct AssetService;

impl AssetService {
    /// A new asset needs a title that is not blank.
    pub fn check_create(request: &CreateAssetRequest) -> (r: Result<(), ApiError>)
        ensures
            validation_view(r) == blank_check(request.title@, "Title cannot be empty"@),
            ok_or_validation(r),
    {
        check_not_blank(request.title.as_str(), "Title cannot be empty")
    }

    /// An update may not set a blank title.
    pub fn check_update(request: &UpdateAssetRequest) -> (r: Result<(), ApiError>)
        ensures
            validation_view(r) == match request.title {
                Some(t) => blank_check(t@, "Title cannot be empty"@),
                None => Ok(()),
            },
            ok_or_validation(r),
    {
        match &request.title {
            Some(t) => check_not_blank(t.as_str(), "Title cannot be empty"),
            None => Ok(()),
        }
    }

    /// A tag must pass tag validation; its refusal becomes a validation
    /// error.
    pub fn check_add_tag(request: &AddTagRequest) -> (r: Result<(), ApiError>)
        ensures
            validation_view(r) == match category_verdict(request.category@) {
                Some(m) => Err(m),
                None => match value_verdict(request.value@) {
                    Some(m) => Err(m),
                    None => Ok(()),
                },
            },
            ok_or_validation(r),
    {
        match request.validate() {
            Ok(()) => Ok(()),
            Err(m) => Err(ApiError::Validation(m)),
        }
    }

    /// Begins deleting asset `id` for `user_id`: the first step loads the
    /// asset, so that a missing (or already deleted) one is refused before
    /// anything changes.
    pub fn delete(id: &str, user_id: &str) -> (r: (AssetDeletion, DeletionStep))
        ensures
            r.0.id() == id@,
            r.0.user() == user_id@,
            r.0.stage() == DeletionStage::Load,
            r.1 matches DeletionStep::Load(a) && a@ == id@,
    {
        let d = AssetDeletion { id: owned(id), user_id: owned(user_id), stage: DeletionStage::Load };
        (d, DeletionStep::Load(owned(id)))
    }
}

/// Collection rules.
pub struct CollectionService;

impl CollectionService {
    /// A new collection needs a name that is not blank.
    pub fn check_create(request: &CreateCollectionRequest) -> (r: Result<(), ApiError>)
        ensures
            validation_view(r) == blank_check(request.name@, "Name cannot be empty"@),
            ok_or_validation(r),
    {
        check_not_blank(request.name.as_str(), "Name cannot be empty")
    }

    /// An update may not set a blank name.
    pub fn check_update(request: &UpdateCollectionRequest) -> (r: Result<(), ApiError>)
        ensures
            validation_view(r) == match request.name {
                Some(n) => blank_check(n@, "Name cannot be empty"@),
                None => Ok(()),
            },
            ok_or_validation(r),
    {
        match &request.name {
            Some(n) => check_not_blank(n.as_str(), "Name cannot be empty"),
            None => Ok(()),
        }
    }
}

/// Search rules: a search is answered by the asset store as asked.
pub struct SearchService;

/// Audit rules: an asset's history is the history of the entity type
/// `asset`.
pub struct AuditService;

impl AuditService {
    /// The entity type whose history an asset history lists.
    pub fn history_entity_type() -> (s: String)
        ensures
            s@ == "asset"@,
    {
        owned("asset")
    }
}

// ---------------------------------------------------------------------------
// Audit records
// ---------------------------------------------------------------------------

/// What an audit entry records of a change.
#[derive(Debug)]
pub enum AuditChanges {
    /// Nothing beyond the action.
    Nothing,
    /// A new asset: its title and number of tags.
    AssetCreated { title: String, tag_count: usize },
    /// An asset update: the previous title and content and the requested
    /// ones.
    AssetUpdated {
        old_title: String,
        old_content: Option<String>,
        new_title: Option<String>,
        new_content: Option<String>,
    },
    /// A tag added to an asset.
    TagAdded { tag_id: String, category: String, value: String },
    /// A tag removed from an asset.
    TagRemoved { tag_id: String },
    /// A relation created or removed.
    Relation { from_asset_id: String, to_asset_id: String, relation_type: String },
    /// A new collection.
    CollectionCreated { name: String },
    /// A collection update: the previous name and description and the
    /// requested ones.
    CollectionUpdated {
        old_name: String,
        old_description: Option<String>,
        new_name: Option<String>,
        new_description: Option<String>,
    },
    /// An asset added to or removed from a collection.
    Membership { asset_id: String },
    /// A changed authorization context, and how far it cascaded.
    AuthContextUpdated { auth_context: AuthContext, cascade: bool, cascaded_count: usize },
}

/// One entry to write to the audit log.
#[derive(Debug)]
pub struct AuditRecord {
    pub entity_type: String,
    pub entity_id: String,
    pub action: AuditAction,
    pub changes: AuditChanges,
}

/// The view of an optional string.
pub open spec fn ostr(o: Option<String>) -> Option<Seq<char>> {
    match o {
        Some(s) => Some(s@),
        None => None,
    }
}

fn copy_opt(o: &Option<String>) -> (r: Option<String>)
    ensures
        ostr(r) == ostr(*o),
{
    match o {
        Some(s) => Some(s.clone()),
        None => None,
    }
}

fn record(entity_type: &str, entity_id: &str, action: AuditAction, changes: AuditChanges) -> (r: AuditRecord)
    ensures
        r.entity_type@ == entity_type@,
        r.entity_id@ == entity_id@,
        r.action == action,
        r.changes == changes,
{
    AuditRecord { entity_type: owned(entity_type), entity_id: owned(entity_id), action, changes }
}

/// The audit entry of a created asset: its title and tag count.
pub fn asset_created(asset: &Asset) -> (r: AuditRecord)
    ensures
        r.entity_type@ == "asset"@,
        r.entity_id@ == asset.id@,
        r.action == AuditAction::Create,
        r.changes matches AuditChanges::AssetCreated { title, tag_count } && title@ == asset.title@ && tag_count
            == asset.tags@.len(),
{
    record(
        "asset",
        asset.id.as_str(),
        AuditAction::Create,
        AuditChanges::AssetCreated { title: asset.title.clone(), tag_count: asset.tags.len() },
    )
}

/// The audit entry of an asset update: the previous title and content and
/// the requested ones.
pub fn asset_updated(id: &str, old: &Asset, request: &UpdateAssetRequest) -> (r: AuditRecord)
    ensures
        r.entity_type@ == "asset"@,
        r.entity_id@ == id@,
        r.action == AuditAction::Update,
        r.changes matches AuditChanges::AssetUpdated { old_title, old_content, new_title, new_content }
            && old_title@ == old.title@ && ostr(old_content) == ostr(old.content) && ostr(new_title) == ostr(
            request.title,
        ) && ostr(new_content) == ostr(request.content),
{
    record(
        "asset",
        id,
        AuditAction::Update,
        AuditChanges::AssetUpdated {
            old_title: old.title.clone(),
            old_content: copy_opt(&old.content),
            new_title: copy_opt(&request.title),
            new_content: copy_opt(&request.content),
        },
    )
}

/// The audit entry of a deleted entity of the given type.
pub fn deleted(entity_type: &str, id: &str) -> (r: AuditRecord)
    ensures
        r.entity_type@ == entity_type@,
        r.entity_id@ == id@,
        r.action == AuditAction::Delete,
        r.changes == AuditChanges::Nothing,
{
    record(entity_type, id, AuditAction::Delete, AuditChanges::Nothing)
}

/// The audit entry of a tag added to an asset.
pub fn tag_added(asset_id: &str, tag: &Tag) -> (r: AuditRecord)
    ensures
        r.entity_type@ == "asset"@,
        r.entity_id@ == asset_id@,
        r.action == AuditAction::AddTag,
        r.changes matches AuditChanges::TagAdded { tag_id, category, value } && tag_id@ == tag.id@ && category@
            == tag.category@ && value@ == tag.value@,
{
    record(
        "asset",
        asset_id,
        AuditAction::AddTag,
        AuditChanges::TagAdded { tag_id: tag.id.clone(), category: tag.category.clone(), value: tag.value.clone() },
    )
}

/// The audit entry of a tag removed from an asset.
pub fn tag_removed(asset_id: &str, tag_id: &str) -> (r: AuditRecord)
    ensures
        r.entity_type@ == "asset"@,
        r.entity_id@ == asset_id@,
        r.action == AuditAction::RemoveTag,
        r.changes matches AuditChanges::TagRemoved { tag_id: t } && t@ == tag_id@,
{
    record("asset", asset_id, AuditAction::RemoveTag, AuditChanges::TagRemoved { tag_id: owned(tag_id) })
}

fn relation_changes(relation: &Relation) -> (c: AuditChanges)
    ensures
        c matches AuditChanges::Relation { from_asset_id, to_asset_id, relation_type } && from_asset_id@
            == relation.from_asset_id@ && to_asset_id@ == relation.to_asset_id@ && relation_type@
            == crate::models::relation::relation_type_name(relation.relation_type),
{
    AuditChanges::Relation {
        from_asset_id: relation.from_asset_id.clone(),
        to_asset_id: relation.to_asset_id.clone(),
        relation_type: relation.relation_type.to_string(),
    }
}

/// The audit entry of a created relation: its ends and type.
pub fn relation_created(relation: &Relation) -> (r: AuditRecord)
    ensures
        r.entity_type@ == "relation"@,
        r.entity_id@ == relation.id@,
        r.action == AuditAction::Create,
        r.changes matches AuditChanges::Relation { from_asset_id, to_asset_id, relation_type } && from_asset_id@
            == relation.from_asset_id@ && to_asset_id@ == relation.to_asset_id@ && relation_type@
            == crate::models::relation::relation_type_name(relation.relation_type),
{
    record("relation", relation.id.as_str(), AuditAction::Create, relation_changes(relation))
}

/// The audit entry of a removed relation: its ends and type.
pub fn relation_removed(id: &str, relation: &Relation) -> (r: AuditRecord)
    ensures
        r.entity_type@ == "relation"@,
        r.entity_id@ == id@,
        r.action == AuditAction::RemoveRelation,
        r.changes matches AuditChanges::Relation { from_asset_id, to_asset_id, relation_type } && from_asset_id@
            == relation.from_asset_id@ && to_asset_id@ == relation.to_asset_id@ && relation_type@
            == crate::models::relation::relation_type_name(relation.relation_type),
{
    record("relation", id, AuditAction::RemoveRelation, relation_changes(relation))
}

/// The audit entry of a created collection: its name.
pub fn collection_created(collection: &Collection) -> (r: AuditRecord)
    ensures
        r.entity_type@ == "collection"@,
        r.entity_id@ == collection.id@,
        r.action == AuditAction::Create,
        r.changes matches AuditChanges::CollectionCreated { name } && name@ == collection.name@,
{
    record(
        "collection",
        collection.id.as_str(),
        AuditAction::Create,
        AuditChanges::CollectionCreated { name: collection.name.clone() },
    )
}

/// The audit entry of a collection update: the previous name and
/// description and the requested ones.
pub fn collection_updated(id: &str, old: &Collection, request: &UpdateCollectionRequest) -> (r: AuditRecord)
    ensures
        r.entity_type@ == "collection"@,
        r.entity_id@ == id@,
        r.action == AuditAction::Update,
        r.changes matches AuditChanges::CollectionUpdated { old_name, old_description, new_name, new_description }
            && old_name@ == old.name@ && ostr(old_description) == ostr(old.description) && ostr(new_name) == ostr(
            request.name,
        ) && ostr(new_description) == ostr(request.description),
{
    record(
        "collection",
        id,
        AuditAction::Update,
        AuditChanges::CollectionUpdated {
            old_name: old.name.clone(),
            old_description: copy_opt(&old.description),
            new_name: copy_opt(&request.name),
            new_description: copy_opt(&request.description),
        },
    )
}

/// The audit entry of an asset added to (`added`) or removed from a
/// collection.
pub fn membership_changed(collection_id: &str, asset_id: &str, added: bool) -> (r: AuditRecord)
    ensures
        r.entity_type@ == "collection"@,
        r.entity_id@ == collection_id@,
        r.action == (if added {
            AuditAction::AddToCollection
        } else {
            AuditAction::RemoveFromCollection
        }),
        r.changes matches AuditChanges::Membership { asset_id: a } && a@ == asset_id@,
{
    let action = if added {
        AuditAction::AddToCollection
    } else {
        AuditAction::RemoveFromCollection
    };
    record("collection", collection_id, action, AuditChanges::Membership { asset_id: owned(asset_id) })
}

// ---------------------------------------------------------------------------
// Deleting an asset
// ---------------------------------------------------------------------------

/// Where the deletion of an asset stands: the step last handed out.
#[derive(PartialEq, Eq, Structural, Clone, Copy, Debug)]
pub enum DeletionStage {
    Load,
    SoftDelete,
    DeleteRelations,
    RemoveFromCollections,
    Audit,
    Done,
}

/// What the deletion of an asset needs next. Each step is carried out, and
/// its failure ends the deletion with that error.
#[derive(Debug)]
pub enum DeletionStep {
    /// Load this live asset (refused as not found when there is none).
    Load(String),
    /// Mark this asset deleted.
    SoftDelete(String),
    /// Delete every relation from or to this asset.
    DeleteRelations(String),
    /// Take this asset out of every collection.
    RemoveFromCollections(String),
    /// Write this audit entry, by this user.
    Audit { record: AuditRecord, user_id: String },
    /// The asset is deleted.
    Done,
}

/// The deletion of one asset: load it, mark it deleted, drop its relations,
/// take it out of every collection, and record the deletion.
pub struct AssetDeletion {
    id: String,
    user_id: String,
    stage: DeletionStage,
}

/// The stage after a given one, in the order of a deletion.
pub open spec fn next_deletion_stage(s: DeletionStage) -> DeletionStage {
    match s {
        DeletionStage::Load => DeletionStage::SoftDelete,
        DeletionStage::SoftDelete => DeletionStage::DeleteRelations,
        DeletionStage::DeleteRelations => DeletionStage::RemoveFromCollections,
        DeletionStage::RemoveFromCollections => DeletionStage::Audit,
        _ => DeletionStage::Done,
    }
}

/// The step handed out on entering a stage of deleting asset `id` for
/// `user`.
pub open spec fn deletion_step_ok(step: DeletionStep, s: DeletionStage, id: Seq<char>, user: Seq<char>) -> bool {
    match s {
        DeletionStage::Load => step matches DeletionStep::Load(a) && a@ == id,
        DeletionStage::SoftDelete => step matches DeletionStep::SoftDelete(a) && a@ == id,
        DeletionStage::DeleteRelations => step matches DeletionStep::DeleteRelations(a) && a@ == id,
        DeletionStage::RemoveFromCollections => step matches DeletionStep::RemoveFromCollections(a) && a@ == id,
        DeletionStage::Audit => step matches DeletionStep::Audit { record, user_id } && record.entity_type@
            == "asset"@ && record.entity_id@ == id && record.action == AuditAction::Delete && record.changes
            == AuditChanges::Nothing && user_id@ == user,
        DeletionStage::Done => step is Done,
    }
}

impl AssetDeletion {
    pub closed spec fn id(&self) -> Seq<char> {
        self.id@
    }

    pub closed spec fn user(&self) -> Seq<char> {
        self.user_id@
    }

    pub closed spec fn stage(&self) -> DeletionStage {
        self.stage
    }

    /// Whether the deletion is complete.
    pub fn is_done(&self) -> (b: bool)
        ensures
            b == (self.stage() == DeletionStage::Done),
    {
        self.stage == DeletionStage::Done
    }

    /// Reports the last step carried out and returns the next one: after the
    /// asset is loaded it is marked deleted, then its relations are deleted,
    /// then it leaves every collection, then the deletion is recorded for
    /// the user; after that the deletion is done.
    pub fn on_done(self) -> (r: (AssetDeletion, DeletionStep))
        requires
            self.stage() != DeletionStage::Done,
        ensures
            r.0.id() == self.id(),
            r.0.user() == self.user(),
            r.0.stage() == next_deletion_stage(self.stage()),
            deletion_step_ok(r.1, r.0.stage(), self.id(), self.user()),
    {
        let AssetDeletion { id, user_id, stage } = self;
        match stage {
            DeletionStage::Load => {
                let step = DeletionStep::SoftDelete(id.clone());
                (AssetDeletion { id, user_id, stage: DeletionStage::SoftDelete }, step)
            },
            DeletionStage::SoftDelete => {
                let step = DeletionStep::DeleteRelations(id.clone());
                (AssetDeletion { id, user_id, stage: DeletionStage::DeleteRelations }, step)
            },
            DeletionStage::DeleteRelations => {
                let step = DeletionStep::RemoveFromCollections(id.clone());
                (AssetDeletion { id, user_id, stage: DeletionStage::RemoveFromCollections }, step)
            },
            DeletionStage::RemoveFromCollections => {
                let step = DeletionStep::Audit { record: deleted("asset", id.as_str()), user_id: user_id.clone() };
                (AssetDeletion { id, user_id, stage: DeletionStage::Audit }, step)
            },
            _ => (AssetDeletion { id, user_id, stage: DeletionStage::Done }, DeletionStep::Done),
        }
    }
}

// ---------------------------------------------------------------------------
// Creating a relation
// ---------------------------------------------------------------------------

/// Where the creation of a relation stands.
#[derive(PartialEq, Eq, Structural, Clone, Copy, Debug)]
pub enum CreationStage {
    /// Waiting to learn whether the source asset exists.
    Source,
    /// Waiting to learn whether the target asset exists.
    Target,
    /// Waiting to learn whether the relation would close a cycle.
    Cycle,
    /// Every check passed.
    Accepted,
    /// A check failed.
    Refused,
}

/// What the creation of a relation needs next.
#[derive(Debug)]
pub enum RelationStep {
    /// Answer whether this asset exists (soft-deleted ones included).
    CheckExists(String),
    /// Answer whether adding `from -> to` would close a cycle.
    CheckCycle { from: String, to: String },
    /// Store the relation.
    Create,
    /// Refuse the request with this error.
    Refuse(ApiError),
}

/// Business rules for relations.
pub struct RelationService;

impl RelationService {
    /// Begins creating the relation that `request` asks for: the first check
    /// made is whether the source asset exists.
    pub fn create(request: &CreateRelationRequest) -> (r: (RelationCreation, RelationStep))
        ensures
            r.0.from() == request.from_asset_id@,
            r.0.to() == request.to_asset_id@,
            r.0.stage() == CreationStage::Source,
            r.1 matches RelationStep::CheckExists(id) && id@ == request.from_asset_id@,
            r.0.answers() == Seq::<bool>::empty(),
    {
        let c = RelationCreation {
            from: request.from_asset_id.clone(),
            to: request.to_asset_id.clone(),
            stage: CreationStage::Source,
            answers: Ghost(Seq::empty()),
        };
        (c, RelationStep::CheckExists(request.from_asset_id.clone()))
    }
}

/// Where the creation of a relation ends up, as far as its answers go.
pub enum CreationOutcome {
    /// A further answer is needed.
    Pending,
    /// The relation is to be stored.
    Accepted,
    /// Refused as not found, with this message.
    NotFound(Seq<char>),
    /// Refused as invalid, with this message.
    Invalid(Seq<char>),
}

/// The outcome of creating `from -> to` given the answers so far — whether
/// the source exists, whether the target exists, whether the relation would
/// close a cycle — with the checks made in that order and the first failing
/// one deciding: a missing source, a missing target, a relation from an
/// asset to itself (checked once both exist), a cycle.
pub open spec fn creation_outcome(from: Seq<char>, to: Seq<char>, answers: Seq<bool>) -> CreationOutcome {
    if answers.len() == 0 {
        CreationOutcome::Pending
    } else if !answers[0] {
        CreationOutcome::NotFound(not_found_text("Source asset"@, from))
    } else if answers.len() == 1 {
        CreationOutcome::Pending
    } else if !answers[1] {
        CreationOutcome::NotFound(not_found_text("Target asset"@, to))
    } else if from == to {
        CreationOutcome::Invalid("Cannot create relation from asset to itself"@)
    } else if answers.len() == 2 {
        CreationOutcome::Pending
    } else if answers[2] {
        CreationOutcome::Invalid("Creating this relation would create a cycle"@)
    } else {
        CreationOutcome::Accepted
    }
}

/// The outcome a step of the creation stands for: a question leaves it
/// pending; `Create` accepts; a refusal refuses with its error.
pub open spec fn step_outcome(step: RelationStep) -> CreationOutcome {
    match step {
        RelationStep::CheckExists(_) => CreationOutcome::Pending,
        RelationStep::CheckCycle { .. } => CreationOutcome::Pending,
        RelationStep::Create => CreationOutcome::Accepted,
        RelationStep::Refuse(ApiError::NotFound(m)) => CreationOutcome::NotFound(m@),
        RelationStep::Refuse(ApiError::Validation(m)) => CreationOutcome::Invalid(m@),
        RelationStep::Refuse(_) => CreationOutcome::Pending,
    }
}

/// The checks made before a relation `from -> to` is stored, in order: the
/// source exists, the target exists, they differ, and the relation closes no
/// cycle. The first failing check refuses the request.
pub struct RelationCreation {
    from: String,
    to: String,
    stage: CreationStage,
    answers: Ghost<Seq<bool>>,
}

impl RelationCreation {
    pub closed spec fn from(&self) -> Seq<char> {
        self.from@
    }

    pub closed spec fn to(&self) -> Seq<char> {
        self.to@
    }

    pub closed spec fn stage(&self) -> CreationStage {
        self.stage
    }

    /// The answers received so far, in order.
    pub closed spec fn answers(&self) -> Seq<bool> {
        self.answers@
    }

    #[verifier::type_invariant]
    spec fn consistent(&self) -> bool {
        match self.stage {
            CreationStage::Source => self.answers@ == Seq::<bool>::empty(),
            CreationStage::Target => self.answers@ == seq![true],
            CreationStage::Cycle => self.answers@ == seq![true, true] && self.from@ != self.to@,
            CreationStage::Accepted => self.answers@ == seq![true, true, false] && self.from@ != self.to@,
            CreationStage::Refused => true,
        }
    }

    /// Whether the creation waits for an answer.
    pub fn awaiting_answer(&self) -> (b: bool)
        ensures
            b == (self.stage() == CreationStage::Source || self.stage() == CreationStage::Target || self.stage()
                == CreationStage::Cycle),
    {
        self.stage == CreationStage::Source || self.stage == CreationStage::Target || self.stage
            == CreationStage::Cycle
    }

    /// Hands over the answer to the last question and returns what is needed
    /// next. A missing source or target is refused as not found; a relation
    /// from an asset to itself, or one that would close a cycle, as invalid.
    pub fn on_answer(self, yes: bool) -> (r: (RelationCreation, RelationStep))
        requires
            self.stage() == CreationStage::Source || self.stage() == CreationStage::Target || self.stage()
                == CreationStage::Cycle,
        ensures
            r.0.from() == self.from(),
            r.0.to() == self.to(),
            r.0.answers() == self.answers().push(yes),
            self.stage() == CreationStage::Source ==> if yes {
                r.0.stage() == CreationStage::Target && (r.1 matches RelationStep::CheckExists(id) && id@ == self.to())
            } else {
                r.0.stage() == CreationStage::Refused && (r.1 matches RelationStep::Refuse(ApiError::NotFound(m)) && m@
                    == not_found_text("Source asset"@, self.from()))
            },
            self.stage() == CreationStage::Target ==> if !yes {
                r.0.stage() == CreationStage::Refused && (r.1 matches RelationStep::Refuse(ApiError::NotFound(m)) && m@
                    == not_found_text("Target asset"@, self.to()))
            } else if self.from() == self.to() {
                r.0.stage() == CreationStage::Refused && (r.1 matches RelationStep::Refuse(ApiError::Validation(m))
                    && m@ == "Cannot create relation from asset to itself"@)
            } else {
                r.0.stage() == CreationStage::Cycle && (r.1 matches RelationStep::CheckCycle { from, to } && from@
                    == self.from() && to@ == self.to())
            },
            self.stage() == CreationStage::Cycle ==> if yes {
                r.0.stage() == CreationStage::Refused && (r.1 matches RelationStep::Refuse(ApiError::Validation(m))
                    && m@ == "Creating this relation would create a cycle"@)
            } else {
                r.0.stage() == CreationStage::Accepted && r.1 is Create
            },
            r.1 is Create ==> r.0.answers() == seq![true, true, false] && r.0.from() != r.0.to(),
            step_outcome(r.1) == creation_outcome(r.0.from(), r.0.to(), r.0.answers()),
            (r.0.stage() == CreationStage::Accepted || r.0.stage() == CreationStage::Refused) <==> !(
            step_outcome(r.1) is Pending),
    {
        proof {
            use_type_invariant(&self);
        }
        let RelationCreation { from, to, stage, answers } = self;
        let answers = Ghost(answers@.push(yes));
        proof {
            if stage == CreationStage::Source {
                assert(answers@ =~= seq![yes]);
            } else if stage == CreationStage::Target {
                assert(answers@ =~= seq![true, yes]);
            } else {
                assert(answers@ =~= seq![true, true, yes]);
            }
        }
        match stage {
            CreationStage::Source => {
                if yes {
                    let next = RelationStep::CheckExists(to.clone());
                    (RelationCreation { from, to, stage: CreationStage::Target, answers }, next)
                } else {
                    let e = not_found("Source asset", from.as_str());
                    (RelationCreation { from, to, stage: CreationStage::Refused, answers }, RelationStep::Refuse(e))
                }
            },
            CreationStage::Target => {
                if !yes {
                    let e = not_found("Target asset", to.as_str());
                    (RelationCreation { from, to, stage: CreationStage::Refused, answers }, RelationStep::Refuse(e))
                } else if crate::text::str_eq(from.as_str(), to.as_str()) {
                    let e = ApiError::Validation(owned("Cannot create relation from asset to itself"));
                    (RelationCreation { from, to, stage: CreationStage::Refused, answers }, RelationStep::Refuse(e))
                } else {
                    let next = RelationStep::CheckCycle { from: from.clone(), to: to.clone() };
                    (RelationCreation { from, to, stage: CreationStage::Cycle, answers }, next)
                }
            },
            _ => {
                if yes {
                    let e = ApiError::Validation(owned("Creating this relation would create a cycle"));
                    (RelationCreation { from, to, stage: CreationStage::Refused, answers }, RelationStep::Refuse(e))
                } else {
                    (RelationCreation { from, to, stage: CreationStage::Accepted, answers }, RelationStep::Create)
                }
            },
        }
    }
}

// ---------------------------------------------------------------------------
// Changing an authorization context
// ---------------------------------------------------------------------------

/// Where a change of authorization context stands.
#[derive(PartialEq, Eq, Structural, Clone, Copy, Debug)]
pub enum UpdateStage {
    /// Waiting for the asset.
    LoadTarget,
    /// Waiting for the asset's new context to be stored.
    StoreTarget,
    /// Waiting for the asset's descendants.
    ListDescendants,
    /// Waiting for a descendant (or for the news that it cannot be loaded).
    LoadChild,
    /// Waiting for a descendant's new context to be stored (or to fail).
    StoreChild,
    /// Waiting for the audit entry to be written.
    Audit,
}

/// What a change of authorization context needs next.
#[derive(Debug)]
pub enum UpdateStep {
    /// Load this asset.
    Load(String),
    /// Store this context on this asset.
    Store { id: String, context: AuthContext },
    /// List the descendants of this asset.
    ListDescendants(String),
    /// Write this audit entry; the change is then complete.
    Audit(AuditRecord),
}

/// The audit entry of a changed authorization context.
pub open spec fn context_audit_ok(r: AuditRecord, id: Seq<char>, ctx: AuthContextView, cascade: bool, count: nat) -> bool {
    &&& r.entity_type@ == "asset"@
    &&& r.entity_id@ == id
    &&& r.action == AuditAction::Update
    &&& r.changes matches AuditChanges::AuthContextUpdated { auth_context, cascade: c, cascaded_count }
        && auth_context.view() == ctx && c == cascade && cascaded_count == count
}

/// A change of the authorization context of an asset, optionally cascaded
/// to its descendants. The asset's new context is its current one (or the
/// empty one) with the requested fields replaced; each descendant that can
/// be loaded gets the requested fields from the asset's new context and
/// keeps its other fields; descendants that cannot be loaded or stored are
/// skipped. The audit entry counts every descendant listed.
pub struct AuthContextUpdate {
    id: String,
    request: UpdateAuthContextRequest,
    stage: UpdateStage,
    merged: AuthContext,
    descendants: Vec<String>,
    next: usize,
}

impl AuthContextUpdate {
    pub closed spec fn id(&self) -> Seq<char> {
        self.id@
    }

    pub closed spec fn request(&self) -> UpdateAuthContextRequest {
        self.request
    }

    pub closed spec fn stage(&self) -> UpdateStage {
        self.stage
    }

    /// The asset's new context (meaningful once the asset was loaded).
    pub closed spec fn context(&self) -> AuthContextView {
        self.merged.view()
    }

    /// The descendants listed (meaningful once they were listed).
    pub closed spec fn descendants(&self) -> Seq<Seq<char>> {
        crate::graph::ids(self.descendants@)
    }

    /// The position of the descendant being handled.
    pub closed spec fn next(&self) -> nat {
        self.next as nat
    }

    #[verifier::type_invariant]
    spec fn consistent(&self) -> bool {
        &&& (self.stage == UpdateStage::LoadChild || self.stage == UpdateStage::StoreChild) ==> self.next
            < self.descendants@.len()
        &&& (self.stage == UpdateStage::LoadTarget || self.stage == UpdateStage::StoreTarget || self.stage
            == UpdateStage::ListDescendants) ==> self.descendants@.len() == 0
    }

    /// Starts the change: first, load the asset.
    pub fn start(id: &str, request: UpdateAuthContextRequest) -> (r: (AuthContextUpdate, UpdateStep))
        ensures
            r.0.id() == id@,
            r.0.request() == request,
            r.0.stage() == UpdateStage::LoadTarget,
            r.1 matches UpdateStep::Load(x) && x@ == id@,
    {
        let u = AuthContextUpdate {
            id: owned(id),
            request,
            stage: UpdateStage::LoadTarget,
            merged: AuthContext::new(),
            descendants: Vec::new(),
            next: 0,
        };
        (u, UpdateStep::Load(owned(id)))
    }

    fn audit_record(&self) -> (r: AuditRecord)
        ensures
            context_audit_ok(r, self.id@, self.merged.view(), self.request.cascade, self.descendants@.len()),
    {
        record(
            "asset",
            self.id.as_str(),
            AuditAction::Update,
            AuditChanges::AuthContextUpdated {
                auth_context: self.merged.duplicate(),
                cascade: self.request.cascade,
                cascaded_count: self.descendants.len(),
            },
        )
    }

    /// Whether the change is complete once the audit entry is written.
    pub fn is_auditing(&self) -> (b: bool)
        ensures
            b == (self.stage() == UpdateStage::Audit),
    {
        self.stage == UpdateStage::Audit
    }

    /// The stage of the change.
    pub fn current_stage(&self) -> (s: UpdateStage)
        ensures
            s == self.stage(),
    {
        self.stage
    }

    /// The next descendant to load, or the audit entry when none is left.
    fn advance(
        id: String,
        request: UpdateAuthContextRequest,
        merged: AuthContext,
        descendants: Vec<String>,
        next: usize,
    ) -> (r: (AuthContextUpdate, UpdateStep))
        requires
            next <= descendants@.len(),
        ensures
            r.0.id() == id@,
            r.0.request() == request,
            r.0.context() == merged.view(),
            r.0.descendants() == crate::graph::ids(descendants@),
            next < descendants@.len() ==> r.0.stage() == UpdateStage::LoadChild && r.0.next() == next && (r.1 matches UpdateStep::Load(
                x,
            ) && x@ == descendants@[next as int]@),
            next >= descendants@.len() ==> r.0.stage() == UpdateStage::Audit && (r.1 matches UpdateStep::Audit(a)
                && context_audit_ok(a, id@, merged.view(), request.cascade, descendants@.len())),
    {
        if next < descendants.len() {
            let child = descendants[next].clone();
            (
                AuthContextUpdate { id, request, stage: UpdateStage::LoadChild, merged, descendants, next },
                UpdateStep::Load(child),
            )
        } else {
            let u = AuthContextUpdate { id, request, stage: UpdateStage::Audit, merged, descendants, next };
            let a = u.audit_record();
            (u, UpdateStep::Audit(a))
        }
    }

    /// Hands over the loaded asset: the updated asset (which must have
    /// loaded) or a descendant (`None` when it could not be loaded).
    pub fn on_loaded(self, asset: Option<&Asset>) -> (r: (AuthContextUpdate, UpdateStep))
        requires
            self.stage() == UpdateStage::LoadTarget && asset is Some || self.stage() == UpdateStage::LoadChild,
        ensures
            r.0.id() == self.id(),
            r.0.request() == self.request(),
            r.0.descendants() == self.descendants(),
            self.stage() == UpdateStage::LoadTarget ==> {
                let merged = apply_patch(own_context(asset->0.auth_context), self.request().patch());
                &&& r.0.stage() == UpdateStage::StoreTarget
                &&& r.0.context() == merged
                &&& r.1 matches UpdateStep::Store { id, context } && id@ == self.id() && context.view() == merged
            },
            self.stage() == UpdateStage::LoadChild ==> r.0.context() == self.context() && match asset {
                Some(child) => {
                    &&& r.0.stage() == UpdateStage::StoreChild
                    &&& r.0.next() == self.next()
                    &&& r.1 matches UpdateStep::Store { id, context } && id@ == self.descendants()[self.next() as int]
                        && context.view() == apply_patch(
                        own_context(child.auth_context),
                        cascade_patch(self.context(), self.request().patch()),
                    )
                },
                None => if self.next() + 1 < self.descendants().len() {
                    &&& r.0.stage() == UpdateStage::LoadChild
                    &&& r.0.next() == self.next() + 1
                    &&& r.1 matches UpdateStep::Load(x) && x@ == self.descendants()[self.next() + 1int]
                } else {
                    &&& r.0.stage() == UpdateStage::Audit
                    &&& r.1 matches UpdateStep::Audit(a) && context_audit_ok(
                        a,
                        self.id(),
                        self.context(),
                        self.request().cascade,
                        self.descendants().len(),
                    )
                },
            },
    {
        proof {
            use_type_invariant(&self);
        }
        match self.stage {
            UpdateStage::LoadTarget => {
                let a = asset.unwrap();
                let merged = merge_auth_context(a.auth_context.as_ref(), &self.request);
                let context = merged.duplicate();
                let AuthContextUpdate { id, request, stage, merged: _, descendants, next } = self;
                let target = id.clone();
                (
                    AuthContextUpdate { id, request, stage: UpdateStage::StoreTarget, merged, descendants, next },
                    UpdateStep::Store { id: target, context },
                )
            },
            _ => match asset {
                Some(child) => {
                    let context = cascade_auth_context(child.auth_context.as_ref(), &self.merged, &self.request);
                    let child_id = self.descendants[self.next].clone();
                    assert(crate::graph::ids(self.descendants@)[self.next as int] == self.descendants@[self.next as int]@);
                    let AuthContextUpdate { id, request, stage, merged, descendants, next } = self;
                    (
                        AuthContextUpdate { id, request, stage: UpdateStage::StoreChild, merged, descendants, next },
                        UpdateStep::Store { id: child_id, context },
                    )
                },
                None => {
                    let AuthContextUpdate { id, request, stage, merged, descendants, next } = self;
                    proof {
                        if next + 1 < descendants@.len() {
                            assert(crate::graph::ids(descendants@)[next + 1] == descendants@[next + 1]@);
                        }
                    }
                    let n = descendants.len();
                    assert(next < n);
                    AuthContextUpdate::advance(id, request, merged, descendants, next + 1)
                },
            },
        }
    }

    /// The last stored context was written (for a descendant: or failed,
    /// which is ignored).
    pub fn on_stored(self) -> (r: (AuthContextUpdate, UpdateStep))
        requires
            self.stage() == UpdateStage::StoreTarget || self.stage() == UpdateStage::StoreChild,
        ensures
            r.0.id() == self.id(),
            r.0.request() == self.request(),
            r.0.context() == self.context(),
            r.0.descendants() == self.descendants(),
            self.stage() == UpdateStage::StoreTarget ==> if self.request().cascade {
                r.0.stage() == UpdateStage::ListDescendants && (r.1 matches UpdateStep::ListDescendants(x) && x@
                    == self.id())
            } else {
                r.0.stage() == UpdateStage::Audit && (r.1 matches UpdateStep::Audit(a) && context_audit_ok(
                    a,
                    self.id(),
                    self.context(),
                    false,
                    0,
                ))
            },
            self.stage() == UpdateStage::StoreChild ==> if self.next() + 1 < self.descendants().len() {
                &&& r.0.stage() == UpdateStage::LoadChild
                &&& r.0.next() == self.next() + 1
                &&& r.1 matches UpdateStep::Load(x) && x@ == self.descendants()[self.next() + 1int]
            } else {
                &&& r.0.stage() == UpdateStage::Audit
                &&& r.1 matches UpdateStep::Audit(a) && context_audit_ok(
                    a,
                    self.id(),
                    self.context(),
                    self.request().cascade,
                    self.descendants().len(),
                )
            },
    {
        proof {
            use_type_invariant(&self);
        }
        match self.stage {
            UpdateStage::StoreTarget => {
                if self.request.cascade {
                    let target = self.id.clone();
                    let AuthContextUpdate { id, request, stage, merged, descendants, next } = self;
                    (
                        AuthContextUpdate { id, request, stage: UpdateStage::ListDescendants, merged, descendants, next },
                        UpdateStep::ListDescendants(target),
                    )
                } else {
                    let AuthContextUpdate { id, request, stage, merged, descendants, next } = self;
                    let u = AuthContextUpdate { id, request, stage: UpdateStage::Audit, merged, descendants, next };
                    let a = u.audit_record();
                    (u, UpdateStep::Audit(a))
                }
            },
            _ => {
                let AuthContextUpdate { id, request, stage, merged, descendants, next } = self;
                proof {
                    if next + 1 < descendants@.len() {
                        assert(crate::graph::ids(descendants@)[next + 1] == descendants@[next + 1]@);
                    }
                }
                let n = descendants.len();
                assert(next < n);
                AuthContextUpdate::advance(id, request, merged, descendants, next + 1)
            },
        }
    }

    /// Hands over the descendants of the asset.
    pub fn on_descendants(self, descendants: Vec<String>) -> (r: (AuthContextUpdate, UpdateStep))
        requires
            self.stage() == UpdateStage::ListDescendants,
        ensures
            r.0.id() == self.id(),
            r.0.request() == self.request(),
            r.0.context() == self.context(),
            r.0.descendants() == crate::graph::ids(descendants@),
            descendants@.len() > 0 ==> r.0.stage() == UpdateStage::LoadChild && r.0.next() == 0 && (r.1 matches UpdateStep::Load(
                x,
            ) && x@ == descendants@[0]@),
            descendants@.len() == 0 ==> r.0.stage() == UpdateStage::Audit && (r.1 matches UpdateStep::Audit(a)
                && context_audit_ok(a, self.id(), self.context(), self.request().cascade, 0)),
    {
        let AuthContextUpdate { id, request, stage: _, merged, descendants: _, next: _ } = self;
        AuthContextUpdate::advance(id, request, merged, descendants, 0)
    }
}

} // verus!
