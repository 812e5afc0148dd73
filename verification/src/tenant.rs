//! Multi-tenant routing with nested (workspace) instances.
//!
//! Each instance has its own database file, laid out under an instances
//! directory as `{dir}/{workspace}/pdt.db` for a workspace and
//! `{dir}/{workspace}/{child}/pdt.db` for a child instance. Instance ids come
//! from request headers and paths and are used to build file paths, so they
//! must be bare UUIDs. This module holds the id validation, the path layout
//! and the decisions of provisioning, routing, deletion and listing; the
//! file-system probes they decide on are made by the caller.

use vstd::prelude::*;

use crate::text::{concat_str, eq_ignore_ascii_case, owned, str_eq};

verus! {

// ---------------------------------------------------------------------------
// Instance ids
// ---------------------------------------------------------------------------

/// A hexadecimal digit.
pub open spec fn is_hex_char(c: char) -> bool {
    ('0' <= c && c <= '9') || ('a' <= c && c <= 'f') || ('A' <= c && c <= 'F')
}

/// Positions of the hyphens of a hyphenated UUID.
pub open spec fn is_hyphen_position(i: int) -> bool {
    i == 8 || i == 13 || i == 18 || i == 23
}

/// A hyphenated UUID: 36 characters, hyphens at positions 8, 13, 18 and 23
/// and hexadecimal digits elsewhere.
pub open spec fn is_hyphenated_uuid(s: Seq<char>) -> bool {
    &&& s.len() == 36
    &&& forall|i: int| 0 <= i < 36 ==> if is_hyphen_position(i) {
        #[trigger] s[i] == '-'
    } else {
        is_hex_char(s[i])
    }
}

/// The texts `uuid::Uuid::parse_str` accepts: 32 hexadecimal digits; a
/// hyphenated UUID; a hyphenated UUID in braces; or `urn:uuid:` (in any
/// ASCII case) followed by a hyphenated UUID.
pub open spec fn is_uuid_text(s: Seq<char>) -> bool {
    ||| (s.len() == 32 && forall|i: int| 0 <= i < 32 ==> is_hex_char(#[trigger] s[i]))
    ||| is_hyphenated_uuid(s)
    ||| (s.len() == 38 && s[0] == '{' && s[37] == '}' && is_hyphenated_uuid(s.subrange(1, 37)))
    ||| (s.len() == 45 && eq_ignore_ascii_case(s.take(9), "urn:uuid:"@) && is_hyphenated_uuid(s.skip(9)))
}

/// `uuid::Uuid::parse_str`: `None` when `id` parses, else the text of the
/// parse error. The parser (uuid's `parser.rs`) dispatches on the byte
/// length: 32 bytes must all be hexadecimal digits; 36 bytes must be a
/// hyphenated UUID; 38 bytes a hyphenated UUID between `{` and `}`; 45
/// bytes `urn:uuid:` (ASCII case-insensitive) and a hyphenated UUID; any
/// other length fails. Every byte it accepts is ASCII, so this is
/// `is_uuid_text` over the characters. What the error text says is not
/// stated.
#[verifier::external_body]
fn uuid_parse_error(id: &str) -> (r: Option<String>)
    ensures
        r is None <==> is_uuid_text(id@),
{
    match uuid::Uuid::parse_str(id) {
        Ok(_) => None,
        Err(e) => Some(e.to_string()),
    }
}

/// Why an instance operation was refused.
#[derive(Debug)]
pub enum TenantError {
    /// The id is not a UUID; `reason` is the parser's message.
    InvalidInstanceId { id: String, reason: String },
    /// A child was provisioned under a workspace that has no database.
    ParentNotProvisioned { parent: String, parent_db: String },
    /// No instance directory has this id.
    InstanceNotFound { id: String },
}

impl TenantError {
    /// The HTTP status of the refusal: 400 for a bad id or a missing parent,
    /// 404 for an unknown instance.
    pub fn status(&self) -> (code: u16)
        ensures
            code == match self {
                TenantError::InvalidInstanceId { .. } => 400u16,
                TenantError::ParentNotProvisioned { .. } => 400u16,
                TenantError::InstanceNotFound { .. } => 404u16,
            },
    {
        match self {
            TenantError::InvalidInstanceId { .. } => 400,
            TenantError::ParentNotProvisioned { .. } => 400,
            TenantError::InstanceNotFound { .. } => 404,
        }
    }

    /// The message of the refusal.
    pub fn message(&self) -> (m: String)
        ensures
            m@ == tenant_error_text(*self),
    {
        match self {
            TenantError::InvalidInstanceId { id, reason } => {
                let a = concat_str("invalid instance id (not a UUID): ", id.as_str());
                let b = concat_str(a.as_str(), " (");
                let c = concat_str(b.as_str(), reason.as_str());
                concat_str(c.as_str(), ")")
            },
            TenantError::ParentNotProvisioned { parent, parent_db } => {
                let a = concat_str("Parent workspace ", parent.as_str());
                let b = concat_str(a.as_str(), " is not provisioned (missing \"");
                let c = concat_str(b.as_str(), parent_db.as_str());
                concat_str(c.as_str(), "\")")
            },
            TenantError::InstanceNotFound { id } => {
                let a = concat_str("Instance ", id.as_str());
                concat_str(a.as_str(), " not found on disk")
            },
        }
    }
}

/// The message of a refusal.
pub open spec fn tenant_error_text(e: TenantError) -> Seq<char> {
    match e {
        TenantError::InvalidInstanceId { id, reason } => "invalid instance id (not a UUID): "@ + id@ + " ("@
            + reason@ + ")"@,
        TenantError::ParentNotProvisioned { parent, parent_db } => "Parent workspace "@ + parent@
            + " is not provisioned (missing \""@ + parent_db@ + "\")"@,
        TenantError::InstanceNotFound { id } => "Instance "@ + id@ + " not found on disk"@,
    }
}

/// Checks that an instance id is a bare UUID, the only form that is safe to
/// use as a path component.
pub fn validate_uuid(id: &str) -> (r: Result<(), TenantError>)
    ensures
        r is Ok <==> is_uuid_text(id@),
        r matches Err(TenantError::InvalidInstanceId { id: bad, .. }) ==> bad@ == id@,
        r is Err ==> r matches Err(TenantError::InvalidInstanceId { .. }),
{
    match uuid_parse_error(id) {
        None => Ok(()),
        Some(reason) => Err(TenantError::InvalidInstanceId { id: owned(id), reason }),
    }
}

/// An accepted instance id holds no `/`, `\` or `.`, so joined to a directory
/// it names exactly one entry inside that directory and never leaves it.
pub proof fn law_uuid_is_path_safe(s: Seq<char>)
    requires
        is_uuid_text(s),
    ensures
        !s.contains('/'),
        !s.contains('\\'),
        !s.contains('.'),
{
    reveal_strlit("urn:uuid:");
    assert forall|i: int| 0 <= i < s.len() implies s[i] != '/' && s[i] != '\\' && s[i] != '.' by {
        if s.len() == 32 {
            assert(is_hex_char(s[i]));
        } else if s.len() == 36 {
            if is_hyphen_position(i) {
                assert(s[i] == '-');
            } else {
                assert(is_hex_char(s[i]));
            }
        } else if s.len() == 38 {
            if 1 <= i < 37 {
                let t = s.subrange(1, 37);
                assert(t[i - 1] == s[i]);
                if is_hyphen_position(i - 1) {
                    assert(t[i - 1] == '-');
                } else {
                    assert(is_hex_char(t[i - 1]));
                }
            }
        } else {
            if i < 9 {
                let p = s.take(9);
                assert(crate::text::ascii_lower(p[i]) == crate::text::ascii_lower("urn:uuid:"@[i]));
            } else {
                let t = s.skip(9);
                assert(t[i - 9] == s[i]);
                if is_hyphen_position(i - 9) {
                    assert(t[i - 9] == '-');
                } else {
                    assert(is_hex_char(t[i - 9]));
                }
            }
        }
    }
}

// ---------------------------------------------------------------------------
// Tenant context
// ---------------------------------------------------------------------------

/// The instance a request is routed to (its `X-Instance-Id` header); none
/// routes to the global database.
#[derive(Debug)]
pub struct TenantContext {
    pub instance_id: Option<String>,
}

impl TenantContext {
    /// The instance id, if the request names one.
    pub fn instance_id(&self) -> (r: Option<&str>)
        ensures
            match r {
                Some(s) => self.instance_id matches Some(i) && s@ == i@,
                None => self.instance_id is None,
            },
    {
        match &self.instance_id {
            Some(i) => Some(i.as_str()),
            None => None,
        }
    }

    /// Whether the request is for a specific instance.
    pub fn is_tenant(&self) -> (b: bool)
        ensures
            b == self.instance_id is Some,
    {
        self.instance_id.is_some()
    }
}

impl Default for TenantContext {
    /// No instance: the global database.
    fn default() -> (c: TenantContext)
        ensures
            c.instance_id is None,
    {
        TenantContext { instance_id: None }
    }
}

// ---------------------------------------------------------------------------
// Layout
// ---------------------------------------------------------------------------

/// `dir` extended with the relative component `name` (`Path::join` on Unix:
/// a separator is inserted unless `dir` is empty or already ends with one).
pub open spec fn join_path(dir: Seq<char>, name: Seq<char>) -> Seq<char> {
    if dir.len() == 0 || dir.last() == '/' {
        dir + name
    } else {
        dir + seq!['/'] + name
    }
}

/// `dir` extended with the relative component `name`.
pub fn join(dir: &str, name: &str) -> (p: String)
    ensures
        p@ == join_path(dir@, name@),
{
    let v = crate::text::chars_of(dir);
    if v.len() == 0 || v[v.len() - 1] == '/' {
        concat_str(dir, name)
    } else {
        let with_sep = concat_str(dir, "/");
        proof {
            reveal_strlit("/");
        }
        concat_str(with_sep.as_str(), name)
    }
}

/// The directory of an instance directly under `dir`.
pub open spec fn instance_dir(dir: Seq<char>, id: Seq<char>) -> Seq<char> {
    join_path(dir, id)
}

/// The database file of a directory.
pub open spec fn db_file(d: Seq<char>) -> Seq<char> {
    join_path(d, "pdt.db"@)
}

/// The database file inside a directory.
pub fn db_path_in(d: &str) -> (p: String)
    ensures
        p@ == db_file(d@),
{
    join(d, "pdt.db")
}

/// What a scan of the instances directory saw of one entry.
#[derive(Debug)]
pub struct EntryProbe {
    /// The entry's name.
    pub name: String,
    /// Whether the entry is a directory.
    pub is_dir: bool,
    /// Whether `{entry}/{id}/pdt.db` exists, for the id being looked for.
    pub child_db_exists: bool,
    /// Whether `{entry}/{id}` is a directory, for the id being looked for.
    pub child_is_dir: bool,
}

/// The first scanned entry holding the instance's database, as an index.
pub open spec fn first_with_child_db(entries: Seq<EntryProbe>) -> Option<int> {
    if exists|i: int| 0 <= i < entries.len() && holds_child_db(entries[i]) {
        Some(
            choose|i: int|
                0 <= i < entries.len() && holds_child_db(entries[i]) && forall|j: int|
                    0 <= j < i ==> !holds_child_db(#[trigger] entries[j]),
        )
    } else {
        None
    }
}

/// The first scanned entry holding the instance's directory, as an index.
pub open spec fn first_with_child_dir(entries: Seq<EntryProbe>) -> Option<int> {
    if exists|i: int| 0 <= i < entries.len() && holds_child_dir(entries[i]) {
        Some(
            choose|i: int|
                0 <= i < entries.len() && holds_child_dir(entries[i]) && forall|j: int|
                    0 <= j < i ==> !holds_child_dir(#[trigger] entries[j]),
        )
    } else {
        None
    }
}

/// A scanned entry holds the instance as a child directory.
pub open spec fn holds_child_dir(e: EntryProbe) -> bool {
    e.child_is_dir
}

/// A nested instance database was found in this entry.
pub open spec fn holds_child_db(e: EntryProbe) -> bool {
    e.is_dir && e.child_db_exists
}

/// The database of an instance: its workspace-level file when that exists;
/// otherwise the file of the first scanned workspace that holds it as a
/// child; otherwise the workspace-level file, which is then created (only
/// workspaces are provisioned lazily).
pub open spec fn located_db(dir: Seq<char>, id: Seq<char>, top_exists: bool, entries: Seq<EntryProbe>) -> Seq<char> {
    if top_exists {
        db_file(instance_dir(dir, id))
    } else {
        match first_with_child_db(entries) {
            Some(i) => db_file(join_path(join_path(dir, entries[i].name@), id)),
            None => db_file(instance_dir(dir, id)),
        }
    }
}

/// Chooses the database of an instance from what the scan saw (see
/// `located_db`).
pub fn locate_db(dir: &str, id: &str, top_exists: bool, entries: &Vec<EntryProbe>) -> (p: String)
    ensures
        p@ == located_db(dir@, id@, top_exists, entries@),
{
    let top = join(dir, id);
    if top_exists {
        return db_path_in(top.as_str());
    }
    let n = entries.len();
    for i in 0..n
        invariant
            n == entries@.len(),
            !top_exists,
            forall|j: int| 0 <= j < i ==> !holds_child_db(#[trigger] entries@[j]),
    {
        if entries[i].is_dir && entries[i].child_db_exists {
            proof {
                assert(holds_child_db(entries@[i as int]));
                let w = choose|k: int|
                    0 <= k < entries@.len() && holds_child_db(entries@[k]) && forall|j: int|
                        0 <= j < k ==> !holds_child_db(#[trigger] entries@[j]);
                assert(w == i) by {
                    if w < i {
                        assert(!holds_child_db(entries@[w]));
                    }
                    if w > i {
                        assert(!holds_child_db(entries@[i as int]));
                    }
                }
                assert(exists|k: int| 0 <= k < entries@.len() && holds_child_db(entries@[k]));
                assert(first_with_child_db(entries@) == Some(i as int));
            }
            let parent = join(dir, entries[i].name.as_str());
            let child = join(parent.as_str(), id);
            return db_path_in(child.as_str());
        }
    }
    proof {
        assert(!(exists|k: int| 0 <= k < entries@.len() && holds_child_db(entries@[k])));
    }
    db_path_in(top.as_str())
}

// ---------------------------------------------------------------------------
// Provisioning
// ---------------------------------------------------------------------------

/// Where an instance is provisioned.
#[derive(Debug)]
pub struct ProvisionPlan {
    /// The database file to create.
    pub db_path: String,
    /// The parent workspace and its database file, for a child instance.
    pub parent: Option<(String, String)>,
}

/// What provisioning does once the files were probed.
#[derive(PartialEq, Eq, Structural, Clone, Copy, Debug)]
pub enum ProvisionAction {
    /// The database exists already: nothing to do.
    AlreadyProvisioned,
    /// Create and migrate the database.
    Create,
}

/// The database file of an instance provisioned under `parent` (a child) or
/// at the top level (a workspace).
pub open spec fn provision_db(dir: Seq<char>, id: Seq<char>, parent: Option<Seq<char>>) -> Seq<char> {
    match parent {
        None => db_file(instance_dir(dir, id)),
        Some(p) => db_file(join_path(instance_dir(dir, p), id)),
    }
}

impl ProvisionPlan {
    /// Plans provisioning `instance_id`, as a child of `parent_id` when one
    /// is given: both ids must be UUIDs (the instance id is checked first).
    pub fn new(dir: &str, instance_id: &str, parent_id: Option<&str>) -> (r: Result<ProvisionPlan, TenantError>)
        ensures
            r is Ok <==> is_uuid_text(instance_id@) && (parent_id matches Some(p) ==> is_uuid_text(p@)),
            !is_uuid_text(instance_id@) ==> (r matches Err(TenantError::InvalidInstanceId { id, .. }) && id@
                == instance_id@),
            is_uuid_text(instance_id@) ==> match parent_id {
                Some(p) => !is_uuid_text(p@) ==> (r matches Err(TenantError::InvalidInstanceId { id, .. }) && id@
                    == p@),
                None => true,
            },
            r matches Ok(plan) ==> plan.db_path@ == provision_db(
                dir@,
                instance_id@,
                crate::query::opt_str(parent_id),
            ) && match parent_id {
                Some(p) => plan.parent matches Some(pp) && pp.0@ == p@ && pp.1@ == db_file(instance_dir(dir@, p@)),
                None => plan.parent is None,
            },
    {
        match validate_uuid(instance_id) {
            Err(e) => return Err(e),
            Ok(()) => {},
        }
        match parent_id {
            None => {
                let d = join(dir, instance_id);
                Ok(ProvisionPlan { db_path: db_path_in(d.as_str()), parent: None })
            },
            Some(p) => {
                match validate_uuid(p) {
                    Err(e) => return Err(e),
                    Ok(()) => {},
                }
                let parent_dir = join(dir, p);
                let parent_db = db_path_in(parent_dir.as_str());
                let child_dir = join(parent_dir.as_str(), instance_id);
                Ok(ProvisionPlan { db_path: db_path_in(child_dir.as_str()), parent: Some((owned(p), parent_db)) })
            },
        }
    }

    /// Decides provisioning from the probes: a child whose parent database is
    /// missing is refused; an existing database is left as it is
    /// (provisioning is idempotent); otherwise the database is created.
    pub fn decide(&self, parent_db_exists: bool, db_exists: bool) -> (r: Result<ProvisionAction, TenantError>)
        ensures
            match self.parent {
                Some(pp) => !parent_db_exists ==> (r matches Err(TenantError::ParentNotProvisioned { parent, parent_db })
                    && parent@ == pp.0@ && parent_db@ == pp.1@),
                None => true,
            },
            (self.parent is None || parent_db_exists) ==> r == (if db_exists {
                Ok::<ProvisionAction, TenantError>(ProvisionAction::AlreadyProvisioned)
            } else {
                Ok::<ProvisionAction, TenantError>(ProvisionAction::Create)
            }),
    {
        match &self.parent {
            Some((p, pdb)) => {
                if !parent_db_exists {
                    return Err(TenantError::ParentNotProvisioned { parent: p.clone(), parent_db: pdb.clone() });
                }
            },
            None => {},
        }
        if db_exists {
            Ok(ProvisionAction::AlreadyProvisioned)
        } else {
            Ok(ProvisionAction::Create)
        }
    }
}

/// The message of a successful provisioning.
pub fn provision_message(nested: bool) -> (m: String)
    ensures
        m@ == (if nested {
            "Nested instance database created and migrated"@
        } else {
            "Instance database created and migrated"@
        }),
{
    if nested {
        owned("Nested instance database created and migrated")
    } else {
        owned("Instance database created and migrated")
    }
}

// ---------------------------------------------------------------------------
// Deletion
// ---------------------------------------------------------------------------

/// The directory removed when deleting an instance: the workspace directory
/// when it exists, otherwise the child directory inside the first scanned
/// entry holding it; `None` when neither exists.
pub open spec fn delete_target_spec(dir: Seq<char>, id: Seq<char>, top_is_dir: bool, entries: Seq<EntryProbe>) -> Option<
    Seq<char>,
> {
    if top_is_dir {
        Some(instance_dir(dir, id))
    } else {
        match first_with_child_dir(entries) {
            Some(i) => Some(join_path(join_path(dir, entries[i].name@), id)),
            None => None,
        }
    }
}

/// Chooses the directory to remove for an instance (see
/// `delete_target_spec`); an instance found nowhere is refused.
pub fn delete_target(dir: &str, id: &str, top_is_dir: bool, entries: &Vec<EntryProbe>) -> (r: Result<String, TenantError>)
    ensures
        match delete_target_spec(dir@, id@, top_is_dir, entries@) {
            Some(t) => r matches Ok(p) && p@ == t,
            None => r matches Err(TenantError::InstanceNotFound { id: bad }) && bad@ == id@,
        },
{
    if top_is_dir {
        return Ok(join(dir, id));
    }
    let n = entries.len();
    for i in 0..n
        invariant
            n == entries@.len(),
            !top_is_dir,
            forall|j: int| 0 <= j < i ==> !holds_child_dir(#[trigger] entries@[j]),
    {
        if entries[i].child_is_dir {
            proof {
                assert(holds_child_dir(entries@[i as int]));
                let w = choose|k: int|
                    0 <= k < entries@.len() && holds_child_dir(entries@[k]) && forall|j: int|
                        0 <= j < k ==> !holds_child_dir(#[trigger] entries@[j]);
                assert(w == i) by {
                    if w < i {
                        assert(!holds_child_dir(entries@[w]));
                    }
                    if w > i {
                        assert(!holds_child_dir(entries@[i as int]));
                    }
                }
                assert(exists|k: int| 0 <= k < entries@.len() && holds_child_dir(entries@[k]));
                assert(first_with_child_dir(entries@) == Some(i as int));
            }
            let parent = join(dir, entries[i].name.as_str());
            return Ok(join(parent.as_str(), id));
        }
    }
    proof {
        assert(!(exists|k: int| 0 <= k < entries@.len() && holds_child_dir(entries@[k])));
    }
    Err(TenantError::InstanceNotFound { id: owned(id) })
}

/// The cached instances dropped when a directory is deleted: the instance
/// itself, then every entry name inside the removed directory.
pub fn evicted_ids(id: &str, names_inside: &Vec<String>) -> (r: Vec<String>)
    ensures
        crate::models::auth_context::strings_view(r@) == seq![id@] + crate::models::auth_context::strings_view(
            names_inside@,
        ),
{
    let mut out: Vec<String> = Vec::new();
    out.push(owned(id));
    let n = names_inside.len();
    for i in 0..n
        invariant
            n == names_inside@.len(),
            crate::models::auth_context::strings_view(out@) == seq![id@] + crate::models::auth_context::strings_view(
                names_inside@.take(i as int),
            ),
    {
        let ghost before = out@;
        out.push(names_inside[i].clone());
        assert(crate::models::auth_context::strings_view(out@) =~= crate::models::auth_context::strings_view(before).push(
            names_inside@[i as int]@,
        ));
        assert(crate::models::auth_context::strings_view(names_inside@.take(i + 1)) =~= crate::models::auth_context::strings_view(
            names_inside@.take(i as int),
        ).push(names_inside@[i as int]@));
    }
    assert(names_inside@.take(n as int) =~= names_inside@);
    out
}

// ---------------------------------------------------------------------------
// Listing
// ---------------------------------------------------------------------------

/// What a scan saw of one child entry of a workspace directory.
#[derive(Debug)]
pub struct ChildProbe {
    pub name: String,
    pub is_dir: bool,
    /// Whether the child directory holds a database file.
    pub has_db: bool,
}

/// What a scan saw of one entry of the instances directory.
#[derive(Debug)]
pub struct WorkspaceProbe {
    pub name: String,
    pub is_dir: bool,
    /// Whether the directory holds its own database file.
    pub has_db: bool,
    /// The entries inside the directory.
    pub children: Vec<ChildProbe>,
}

/// All instance ids known: the cached ones and the provisioned instances on
/// disk, each once (cached ones first).
pub fn merge_instance_ids(cached: &Vec<String>, scanned: &Vec<String>) -> (r: Vec<String>)
    ensures
        crate::graph::ids(r@) == crate::graph::absorb(
            crate::graph::absorb(Seq::empty(), crate::graph::ids(cached@)),
            crate::graph::ids(scanned@),
        ),
        crate::graph::distinct(crate::graph::ids(r@)),
        forall|t: Seq<char>| #[trigger] crate::graph::ids(r@).contains(t) <==> (crate::graph::ids(cached@).contains(
            t,
        ) || crate::graph::ids(scanned@).contains(t)),
{
    let mut out: Vec<String> = Vec::new();
    assert(crate::graph::ids(out@) =~= Seq::<Seq<char>>::empty());
    crate::graph::absorb_into(&mut out, cached);
    crate::graph::absorb_into(&mut out, scanned);
    proof {
        let e = Seq::<Seq<char>>::empty();
        crate::graph::lemma_absorb(e, crate::graph::ids(cached@));
        crate::graph::lemma_absorb(crate::graph::absorb(e, crate::graph::ids(cached@)), crate::graph::ids(scanned@));
    }
    out
}

/// A provisioned workspace (`None`) or a provisioned child of it.
pub type TreeEntry = (Seq<char>, Option<Seq<char>>);

/// The provisioned children of a workspace among its scanned entries.
pub open spec fn child_entries(ws: Seq<char>, cs: Seq<ChildProbe>) -> Seq<TreeEntry>
    decreases cs.len(),
{
    if cs.len() == 0 {
        Seq::empty()
    } else {
        let prev = child_entries(ws, cs.drop_last());
        let c = cs.last();
        if c.is_dir && c.has_db {
            prev.push((ws, Some(c.name@)))
        } else {
            prev
        }
    }
}

/// The tree entries of one scanned entry: nothing unless it is a directory;
/// the workspace itself when it holds a database, then its provisioned
/// children.
pub open spec fn workspace_entries(w: WorkspaceProbe) -> Seq<TreeEntry> {
    if !w.is_dir {
        Seq::empty()
    } else {
        (if w.has_db {
            seq![(w.name@, None::<Seq<char>>)]
        } else {
            Seq::empty()
        }) + child_entries(w.name@, w.children@)
    }
}

/// The tree entries of a scan, in scan order.
pub open spec fn tree_entries(ws: Seq<WorkspaceProbe>) -> Seq<TreeEntry>
    decreases ws.len(),
{
    if ws.len() == 0 {
        Seq::empty()
    } else {
        tree_entries(ws.drop_last()) + workspace_entries(ws.last())
    }
}

/// The view of tree entries.
pub open spec fn entries_view(v: Seq<(String, Option<String>)>) -> Seq<TreeEntry> {
    v.map_values(|e: (String, Option<String>)| (e.0@, crate::query::opt_string(e.1)))
}

fn push_entry(out: &mut Vec<(String, Option<String>)>, ws: &String, child: Option<&String>)
    ensures
        entries_view(final(out)@) == entries_view(old(out)@).push(
            (
                ws@,
                match child {
                    Some(c) => Some(c@),
                    None => None,
                },
            ),
        ),
{
    let c = match child {
        Some(c) => Some(c.clone()),
        None => None,
    };
    let ghost before = out@;
    out.push((ws.clone(), c));
    assert(entries_view(out@) =~= entries_view(before).push(
        (
            ws@,
            match child {
                Some(c) => Some(c@),
                None => None,
            },
        ),
    ));
}

/// The provisioned instances of a scan as `(workspace, child)` entries (see
/// `tree_entries`).
pub fn instance_tree(ws: &Vec<WorkspaceProbe>) -> (r: Vec<(String, Option<String>)>)
    ensures
        entries_view(r@) == tree_entries(ws@),
{
    let mut out: Vec<(String, Option<String>)> = Vec::new();
    assert(entries_view(out@) =~= Seq::<TreeEntry>::empty());
    let n = ws.len();
    for i in 0..n
        invariant
            n == ws@.len(),
            entries_view(out@) == tree_entries(ws@.take(i as int)),
    {
        assert(ws@.take(i + 1).drop_last() =~= ws@.take(i as int));
        let w = &ws[i];
        let ghost start = entries_view(out@);
        if w.is_dir {
            if w.has_db {
                push_entry(&mut out, &w.name, None);
            }
            let ghost mid = entries_view(out@);
            assert(mid == start + (if w.has_db {
                seq![(w.name@, None::<Seq<char>>)]
            } else {
                Seq::empty()
            }));
            let m = w.children.len();
            for j in 0..m
                invariant
                    m == w.children@.len(),
                    entries_view(out@) == mid + child_entries(w.name@, w.children@.take(j as int)),
            {
                assert(w.children@.take(j + 1).drop_last() =~= w.children@.take(j as int));
                let c = &w.children[j];
                if c.is_dir && c.has_db {
                    push_entry(&mut out, &w.name, Some(&c.name));
                }
            }
            assert(w.children@.take(m as int) =~= w.children@);
        } else {
            assert(workspace_entries(*w) =~= Seq::<TreeEntry>::empty());
        }
        assert(entries_view(out@) =~= start + workspace_entries(ws@[i as int]));
    }
    assert(ws@.take(n as int) =~= ws@);
    out
}

/// A child entry of a scan holding a database, seen as the tree entry of
/// workspace `ws`.
pub open spec fn child_holds(c: ChildProbe, ws: Seq<char>, e: TreeEntry) -> bool {
    c.is_dir && c.has_db && e == (ws, Some(c.name@))
}

/// Scanned entry `w` accounts for tree entry `e`: `w` is a directory, and
/// `e` is `w` itself holding a database or one of its children holding one.
pub open spec fn workspace_holds(w: WorkspaceProbe, e: TreeEntry) -> bool {
    w.is_dir && ((w.has_db && e == (w.name@, None::<Seq<char>>)) || exists|j: int|
        0 <= j < w.children@.len() && child_holds(#[trigger] w.children@[j], w.name@, e))
}

/// Some scanned entry accounts for `e`.
pub open spec fn scan_holds(ws: Seq<WorkspaceProbe>, e: TreeEntry) -> bool {
    exists|i: int| 0 <= i < ws.len() && workspace_holds(#[trigger] ws[i], e)
}

proof fn lemma_child_entries_membership(ws: Seq<char>, cs: Seq<ChildProbe>, e: TreeEntry)
    ensures
        child_entries(ws, cs).contains(e) <==> exists|j: int| 0 <= j < cs.len() && child_holds(#[trigger] cs[j], ws, e),
    decreases cs.len(),
{
    if cs.len() > 0 {
        let prev = cs.drop_last();
        let c = cs.last();
        lemma_child_entries_membership(ws, prev, e);
        let pe = child_entries(ws, prev);
        let ce = child_entries(ws, cs);
        if c.is_dir && c.has_db {
            assert(ce == pe.push((ws, Some(c.name@))));
        } else {
            assert(ce == pe);
        }
        if exists|j: int| 0 <= j < cs.len() && child_holds(#[trigger] cs[j], ws, e) {
            let j = choose|j: int| 0 <= j < cs.len() && child_holds(#[trigger] cs[j], ws, e);
            if j < cs.len() - 1 {
                assert(child_holds(prev[j], ws, e));
                assert(pe.contains(e));
                let k = choose|k: int| 0 <= k < pe.len() && pe[k] == e;
                assert(ce[k] == e);
            } else {
                assert(ce[ce.len() - 1] == e);
            }
        }
        if ce.contains(e) {
            let k = choose|k: int| 0 <= k < ce.len() && ce[k] == e;
            if k < pe.len() {
                assert(pe[k] == e);
                assert(pe.contains(e));
                let j = choose|j: int| 0 <= j < prev.len() && child_holds(#[trigger] prev[j], ws, e);
                assert(child_holds(cs[j], ws, e));
            } else {
                assert(child_holds(cs[cs.len() - 1], ws, e));
            }
        }
    }
}

proof fn lemma_workspace_entries_membership(w: WorkspaceProbe, e: TreeEntry)
    ensures
        workspace_entries(w).contains(e) <==> workspace_holds(w, e),
{
    lemma_child_entries_membership(w.name@, w.children@, e);
    if w.is_dir {
        let head = if w.has_db {
            seq![(w.name@, None::<Seq<char>>)]
        } else {
            Seq::<TreeEntry>::empty()
        };
        let tail = child_entries(w.name@, w.children@);
        assert(workspace_entries(w) == head + tail);
        if workspace_entries(w).contains(e) {
            let k = choose|k: int| 0 <= k < workspace_entries(w).len() && workspace_entries(w)[k] == e;
            if k >= head.len() {
                assert(tail[k - head.len()] == e);
                assert(tail.contains(e));
            }
        }
        if w.has_db && e == (w.name@, None::<Seq<char>>) {
            assert(workspace_entries(w)[0] == e);
        }
        if tail.contains(e) {
            let k = choose|k: int| 0 <= k < tail.len() && tail[k] == e;
            assert(workspace_entries(w)[head.len() + k] == e);
        }
    }
}

/// The instance tree lists exactly the directories holding a database:
/// each workspace with its own, and each child directory of a workspace
/// with its own, and nothing else.
pub proof fn law_instance_tree_membership(ws: Seq<WorkspaceProbe>, e: TreeEntry)
    ensures
        tree_entries(ws).contains(e) <==> scan_holds(ws, e),
    decreases ws.len(),
{
    if ws.len() > 0 {
        let prev = ws.drop_last();
        law_instance_tree_membership(prev, e);
        lemma_workspace_entries_membership(ws.last(), e);
        let a = tree_entries(prev);
        let b = workspace_entries(ws.last());
        assert(tree_entries(ws) == a + b);
        if tree_entries(ws).contains(e) {
            let k = choose|k: int| 0 <= k < tree_entries(ws).len() && tree_entries(ws)[k] == e;
            if k < a.len() {
                assert(a.contains(e));
                let i = choose|i: int| 0 <= i < prev.len() && workspace_holds(#[trigger] prev[i], e);
                assert(workspace_holds(ws[i], e));
            } else {
                assert(b[k - a.len()] == e);
                assert(b.contains(e));
                assert(workspace_holds(ws[ws.len() - 1], e));
            }
        }
        if scan_holds(ws, e) {
            let i = choose|i: int| 0 <= i < ws.len() && workspace_holds(#[trigger] ws[i], e);
            if i < ws.len() - 1 {
                assert(workspace_holds(prev[i], e));
                assert(a.contains(e));
                let k = choose|k: int| 0 <= k < a.len() && a[k] == e;
                assert(tree_entries(ws)[k] == e);
            } else {
                assert(b.contains(e));
                let k = choose|k: int| 0 <= k < b.len() && b[k] == e;
                assert(tree_entries(ws)[a.len() + k] == e);
            }
        }
    }
}

/// The instance a tree entry names: the child when there is one, else the
/// workspace.
pub open spec fn entry_instance(e: TreeEntry) -> Seq<char> {
    match e.1 {
        Some(c) => c,
        None => e.0,
    }
}

/// The instance ids a scan shows on disk, in scan order.
pub open spec fn scanned_instances(ws: Seq<WorkspaceProbe>) -> Seq<Seq<char>> {
    tree_entries(ws).map_values(|e: TreeEntry| entry_instance(e))
}

/// The scan shows instance `t` on disk: a workspace directory named `t`
/// holding a database, or a child directory named `t` of a workspace
/// directory holding one.
pub open spec fn provides_instance(ws: Seq<WorkspaceProbe>, t: Seq<char>) -> bool {
    exists|e: TreeEntry| #[trigger] scan_holds(ws, e) && entry_instance(e) == t
}

/// The instance ids of a scan: every workspace and every child holding a
/// database (see `scanned_instances`).
pub fn provisioned_instances(ws: &Vec<WorkspaceProbe>) -> (r: Vec<String>)
    ensures
        crate::graph::ids(r@) == scanned_instances(ws@),
{
    let tree = instance_tree(ws);
    let mut out: Vec<String> = Vec::new();
    let n = tree.len();
    for i in 0..n
        invariant
            n == tree@.len(),
            entries_view(tree@) == tree_entries(ws@),
            crate::graph::ids(out@) == entries_view(tree@).take(i as int).map_values(|e: TreeEntry| entry_instance(e)),
    {
        let ghost before = out@;
        let id = match &tree[i].1 {
            Some(c) => c.clone(),
            None => tree[i].0.clone(),
        };
        out.push(id);
        assert(entries_view(tree@)[i as int] == (tree@[i as int].0@, crate::query::opt_string(tree@[i as int].1)));
        assert(crate::graph::ids(out@) =~= crate::graph::ids(before).push(id@));
        assert(entries_view(tree@).take(i + 1).map_values(|e: TreeEntry| entry_instance(e)) =~= entries_view(
            tree@,
        ).take(i as int).map_values(|e: TreeEntry| entry_instance(e)).push(entry_instance(entries_view(tree@)[i as int])));
    }
    assert(entries_view(tree@).take(n as int) =~= entries_view(tree@));
    out
}

/// Listing instances gives each id once, and an id is listed exactly when
/// it is cached or the scan shows it on disk, as a workspace or as a child.
pub proof fn law_listed_instances(cached: Seq<Seq<char>>, ws: Seq<WorkspaceProbe>, t: Seq<char>)
    ensures
        crate::graph::absorb(crate::graph::absorb(Seq::empty(), cached), scanned_instances(ws)).contains(t) <==> (
        cached.contains(t) || provides_instance(ws, t)),
        crate::graph::distinct(crate::graph::absorb(crate::graph::absorb(Seq::empty(), cached), scanned_instances(ws))),
{
    let e0 = Seq::<Seq<char>>::empty();
    crate::graph::lemma_absorb(e0, cached);
    crate::graph::lemma_absorb(crate::graph::absorb(e0, cached), scanned_instances(ws));
    let sc = scanned_instances(ws);
    let te = tree_entries(ws);
    if sc.contains(t) {
        let k = choose|k: int| 0 <= k < sc.len() && sc[k] == t;
        law_instance_tree_membership(ws, te[k]);
        assert(te.contains(te[k]));
        assert(scan_holds(ws, te[k]) && entry_instance(te[k]) == t);
    }
    if provides_instance(ws, t) {
        let e = choose|e: TreeEntry| #[trigger] scan_holds(ws, e) && entry_instance(e) == t;
        law_instance_tree_membership(ws, e);
        let k = choose|k: int| 0 <= k < te.len() && te[k] == e;
        assert(sc[k] == t);
    }
}

/// One workspace of the instance tree with its child instances.
#[derive(Debug)]
pub struct InstanceTreeNode {
    pub workspace_id: String,
    /// Child instance ids nested under this workspace.
    pub children: Vec<String>,
}

/// One active instance.
#[derive(Debug)]
pub struct InstanceInfo {
    pub instance_id: String,
}

/// The optional parent workspace of a provisioning request.
#[derive(Debug)]
pub struct ProvisionQuery {
    /// Parent workspace UUID; absent for a top-level workspace.
    pub parent: Option<String>,
}

/// The answer to a provisioning request.
#[derive(Debug)]
pub struct ProvisionResponse {
    pub instance_id: String,
    pub status: String,
    pub message: String,
}

/// The answer to a successful provisioning: status `provisioned` and a
/// message saying whether a nested instance was created.
pub fn provision_response(instance_id: String, nested: bool) -> (r: ProvisionResponse)
    ensures
        r.instance_id@ == instance_id@,
        r.status@ == "provisioned"@,
        r.message@ == (if nested {
            "Nested instance database created and migrated"@
        } else {
            "Instance database created and migrated"@
        }),
{
    ProvisionResponse { instance_id, status: owned("provisioned"), message: provision_message(nested) }
}

/// The workspaces of tree entries, each once, in order of first appearance.
pub open spec fn workspace_order(es: Seq<TreeEntry>) -> Seq<Seq<char>> {
    crate::graph::absorb(Seq::empty(), es.map_values(|e: TreeEntry| e.0))
}

/// The children listed for workspace `ws`, in entry order.
pub open spec fn children_in(es: Seq<TreeEntry>, ws: Seq<char>) -> Seq<Seq<char>>
    decreases es.len(),
{
    if es.len() == 0 {
        Seq::empty()
    } else {
        let prev = children_in(es.drop_last(), ws);
        let e = es.last();
        if e.0 == ws && e.1 is Some {
            prev.push(e.1->0)
        } else {
            prev
        }
    }
}

proof fn lemma_children_absent(es: Seq<TreeEntry>, ws: Seq<char>)
    requires
        forall|i: int| 0 <= i < es.len() ==> (#[trigger] es[i]).0 != ws,
    ensures
        children_in(es, ws) == Seq::<Seq<char>>::empty(),
    decreases es.len(),
{
    if es.len() > 0 {
        lemma_children_absent(es.drop_last(), ws);
        assert(es.last() == es[es.len() - 1]);
    }
}

fn position_of(names: &Vec<String>, x: &String) -> (r: Option<usize>)
    ensures
        match r {
            Some(k) => k < names@.len() && names@[k as int]@ == x@,
            None => !crate::graph::ids(names@).contains(x@),
        },
{
    let n = names.len();
    for i in 0..n
        invariant
            n == names@.len(),
            forall|j: int| 0 <= j < i ==> names@[j]@ != x@,
    {
        if crate::text::str_eq(names[i].as_str(), x.as_str()) {
            return Some(i);
        }
    }
    assert forall|j: int| 0 <= j < crate::graph::ids(names@).len() implies crate::graph::ids(names@)[j] != x@ by {
        assert(crate::graph::ids(names@)[j] == names@[j]@);
    }
    None
}

/// The instance tree: one node per workspace in order of first appearance,
/// each with its children sorted.
pub fn group_instance_tree(entries: &Vec<(String, Option<String>)>) -> (r: Vec<InstanceTreeNode>)
    ensures
        r@.len() == workspace_order(entries_view(entries@)).len(),
        forall|k: int|
            0 <= k < r@.len() ==> (#[trigger] r@[k]).workspace_id@ == workspace_order(entries_view(entries@))[k]
                && crate::graph::ids(r@[k].children@) == children_in(
                entries_view(entries@),
                workspace_order(entries_view(entries@))[k],
            ).sort_by(crate::order::str_order()),
{
    let ghost es = entries_view(entries@);
    let mut names: Vec<String> = Vec::new();
    let mut kids: Vec<Vec<String>> = Vec::new();
    let n = entries.len();
    proof {
        assert(es.take(0).map_values(|e: TreeEntry| e.0) =~= Seq::<Seq<char>>::empty());
        assert(crate::graph::ids(names@) =~= Seq::<Seq<char>>::empty());
    }
    for i in 0..n
        invariant
            n == entries@.len(),
            es == entries_view(entries@),
            crate::graph::ids(names@) == workspace_order(es.take(i as int)),
            crate::graph::distinct(crate::graph::ids(names@)),
            kids@.len() == names@.len(),
            forall|k: int|
                0 <= k < names@.len() ==> crate::graph::ids(#[trigger] kids@[k]@) == children_in(
                    es.take(i as int),
                    names@[k]@,
                ),
    {
        let ghost prev_es = es.take(i as int);
        let ghost cur_es = es.take(i + 1);
        let ghost e = es[i as int];
        proof {
            assert(cur_es.drop_last() =~= prev_es);
            assert(cur_es.last() == e);
            assert(cur_es.map_values(|x: TreeEntry| x.0) =~= prev_es.map_values(|x: TreeEntry| x.0).push(e.0));
            assert(cur_es.map_values(|x: TreeEntry| x.0).drop_last() =~= prev_es.map_values(|x: TreeEntry| x.0));
            crate::graph::lemma_absorb(Seq::empty(), prev_es.map_values(|x: TreeEntry| x.0));
        }
        let (ws, child) = &entries[i];
        assert(e.0 == ws@);
        let ghost names0 = names@;
        let ghost kids0 = kids@;
        let k = match position_of(&names, ws) {
            Some(k) => k,
            None => {
                proof {
                    assert forall|j: int| 0 <= j < prev_es.len() implies (#[trigger] prev_es[j]).0 != ws@ by {
                        let f = prev_es.map_values(|x: TreeEntry| x.0);
                        assert(f[j] == prev_es[j].0);
                        assert(f.contains(prev_es[j].0));
                    }
                    lemma_children_absent(prev_es, ws@);
                }
                names.push(ws.clone());
                kids.push(Vec::new());
                proof {
                    assert(crate::graph::ids(names@) =~= crate::graph::ids(names0).push(ws@));
                    assert(crate::graph::ids(kids@[names0.len() as int]@) =~= Seq::<Seq<char>>::empty());
                }
                names.len() - 1
            },
        };
        assert(names@[k as int]@ == ws@);
        proof {
            let f0 = prev_es.map_values(|x: TreeEntry| x.0);
            let f1 = cur_es.map_values(|x: TreeEntry| x.0);
            assert(f1.drop_last() == f0);
            assert(f1.last() == ws@);
            assert(crate::graph::ids(names@)[k as int] == ws@);
            if crate::graph::ids(names0).contains(ws@) {
                assert(names@ == names0);
            } else {
                assert(crate::graph::ids(names@) =~= crate::graph::ids(names0).push(ws@));
            }
            assert(crate::graph::ids(names@) == workspace_order(cur_es));
        }
        let ghost kids1 = kids@;
        match child {
            Some(c) => {
                let mut list = kids.remove(k);
                list.push(c.clone());
                kids.insert(k, list);
            },
            None => {},
        }
        proof {
            assert forall|j: int| 0 <= j < names@.len() implies crate::graph::ids(#[trigger] kids@[j]@) == children_in(
                cur_es,
                names@[j]@,
            ) by {
                assert(children_in(cur_es, names@[j]@) == if e.0 == names@[j]@ && e.1 is Some {
                    children_in(prev_es, names@[j]@).push(e.1->0)
                } else {
                    children_in(prev_es, names@[j]@)
                });
                if j == k {
                    if child is Some {
                        assert(crate::graph::ids(kids@[j]@) =~= crate::graph::ids(kids1[j]@).push(e.1->0));
                    }
                } else {
                    assert(crate::graph::ids(names@)[j] == names@[j]@);
                    assert(crate::graph::ids(names@)[k as int] == names@[k as int]@);
                    assert(names@[j]@ != ws@);
                    assert(kids@[j] == kids1[j]);
                }
            }
            crate::graph::lemma_absorb(Seq::empty(), cur_es.map_values(|x: TreeEntry| x.0));
        }
    }
    assert(es.take(n as int) =~= es);
    let mut out: Vec<InstanceTreeNode> = Vec::new();
    let mut rest_names = names;
    let mut rest_kids = kids;
    let ghost all_names = rest_names@;
    let ghost all_kids = rest_kids@;
    let ghost m = all_names.len();
    // Take the workspaces from the back, then reverse, to move each list out.
    let mut rev: Vec<InstanceTreeNode> = Vec::new();
    while rest_names.len() > 0
        invariant
            rest_names@.len() == rest_kids@.len(),
            rest_names@.len() + rev@.len() == m,
            rest_names@ == all_names.take(rest_names@.len() as int),
            rest_kids@ == all_kids.take(rest_kids@.len() as int),
            all_names.len() == m,
            all_kids.len() == m,
            forall|j: int|
                0 <= j < rev@.len() ==> (#[trigger] rev@[j]).workspace_id@ == all_names[m - 1 - j]@
                    && crate::graph::ids(rev@[j].children@) == crate::graph::ids(all_kids[m - 1 - j]@).sort_by(
                    crate::order::str_order(),
                ),
        decreases rest_names@.len(),
    {
        let ghost len0 = rest_names@.len();
        let name = rest_names.pop().unwrap();
        let list = rest_kids.pop().unwrap();
        assert(rest_names@ =~= all_names.take(len0 - 1));
        assert(rest_kids@ =~= all_kids.take(len0 - 1));
        let sorted = crate::order::sort_strings(list);
        rev.push(InstanceTreeNode { workspace_id: name, children: sorted });
    }
    while rev.len() > 0
        invariant
            rev@.len() + out@.len() == m,
            all_names.len() == m,
            all_kids.len() == m,
            forall|j: int|
                0 <= j < rev@.len() ==> (#[trigger] rev@[j]).workspace_id@ == all_names[m - 1 - j]@
                    && crate::graph::ids(rev@[j].children@) == crate::graph::ids(all_kids[m - 1 - j]@).sort_by(
                    crate::order::str_order(),
                ),
            forall|j: int|
                0 <= j < out@.len() ==> (#[trigger] out@[j]).workspace_id@ == all_names[j]@
                    && crate::graph::ids(out@[j].children@) == crate::graph::ids(all_kids[j]@).sort_by(
                    crate::order::str_order(),
                ),
        decreases rev@.len(),
    {
        let node = rev.pop().unwrap();
        out.push(node);
    }
    proof {
        assert forall|k: int| 0 <= k < out@.len() implies (#[trigger] out@[k]).workspace_id@ == workspace_order(es)[k]
            && crate::graph::ids(out@[k].children@) == children_in(es, workspace_order(es)[k]).sort_by(
            crate::order::str_order(),
        ) by {
            assert(crate::graph::ids(all_names)[k] == all_names[k]@);
        }
    }
    out
}

} // verus!
