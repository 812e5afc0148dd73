//! Authorization context embedded on assets.
//!
//! Only auth-specific fields live here; tag-derived attributes (status,
//! asset type) are read from the asset's tags when authorization is
//! evaluated. Assets without an authorization context bypass policy
//! enforcement (open access).

use vstd::prelude::*;

use crate::text::owned;

verus! {

/// Authorization context of an asset.
#[derive(Debug)]
pub struct AuthContext {
    /// Visibility level: "public", "team", "private", "org".
    pub visibility: String,
    /// Groups with implicit access beyond the visibility rules.
    pub owner_groups: Vec<String>,
    /// Classification: "internal", "confidential", "restricted".
    pub confidentiality: String,
}

/// The content of an authorization context.
pub struct AuthContextView {
    pub visibility: Seq<char>,
    pub owner_groups: Seq<Seq<char>>,
    pub confidentiality: Seq<char>,
}

/// The string views of a list of strings.
pub open spec fn strings_view(v: Seq<String>) -> Seq<Seq<char>> {
    v.map_values(|s: String| s@)
}

impl AuthContext {
    /// The content of this context.
    pub open spec fn view(&self) -> AuthContextView {
        AuthContextView {
            visibility: self.visibility@,
            owner_groups: strings_view(self.owner_groups@),
            confidentiality: self.confidentiality@,
        }
    }

    /// An empty context: no visibility, no owner groups, no classification.
    pub fn new() -> (c: AuthContext)
        ensures
            c.view() == empty_context(),
    {
        let c = AuthContext { visibility: owned(""), owner_groups: Vec::new(), confidentiality: owned("") };
        assert(c.view().owner_groups =~= Seq::<Seq<char>>::empty());
        c
    }

    /// A copy of this context.
    pub fn duplicate(&self) -> (c: AuthContext)
        ensures
            c.view() == self.view(),
    {
        AuthContext {
            visibility: self.visibility.clone(),
            owner_groups: copy_strings(&self.owner_groups),
            confidentiality: self.confidentiality.clone(),
        }
    }
}

impl Default for AuthContext {
    /// The empty context.
    fn default() -> (c: AuthContext)
        ensures
            c.view() == empty_context(),
    {
        AuthContext::new()
    }
}

/// The empty authorization context.
pub open spec fn empty_context() -> AuthContextView {
    AuthContextView { visibility: ""@, owner_groups: Seq::empty(), confidentiality: ""@ }
}

/// The context of an asset created without one: visibility `public`, no
/// owner groups, classification `internal`.
pub open spec fn creation_default_context() -> AuthContextView {
    AuthContextView { visibility: "public"@, owner_groups: Seq::empty(), confidentiality: "internal"@ }
}

/// The context given to an asset created without one (see
/// `creation_default_context`).
pub fn creation_default() -> (c: AuthContext)
    ensures
        c.view() == creation_default_context(),
{
    let c = AuthContext { visibility: owned("public"), owner_groups: Vec::new(), confidentiality: owned("internal") };
    assert(c.view().owner_groups =~= Seq::<Seq<char>>::empty());
    c
}

/// A copy of a list of strings.
pub fn copy_strings(v: &Vec<String>) -> (r: Vec<String>)
    ensures
        strings_view(r@) == strings_view(v@),
{
    let mut out: Vec<String> = Vec::new();
    let n = v.len();
    for i in 0..n
        invariant
            n == v@.len(),
            strings_view(out@) == strings_view(v@).take(i as int),
    {
        let ghost before = out@;
        let s = v[i].clone();
        out.push(s);
        assert(strings_view(out@) =~= strings_view(before).push(v@[i as int]@));
        assert(strings_view(out@) =~= strings_view(v@).take(i + 1));
    }
    assert(strings_view(v@).take(n as int) =~= strings_view(v@));
    out
}

/// Request to change the authorization context of an asset.
#[derive(Debug)]
pub struct UpdateAuthContextRequest {
    pub visibility: Option<String>,
    pub owner_groups: Option<Vec<String>>,
    pub confidentiality: Option<String>,
    /// Also apply the change to every descendant of the asset.
    pub cascade: bool,
}

/// The content a request sets, per field (`None` = left unchanged).
pub struct AuthContextPatch {
    pub visibility: Option<Seq<char>>,
    pub owner_groups: Option<Seq<Seq<char>>>,
    pub confidentiality: Option<Seq<char>>,
}

impl UpdateAuthContextRequest {
    /// The fields this request sets.
    pub open spec fn patch(&self) -> AuthContextPatch {
        AuthContextPatch {
            visibility: match self.visibility {
                Some(v) => Some(v@),
                None => None,
            },
            owner_groups: match self.owner_groups {
                Some(g) => Some(strings_view(g@)),
                None => None,
            },
            confidentiality: match self.confidentiality {
                Some(c) => Some(c@),
                None => None,
            },
        }
    }
}

/// `ctx` with the fields of `p` applied.
pub open spec fn apply_patch(ctx: AuthContextView, p: AuthContextPatch) -> AuthContextView {
    AuthContextView {
        visibility: match p.visibility {
            Some(v) => v,
            None => ctx.visibility,
        },
        owner_groups: match p.owner_groups {
            Some(g) => g,
            None => ctx.owner_groups,
        },
        confidentiality: match p.confidentiality {
            Some(c) => c,
            None => ctx.confidentiality,
        },
    }
}

/// The context an asset starts from: its own, or the empty one.
pub open spec fn base_context(existing: Option<&AuthContext>) -> AuthContextView {
    match existing {
        Some(c) => c.view(),
        None => empty_context(),
    }
}

/// The context an asset holding `c` starts from: `c`, or the empty one.
pub open spec fn own_context(c: Option<AuthContext>) -> AuthContextView {
    match c {
        Some(x) => x.view(),
        None => empty_context(),
    }
}

/// The fields `request` sets, taken from `source` (the asset's new
/// context), as a patch for a descendant.
pub open spec fn cascade_patch(source: AuthContextView, p: AuthContextPatch) -> AuthContextPatch {
    AuthContextPatch {
        visibility: match p.visibility {
            Some(_) => Some(source.visibility),
            None => None,
        },
        owner_groups: match p.owner_groups {
            Some(_) => Some(source.owner_groups),
            None => None,
        },
        confidentiality: match p.confidentiality {
            Some(_) => Some(source.confidentiality),
            None => None,
        },
    }
}

/// The new context of an asset: its current context (or the empty one)
/// with the fields the request sets replaced.
pub fn merge_auth_context(existing: Option<&AuthContext>, request: &UpdateAuthContextRequest) -> (c: AuthContext)
    ensures
        c.view() == apply_patch(base_context(existing), request.patch()),
{
    let mut ctx = match existing {
        Some(c) => c.duplicate(),
        None => AuthContext::new(),
    };
    if let Some(v) = &request.visibility {
        ctx.visibility = v.clone();
    }
    if let Some(g) = &request.owner_groups {
        ctx.owner_groups = copy_strings(g);
    }
    if let Some(c) = &request.confidentiality {
        ctx.confidentiality = c.clone();
    }
    ctx
}

/// The new context of a descendant when a change cascades: the
/// descendant's own context (or the empty one) with each field the request
/// sets taken from the updated asset's context; fields the request leaves
/// unset keep the descendant's own values.
pub fn cascade_auth_context(child: Option<&AuthContext>, updated: &AuthContext, request: &UpdateAuthContextRequest) -> (c: AuthContext)
    ensures
        c.view() == apply_patch(base_context(child), cascade_patch(updated.view(), request.patch())),
{
    let mut ctx = match child {
        Some(c) => c.duplicate(),
        None => AuthContext::new(),
    };
    if request.visibility.is_some() {
        ctx.visibility = updated.visibility.clone();
    }
    if request.owner_groups.is_some() {
        ctx.owner_groups = copy_strings(&updated.owner_groups);
    }
    if request.confidentiality.is_some() {
        ctx.confidentiality = updated.confidentiality.clone();
    }
    ctx
}

/// Applying the same change twice is the same as applying it once.
pub proof fn law_merge_idempotent(ctx: AuthContextView, p: AuthContextPatch)
    ensures
        apply_patch(apply_patch(ctx, p), p) == apply_patch(ctx, p),
{
}

/// A cascaded change gives each descendant exactly the values the request
/// sets, as if the request had been applied to the descendant directly.
pub proof fn law_cascade_matches_request(parent: AuthContextView, child: AuthContextView, p: AuthContextPatch)
    ensures
        apply_patch(child, cascade_patch(apply_patch(parent, p), p)) == apply_patch(child, p),
{
}

/// A change leaves every field it does not set untouched.
pub proof fn law_unset_fields_preserved(ctx: AuthContextView, p: AuthContextPatch)
    ensures
        p.visibility is None ==> apply_patch(ctx, p).visibility == ctx.visibility,
        p.owner_groups is None ==> apply_patch(ctx, p).owner_groups == ctx.owner_groups,
        p.confidentiality is None ==> apply_patch(ctx, p).confidentiality == ctx.confidentiality,
{
}

} // verus!
