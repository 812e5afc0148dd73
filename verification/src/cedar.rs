//! Attribute-based authorization of assets.
//!
//! Assets with an authorization context are checked against the policies;
//! assets without one (older assets) are open to everyone. This module
//! decides when the policies apply, what the policy engine is told about an
//! asset and a principal, and what a verdict means for the request; the
//! evaluation itself is the policy engine's.

use vstd::prelude::*;

use crate::auth::{entries_eq, opt_view, role_only, AuthenticatedUser, ClaimEntry, ClaimItem, ClaimValue, Claims};
use crate::models::asset::Asset;
use crate::models::auth_context::strings_view;
use crate::models::tag::Tag;
use crate::services::ApiError;
use crate::text::{concat_str, owned, str_eq};

verus! {

// ---------------------------------------------------------------------------
// Enforcement
// ---------------------------------------------------------------------------

/// Policies apply to an asset exactly when it has an authorization context.
pub fn should_enforce_cedar(asset: &Asset) -> (b: bool)
    ensures
        b == asset.auth_context is Some,
{
    asset.auth_context.is_some()
}

/// The refusal of an action the policies deny.
pub open spec fn denied_text(action: Seq<char>, asset_id: Seq<char>) -> Seq<char> {
    "Access denied: you do not have '"@ + action + "' permission on asset '"@ + asset_id + "'"@
}

/// The refusal when a policy request could not be built.
pub open spec fn evaluation_error_text(reason: Seq<char>) -> Seq<char> {
    "Authorization error: "@ + reason
}

/// The outcome of a permission check given the policy engine's evaluation
/// (`Ok(allowed)`, or `Err(reason)` when the request could not be built).
pub open spec fn permission_spec(asset: &Asset, action: Seq<char>, evaluation: Result<bool, Seq<char>>) -> Result<
    (),
    Seq<char>,
> {
    if asset.auth_context is None {
        Ok(())
    } else {
        match evaluation {
            Ok(true) => Ok(()),
            Ok(false) => Err(denied_text(action, asset.id@)),
            Err(reason) => Err(evaluation_error_text(reason)),
        }
    }
}

/// The view of an evaluation.
pub open spec fn evaluation_view(e: Result<bool, String>) -> Result<bool, Seq<char>> {
    match e {
        Ok(b) => Ok(b),
        Err(s) => Err(s@),
    }
}

/// Checks `action` on `asset`: open for assets without an authorization
/// context, otherwise allowed only when the policies allow it; refusals are
/// `Forbidden`.
pub fn check_permission(asset: &Asset, action: &str, evaluation: Result<bool, String>) -> (r: Result<(), ApiError>)
    ensures
        match permission_spec(asset, action@, evaluation_view(evaluation)) {
            Ok(()) => r is Ok,
            Err(m) => r matches Err(ApiError::Forbidden(x)) && x@ == m,
        },
{
    if !should_enforce_cedar(asset) {
        return Ok(());
    }
    match evaluation {
        Ok(true) => Ok(()),
        Ok(false) => {
            let a = concat_str("Access denied: you do not have '", action);
            let b = concat_str(a.as_str(), "' permission on asset '");
            let c = concat_str(b.as_str(), asset.id.as_str());
            Err(ApiError::Forbidden(concat_str(c.as_str(), "'")))
        },
        Err(reason) => Err(ApiError::Forbidden(concat_str("Authorization error: ", reason.as_str()))),
    }
}

/// Whether an asset stays in a filtered list: open assets always do;
/// others only when the policies allow the action (a failed evaluation
/// denies).
pub open spec fn visible(asset: Asset, evaluation: Result<bool, Seq<char>>) -> bool {
    asset.auth_context is None || evaluation == Ok::<bool, Seq<char>>(true)
}

/// The assets that stay, in order.
pub open spec fn visible_assets(assets: Seq<Asset>, evaluations: Seq<Result<bool, Seq<char>>>) -> Seq<Asset>
    decreases assets.len(),
{
    if assets.len() == 0 {
        Seq::empty()
    } else {
        let prev = visible_assets(assets.drop_last(), evaluations.drop_last());
        if visible(assets.last(), evaluations[assets.len() - 1]) {
            prev.push(assets.last())
        } else {
            prev
        }
    }
}

/// The assets the user may see, given the evaluation for each (ignored for
/// open assets), in the order given.
pub fn filter_by_permission(assets: Vec<Asset>, evaluations: &Vec<Result<bool, String>>) -> (r: Vec<Asset>)
    requires
        evaluations@.len() == assets@.len(),
    ensures
        r@ == visible_assets(assets@, evaluations@.map_values(|e: Result<bool, String>| evaluation_view(e))),
{
    let ghost all = assets@;
    let ghost evs = evaluations@.map_values(|e: Result<bool, String>| evaluation_view(e));
    let mut out: Vec<Asset> = Vec::new();
    let mut rest = assets;
    let n = evaluations.len();
    let mut i: usize = 0;
    while i < n
        invariant
            n == evaluations@.len(),
            n == all.len(),
            i <= n,
            evs == evaluations@.map_values(|e: Result<bool, String>| evaluation_view(e)),
            rest@ == all.skip(i as int),
            out@ == visible_assets(all.take(i as int), evs.take(i as int)),
        decreases n - i,
    {
        let a = rest.remove(0);
        assert(all.take(i + 1).drop_last() =~= all.take(i as int));
        assert(evs.take(i + 1).drop_last() =~= evs.take(i as int));
        assert(a == all[i as int]);
        assert(rest@ =~= all.skip(i + 1));
        let keep = match &evaluations[i] {
            Ok(b) => !should_enforce_cedar(&a) || *b,
            Err(_) => !should_enforce_cedar(&a),
        };
        assert(keep == visible(all[i as int], evs[i as int]));
        if keep {
            out.push(a);
        }
        i = i + 1;
    }
    assert(all.take(n as int) =~= all);
    assert(evs.take(n as int) =~= evs);
    out
}

// ---------------------------------------------------------------------------
// What the policy engine is told
// ---------------------------------------------------------------------------

/// A typed entity reference (`Type::"id"`).
#[derive(Debug)]
pub struct EntityRef {
    pub entity_type: String,
    pub id: String,
}

/// The text of an entity reference: the type, `::`, and the id in double
/// quotes with `\` and `"` escaped by a backslash.
pub open spec fn uid_text(entity_type: Seq<char>, id: Seq<char>) -> Seq<char> {
    entity_type + "::\""@ + escape_quoted(id) + "\""@
}

/// `s` with `\` and `"` preceded by a backslash.
pub open spec fn escape_quoted(s: Seq<char>) -> Seq<char>
    decreases s.len(),
{
    if s.len() == 0 {
        s
    } else {
        escape_quoted(s.drop_last()) + if s.last() == '\\' || s.last() == '"' {
            seq!['\\', s.last()]
        } else {
            seq![s.last()]
        }
    }
}

impl EntityRef {
    /// The text of the reference (`Type::"id"`).
    pub fn to_string(&self) -> (s: String)
        ensures
            s@ == uid_text(self.entity_type@, self.id@),
    {
        let v = crate::text::chars_of(self.id.as_str());
        let mut out: Vec<char> = Vec::new();
        let n = v.len();
        for i in 0..n
            invariant
                n == v@.len(),
                v@ == self.id@,
                out@ == escape_quoted(v@.take(i as int)),
        {
            assert(v@.take(i + 1).drop_last() =~= v@.take(i as int));
            if v[i] == '\\' || v[i] == '"' {
                out.push('\\');
            }
            out.push(v[i]);
            assert(out@ =~= escape_quoted(v@.take(i + 1)));
        }
        assert(v@.take(n as int) =~= v@);
        let escaped = crate::text::string_from_chars(out.as_slice());
        let a = concat_str(self.entity_type.as_str(), "::\"");
        let b = concat_str(a.as_str(), escaped.as_str());
        concat_str(b.as_str(), "\"")
    }
}

/// The value of an entity attribute.
#[derive(Debug)]
pub enum AttrValue {
    Text(String),
    TextSet(Vec<String>),
    EntitySet(Vec<EntityRef>),
}

/// A named attribute.
#[derive(Debug)]
pub struct Attr {
    pub name: String,
    pub value: AttrValue,
}

/// An entity: its reference and attributes (no parents).
#[derive(Debug)]
pub struct EntityModel {
    pub uid: EntityRef,
    pub attrs: Vec<Attr>,
}

/// The mathematical form of an attribute value.
pub enum AttrView {
    Text(Seq<char>),
    TextSet(Seq<Seq<char>>),
    EntitySet(Seq<(Seq<char>, Seq<char>)>),
}

pub open spec fn attr_view(a: Attr) -> (Seq<char>, AttrView) {
    (
        a.name@,
        match a.value {
            AttrValue::Text(s) => AttrView::Text(s@),
            AttrValue::TextSet(v) => AttrView::TextSet(strings_view(v@)),
            AttrValue::EntitySet(v) => AttrView::EntitySet(v@.map_values(|e: EntityRef| (e.entity_type@, e.id@))),
        },
    )
}

pub open spec fn attrs_view(v: Seq<Attr>) -> Seq<(Seq<char>, AttrView)> {
    v.map_values(|a: Attr| attr_view(a))
}

/// The value of the first tag of a category.
pub open spec fn first_tag_value(tags: Seq<Tag>, category: Seq<char>) -> Option<Seq<char>>
    decreases tags.len(),
{
    if tags.len() == 0 {
        None
    } else if tags[0].category@ == category {
        Some(tags[0].value@)
    } else {
        first_tag_value(tags.drop_first(), category)
    }
}

fn find_tag_value(tags: &Vec<Tag>, category: &str) -> (r: Option<String>)
    ensures
        opt_view(r) == first_tag_value(tags@, category@),
{
    let n = tags.len();
    let mut i: usize = 0;
    assert(tags@.skip(0) =~= tags@);
    while i < n
        invariant
            n == tags@.len(),
            i <= n,
            first_tag_value(tags@, category@) == first_tag_value(tags@.skip(i as int), category@),
        decreases n - i,
    {
        assert(tags@.skip(i as int)[0] == tags@[i as int]);
        assert(tags@.skip(i as int).drop_first() =~= tags@.skip(i + 1));
        if str_eq(tags[i].category.as_str(), category) {
            return Some(tags[i].value.clone());
        }
        i = i + 1;
    }
    None
}

/// What the policy engine is told about an asset, in order: `created_by`,
/// the set holding the creator as a `User`; with an authorization context,
/// its `visibility` and `confidentiality`, and its `owner_groups` when there
/// are any; the value of the first `status` tag and of the first
/// `asset_type` tag, when present.
pub open spec fn asset_attrs(asset: &Asset) -> Seq<(Seq<char>, AttrView)> {
    let creator = seq![("created_by"@, AttrView::EntitySet(seq![("User"@, asset.created_by@)]))];
    let ctx = match asset.auth_context {
        Some(c) => seq![("visibility"@, AttrView::Text(c.visibility@)), ("confidentiality"@, AttrView::Text(c.confidentiality@))]
            + if c.owner_groups@.len() > 0 {
            seq![("owner_groups"@, AttrView::TextSet(strings_view(c.owner_groups@)))]
        } else {
            Seq::empty()
        },
        None => Seq::empty(),
    };
    let status = match first_tag_value(asset.tags@, "status"@) {
        Some(v) => seq![("status"@, AttrView::Text(v))],
        None => Seq::empty(),
    };
    let kind = match first_tag_value(asset.tags@, "asset_type"@) {
        Some(v) => seq![("asset_type"@, AttrView::Text(v))],
        None => Seq::empty(),
    };
    creator + ctx + status + kind
}

/// The entity of an asset: `Asset::"<id>"` with the attributes of
/// `asset_attrs`.
pub fn asset_to_cedar_entity(asset: &Asset) -> (e: EntityModel)
    ensures
        e.uid.entity_type@ == "Asset"@,
        e.uid.id@ == asset.id@,
        attrs_view(e.attrs@) == asset_attrs(asset),
{
    let mut attrs: Vec<Attr> = Vec::new();
    let mut creators: Vec<EntityRef> = Vec::new();
    creators.push(EntityRef { entity_type: owned("User"), id: asset.created_by.clone() });
    assert(creators@.map_values(|e: EntityRef| (e.entity_type@, e.id@)) =~= seq![("User"@, asset.created_by@)]);
    attrs.push(Attr { name: owned("created_by"), value: AttrValue::EntitySet(creators) });
    let ghost a0 = attrs_view(attrs@);
    assert(a0 =~= seq![("created_by"@, AttrView::EntitySet(seq![("User"@, asset.created_by@)]))]);
    match &asset.auth_context {
        Some(c) => {
            let ghost b = attrs_view(attrs@);
            attrs.push(Attr { name: owned("visibility"), value: AttrValue::Text(c.visibility.clone()) });
            attrs.push(Attr { name: owned("confidentiality"), value: AttrValue::Text(c.confidentiality.clone()) });
            if c.owner_groups.len() > 0 {
                let groups = crate::models::auth_context::copy_strings(&c.owner_groups);
                attrs.push(Attr { name: owned("owner_groups"), value: AttrValue::TextSet(groups) });
            }
            assert(attrs_view(attrs@) =~= b + seq![
                ("visibility"@, AttrView::Text(c.visibility@)),
                ("confidentiality"@, AttrView::Text(c.confidentiality@)),
            ] + if c.owner_groups@.len() > 0 {
                seq![("owner_groups"@, AttrView::TextSet(strings_view(c.owner_groups@)))]
            } else {
                Seq::empty()
            });
        },
        None => {},
    }
    let ghost a1 = attrs_view(attrs@);
    match find_tag_value(&asset.tags, "status") {
        Some(v) => {
            attrs.push(Attr { name: owned("status"), value: AttrValue::Text(v) });
        },
        None => {},
    }
    let ghost a2 = attrs_view(attrs@);
    assert(a2 =~= a1 + match first_tag_value(asset.tags@, "status"@) {
        Some(v) => seq![("status"@, AttrView::Text(v))],
        None => Seq::empty(),
    });
    match find_tag_value(&asset.tags, "asset_type") {
        Some(v) => {
            attrs.push(Attr { name: owned("asset_type"), value: AttrValue::Text(v) });
        },
        None => {},
    }
    assert(attrs_view(attrs@) =~= a2 + match first_tag_value(asset.tags@, "asset_type"@) {
        Some(v) => seq![("asset_type"@, AttrView::Text(v))],
        None => Seq::empty(),
    });
    EntityModel { uid: EntityRef { entity_type: owned("Asset"), id: asset.id.clone() }, attrs }
}

/// The value of the first claim named `key`.
pub open spec fn first_claim(extra: Seq<ClaimEntry>, key: Seq<char>) -> Option<ClaimValue>
    decreases extra.len(),
{
    if extra.len() == 0 {
        None
    } else if extra[0].key@ == key {
        Some(extra[0].value)
    } else {
        first_claim(extra.drop_first(), key)
    }
}

/// The string elements of an array claim, in order.
pub open spec fn text_items(items: Seq<ClaimItem>) -> Seq<Seq<char>>
    decreases items.len(),
{
    if items.len() == 0 {
        Seq::empty()
    } else {
        let prev = text_items(items.drop_last());
        match items.last() {
            ClaimItem::Text(s) => prev.push(s@),
            ClaimItem::Other(_) => prev,
        }
    }
}

/// What the policy engine is told about a principal: its `role` when the
/// `role` claim is a string, then its `groups` (the string elements of the
/// `groups` claim) when that claim is an array with at least one string.
pub open spec fn principal_attrs(claims: &Claims) -> Seq<(Seq<char>, AttrView)> {
    let role = match first_claim(claims.extra@, "role"@) {
        Some(ClaimValue::Text(r)) => seq![("role"@, AttrView::Text(r@))],
        _ => Seq::empty(),
    };
    let groups = match first_claim(claims.extra@, "groups"@) {
        Some(ClaimValue::Array(items)) => if text_items(items@).len() > 0 {
            seq![("groups"@, AttrView::TextSet(text_items(items@)))]
        } else {
            Seq::empty()
        },
        _ => Seq::empty(),
    };
    role + groups
}

fn find_claim<'a>(extra: &'a Vec<ClaimEntry>, key: &str) -> (r: Option<&'a ClaimValue>)
    ensures
        match r {
            Some(v) => first_claim(extra@, key@) == Some(*v),
            None => first_claim(extra@, key@) is None,
        },
{
    let n = extra.len();
    let mut i: usize = 0;
    assert(extra@.skip(0) =~= extra@);
    while i < n
        invariant
            n == extra@.len(),
            i <= n,
            first_claim(extra@, key@) == first_claim(extra@.skip(i as int), key@),
        decreases n - i,
    {
        assert(extra@.skip(i as int)[0] == extra@[i as int]);
        assert(extra@.skip(i as int).drop_first() =~= extra@.skip(i + 1));
        if str_eq(extra[i].key.as_str(), key) {
            return Some(&extra[i].value);
        }
        i = i + 1;
    }
    None
}

/// The entity of a principal: `User::"<sub>"` with the attributes of
/// `principal_attrs`.
pub fn user_to_cedar_principal(claims: &Claims) -> (e: EntityModel)
    ensures
        e.uid.entity_type@ == "User"@,
        e.uid.id@ == claims.sub@,
        attrs_view(e.attrs@) == principal_attrs(claims),
{
    let mut attrs: Vec<Attr> = Vec::new();
    match find_claim(&claims.extra, "role") {
        Some(ClaimValue::Text(r)) => {
            attrs.push(Attr { name: owned("role"), value: AttrValue::Text(r.clone()) });
        },
        _ => {},
    }
    let ghost a1 = attrs_view(attrs@);
    assert(a1 =~= match first_claim(claims.extra@, "role"@) {
        Some(ClaimValue::Text(r)) => seq![("role"@, AttrView::Text(r@))],
        _ => Seq::empty(),
    });
    match find_claim(&claims.extra, "groups") {
        Some(ClaimValue::Array(items)) => {
            let mut groups: Vec<String> = Vec::new();
            let n = items.len();
            for i in 0..n
                invariant
                    n == items@.len(),
                    strings_view(groups@) == text_items(items@.take(i as int)),
            {
                assert(items@.take(i + 1).drop_last() =~= items@.take(i as int));
                let ghost before = groups@;
                match &items[i] {
                    ClaimItem::Text(s) => {
                        groups.push(s.clone());
                        assert(strings_view(groups@) =~= strings_view(before).push(s@));
                    },
                    ClaimItem::Other(_) => {},
                }
            }
            assert(items@.take(n as int) =~= items@);
            if groups.len() > 0 {
                let ghost gv = strings_view(groups@);
                attrs.push(Attr { name: owned("groups"), value: AttrValue::TextSet(groups) });
                assert(attrs_view(attrs@) =~= a1.push(("groups"@, AttrView::TextSet(gv))));
            }
        },
        _ => {},
    }
    EntityModel { uid: EntityRef { entity_type: owned("User"), id: claims.sub.clone() }, attrs }
}

/// The claims used for policy checks of a request's principal: the
/// principal's own claims (see `AuthenticatedUser::to_cedar_claims`) —
/// subject, email and username, issuer `pdt`, no audience or expiry, and the
/// token's further claims (role, groups) as the token carried them; a
/// principal built without a token has role `viewer`.
pub fn extract_claims_for_cedar(user: &AuthenticatedUser) -> (c: Claims)
    ensures
        c.sub@ == user.user_id@,
        c.iss@ == "pdt"@,
        c.aud is None,
        c.exp == i64::MAX,
        c.iat is None,
        opt_view(c.email) == opt_view(user.email),
        c.name is None,
        opt_view(c.preferred_username) == opt_view(user.username),
        match user.claims_extra {
            Some(orig) => entries_eq(c.extra@, orig@),
            None => role_only(c.extra@, "viewer"@),
        },
{
    user.to_cedar_claims()
}

/// What the policy store endpoint serves: the policy text, the schema text,
/// and a version string that changes with the policy text.
#[derive(Debug)]
pub struct CedarPolicyResponse {
    pub policy: String,
    pub schema: String,
    pub version: String,
}

} // verus!
