//! What SCIM group memberships project onto application roles: the sources
//! of a grant, the inputs handed to a role projection, and the canonical
//! forms of mapped roles and of the grant list.

use crate::exact_clone::ExactClone;
use crate::sorting::{sort_by_keys, stably_sorted, SortPart, SortPartV};
use crate::text::{str_eq, trim, trimmed};
use vstd::prelude::*;

verus! {

/// What authorizes a projected role: a SCIM group.
pub enum ScimAuthorizationSource {
    Group { id: String, external_id: Option<String>, display_name: String },
}

pub enum ScimAuthorizationSourceView {
    Group { id: Seq<char>, external_id: Option<Seq<char>>, display_name: Seq<char> },
}

impl DeepView for ScimAuthorizationSource {
    type V = ScimAuthorizationSourceView;

    open spec fn deep_view(&self) -> ScimAuthorizationSourceView {
        match self {
            ScimAuthorizationSource::Group { id, external_id, display_name } => ScimAuthorizationSourceView::Group {
                id: id@,
                external_id: external_id.deep_view(),
                display_name: display_name@,
            },
        }
    }
}

impl ExactClone for ScimAuthorizationSource {
    fn exact_clone(&self) -> (r: ScimAuthorizationSource) {
        match self {
            ScimAuthorizationSource::Group { id, external_id, display_name } => ScimAuthorizationSource::Group {
                id: id.exact_clone(),
                external_id: external_id.exact_clone(),
                display_name: display_name.exact_clone(),
            },
        }
    }
}

/// A role granted to a user through a source.
pub struct ScimProjectedRoleGrant {
    pub source: ScimAuthorizationSource,
    pub role: String,
}

impl DeepView for ScimProjectedRoleGrant {
    type V = (ScimAuthorizationSourceView, Seq<char>);

    open spec fn deep_view(&self) -> (ScimAuthorizationSourceView, Seq<char>) {
        (self.source.deep_view(), self.role@)
    }
}

impl ExactClone for ScimProjectedRoleGrant {
    fn exact_clone(&self) -> (r: ScimProjectedRoleGrant) {
        ScimProjectedRoleGrant { source: self.source.exact_clone(), role: self.role.exact_clone() }
    }
}

/// What a role projection is asked to map: a SCIM user of a connection and
/// the source that may grant it roles.
pub struct ScimRoleMappingInput {
    pub connection_id: String,
    pub provisioning_domain_id: String,
    pub scim_user_id: String,
    pub user_id: String,
    pub source: ScimAuthorizationSource,
}

/// What a role projection is asked to confirm: that a role exists for the
/// connection's domain.
pub struct ScimRoleExistenceInput {
    pub connection_id: String,
    pub provisioning_domain_id: String,
    pub role: String,
}

/// The fields of a SCIM group record that a membership is checked against.
#[derive(Debug)]
pub struct MembershipGroup {
    pub connection_id: String,
    pub provisioning_domain_id: String,
    pub external_id: Option<String>,
    pub display_name: String,
}

/// The source through which a membership in group `group_id` grants roles:
/// the group, where it exists in the user's connection and provisioning
/// domain; none otherwise, and then no role mapping is asked for.
pub fn membership_source(
    group_id: String,
    group: Option<MembershipGroup>,
    connection_id: &str,
    provisioning_domain_id: &str,
) -> (r: Option<ScimAuthorizationSource>)
    ensures
        match group {
            None => r is None,
            Some(g) => if g.connection_id@ == connection_id@ && g.provisioning_domain_id@ == provisioning_domain_id@ {
                r matches Some(s) && s.deep_view() == (ScimAuthorizationSourceView::Group {
                    id: group_id@,
                    external_id: g.external_id.deep_view(),
                    display_name: g.display_name@,
                })
            } else {
                r is None
            },
        },
{
    let g = match group {
        Some(g) => g,
        None => return None,
    };
    if !str_eq(g.connection_id.as_str(), connection_id) || !str_eq(
        g.provisioning_domain_id.as_str(),
        provisioning_domain_id,
    ) {
        return None;
    }
    Some(ScimAuthorizationSource::Group { id: group_id, external_id: g.external_id, display_name: g.display_name })
}

/// The roles that a mapping lists, trimmed, without empty ones and without
/// later repeats.
pub open spec fn normalized_roles(roles: Seq<Seq<char>>) -> Seq<Seq<char>>
    decreases roles.len(),
{
    if roles.len() == 0 {
        roles
    } else {
        let kept = normalized_roles(roles.drop_last());
        let role = trim(roles.last());
        if role.len() > 0 && !kept.contains(role) {
            kept.push(role)
        } else {
            kept
        }
    }
}

/// The mapped roles, trimmed, without empty ones and without repeats.
pub fn normalize_roles(roles: &Vec<String>) -> (r: Vec<String>)
    ensures
        r.deep_view() == normalized_roles(roles.deep_view()),
{
    let ghost s = roles.deep_view();
    let mut r: Vec<String> = Vec::new();
    let mut i: usize = 0;
    assert(s.take(0) =~= Seq::<Seq<char>>::empty());
    while i < roles.len()
        invariant
            s == roles.deep_view(),
            i <= s.len(),
            r.deep_view() == normalized_roles(s.take(i as int)),
        decreases s.len() - i,
    {
        let role = trimmed(roles[i].as_str());
        assert(s[i as int] == roles@[i as int]@);
        assert(s.take(i + 1).drop_last() =~= s.take(i as int));
        assert(s.take(i + 1).last() == s[i as int]);
        let mut seen = false;
        let mut j: usize = 0;
        while j < r.len()
            invariant
                j <= r@.len(),
                seen == exists|k: int| 0 <= k < j && r.deep_view()[k] == role@,
            decreases r@.len() - j,
        {
            assert(r.deep_view()[j as int] == r@[j as int]@);
            if str_eq(r[j].as_str(), role.as_str()) {
                seen = true;
            }
            j = j + 1;
        }
        assert(seen == r.deep_view().contains(role@));
        if !role.as_str().is_empty() && !seen {
            let ghost before = r.deep_view();
            let ghost value = role@;
            r.push(role);
            assert(r.deep_view() =~= before.push(value)) by {
                assert(r@[before.len() as int]@ == value);
            }
        }
        i = i + 1;
    }
    assert(s.take(i as int) =~= s);
    r
}

/// Grants are ordered by source group id, then role.
pub open spec fn grant_sort_key(g: (ScimAuthorizationSourceView, Seq<char>)) -> Seq<SortPartV> {
    match g.0 {
        ScimAuthorizationSourceView::Group { id, .. } => seq![SortPartV::Text(id), SortPartV::Text(g.1)],
    }
}

fn grant_key(g: &ScimProjectedRoleGrant) -> (k: Vec<SortPart>)
    ensures
        k.deep_view() == grant_sort_key(g.deep_view()),
{
    let k = match &g.source {
        ScimAuthorizationSource::Group { id, .. } => vec![SortPart::Text(id.exact_clone()), SortPart::Text(g.role.exact_clone())],
    };
    assert(k.deep_view() =~= grant_sort_key(g.deep_view()));
    k
}

/// The grants ordered stably by source group id, then role.
pub fn sort_projected_grants(grants: &Vec<ScimProjectedRoleGrant>) -> (r: Vec<ScimProjectedRoleGrant>)
    ensures
        stably_sorted(
            r.deep_view(),
            grants.deep_view(),
            grants.deep_view().map_values(
                |g: (ScimAuthorizationSourceView, Seq<char>)| grant_sort_key(g),
            ),
            false,
        ),
{
    let ghost s = grants.deep_view();
    let mut keys: Vec<Vec<SortPart>> = Vec::new();
    let mut i: usize = 0;
    while i < grants.len()
        invariant
            s == grants.deep_view(),
            i <= s.len(),
            keys.deep_view() == s.take(i as int).map_values(
                |g: (ScimAuthorizationSourceView, Seq<char>)| grant_sort_key(g),
            ),
        decreases s.len() - i,
    {
        let ghost prev = keys.deep_view();
        keys.push(grant_key(&grants[i]));
        assert(s[i as int] == grants@[i as int].deep_view());
        assert(keys.deep_view() =~= prev.push(grant_sort_key(s[i as int])));
        assert(s.take(i + 1).map_values(|g: (ScimAuthorizationSourceView, Seq<char>)| grant_sort_key(g))
            =~= s.take(i as int).map_values(|g: (ScimAuthorizationSourceView, Seq<char>)| grant_sort_key(g)).push(
            grant_sort_key(s[i as int]),
        ));
        i = i + 1;
    }
    assert(s.take(i as int) =~= s);
    sort_by_keys(grants, &keys, false)
}

} // verus!
