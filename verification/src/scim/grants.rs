//! Synchronising the stored role grants of a user with the grants that its
//! SCIM group memberships project: stored grants that are no longer wanted
//! are deleted, wanted grants that are not stored are created.

use crate::exact_clone::ExactClone;
use crate::scim::projection::{
    grant_sort_key, sort_projected_grants, ScimAuthorizationSource, ScimAuthorizationSourceView, ScimProjectedRoleGrant,
};
use crate::sorting::{sort_by_keys, stably_sorted, SortPart, SortPartV};
use crate::text::{owned, str_eq};
use vstd::prelude::*;

verus! {

/// A grant that the memberships of a SCIM user call for, under its grant
/// key.
pub struct DesiredGrant {
    pub key: String,
    pub connection_id: String,
    pub scim_user_id: String,
    pub source: ScimAuthorizationSource,
    pub role: String,
}

pub struct DesiredGrantView {
    pub key: Seq<char>,
    pub connection_id: Seq<char>,
    pub scim_user_id: Seq<char>,
    pub source: ScimAuthorizationSourceView,
    pub role: Seq<char>,
}

impl DeepView for DesiredGrant {
    type V = DesiredGrantView;

    open spec fn deep_view(&self) -> DesiredGrantView {
        DesiredGrantView {
            key: self.key@,
            connection_id: self.connection_id@,
            scim_user_id: self.scim_user_id@,
            source: self.source.deep_view(),
            role: self.role@,
        }
    }
}

impl ExactClone for DesiredGrant {
    fn exact_clone(&self) -> (r: DesiredGrant) {
        DesiredGrant {
            key: self.key.exact_clone(),
            connection_id: self.connection_id.exact_clone(),
            scim_user_id: self.scim_user_id.exact_clone(),
            source: self.source.exact_clone(),
            role: self.role.exact_clone(),
        }
    }
}

/// The source and role of a desired grant.
pub fn projected(grant: &DesiredGrant) -> (r: ScimProjectedRoleGrant)
    ensures
        r.deep_view() == (grant.source.deep_view(), grant.role@),
{
    ScimProjectedRoleGrant { source: grant.source.exact_clone(), role: grant.role.exact_clone() }
}

/// A stored grant record: its id and, where the record has one, its grant
/// key.
pub struct StoredGrant {
    pub id: String,
    pub grant_key: Option<String>,
}

pub struct StoredGrantView {
    pub id: Seq<char>,
    pub grant_key: Option<Seq<char>>,
}

impl DeepView for StoredGrant {
    type V = StoredGrantView;

    open spec fn deep_view(&self) -> StoredGrantView {
        StoredGrantView { id: self.id@, grant_key: self.grant_key.deep_view() }
    }
}

/// Whether some desired grant has key `k`.
pub open spec fn is_desired(desired: Seq<DesiredGrantView>, k: Seq<char>) -> bool {
    exists|j: int| 0 <= j < desired.len() && (#[trigger] desired[j]).key == k
}

/// Whether some stored grant has key `k`.
pub open spec fn is_stored(stored: Seq<StoredGrantView>, k: Seq<char>) -> bool {
    exists|j: int| 0 <= j < stored.len() && (#[trigger] stored[j]).grant_key == Some(k)
}

/// Whether a later stored grant has the same key as the one at `i`: keys
/// are matched to the last record that carries them.
pub open spec fn key_taken_later(stored: Seq<StoredGrantView>, i: int) -> bool {
    exists|j: int| i < j < stored.len() && (#[trigger] stored[j]).grant_key == stored[i].grant_key
}

/// Whether the stored grant at `i` is deleted: it carries a key, it is the
/// last record with that key, and no desired grant has the key.
pub open spec fn is_obsolete(stored: Seq<StoredGrantView>, desired: Seq<DesiredGrantView>, i: int) -> bool {
    &&& stored[i].grant_key is Some
    &&& !key_taken_later(stored, i)
    &&& !is_desired(desired, stored[i].grant_key->0)
}

/// The ids of the obsolete grants among the first `n` stored ones, in
/// order.
pub open spec fn obsolete_ids(stored: Seq<StoredGrantView>, desired: Seq<DesiredGrantView>, n: nat) -> Seq<
    Seq<char>,
>
    decreases n,
{
    if n == 0 {
        Seq::empty()
    } else {
        let earlier = obsolete_ids(stored, desired, (n - 1) as nat);
        if is_obsolete(stored, desired, n - 1) {
            earlier.push(stored[n - 1].id)
        } else {
            earlier
        }
    }
}

/// The desired grants among the first `n` whose key no stored grant
/// carries, in order.
pub open spec fn missing_grants(stored: Seq<StoredGrantView>, desired: Seq<DesiredGrantView>, n: nat) -> Seq<
    DesiredGrantView,
>
    decreases n,
{
    if n == 0 {
        Seq::empty()
    } else {
        let earlier = missing_grants(stored, desired, (n - 1) as nat);
        if is_stored(stored, desired[n - 1].key) {
            earlier
        } else {
            earlier.push(desired[n - 1])
        }
    }
}

fn desired_has_key(desired: &Vec<DesiredGrant>, key: &str) -> (r: bool)
    ensures
        r == is_desired(desired.deep_view(), key@),
{
    let mut i: usize = 0;
    while i < desired.len()
        invariant
            i <= desired@.len(),
            forall|j: int| 0 <= j < i ==> (#[trigger] desired.deep_view()[j]).key != key@,
        decreases desired@.len() - i,
    {
        assert(desired.deep_view()[i as int] == desired@[i as int].deep_view());
        if str_eq(desired[i].key.as_str(), key) {
            return true;
        }
        i = i + 1;
    }
    false
}

fn stored_has_key(stored: &Vec<StoredGrant>, key: &str, from: usize) -> (r: bool)
    requires
        from <= stored@.len(),
    ensures
        r == exists|j: int| from <= j < stored@.len() && (#[trigger] stored.deep_view()[j]).grant_key == Some(key@),
{
    let mut i: usize = from;
    while i < stored.len()
        invariant
            from <= i <= stored@.len(),
            forall|j: int| from <= j < i ==> (#[trigger] stored.deep_view()[j]).grant_key != Some(key@),
        decreases stored@.len() - i,
    {
        assert(stored.deep_view()[i as int] == stored@[i as int].deep_view());
        match &stored[i].grant_key {
            Some(k) => {
                if str_eq(k.as_str(), key) {
                    return true;
                }
            },
            None => {},
        }
        i = i + 1;
    }
    false
}

/// The ids of the stored grants to delete: each key is matched to the last
/// record that carries it, and the record is deleted where no desired grant
/// has its key. Records without a key are left alone.
pub fn obsolete_grant_ids(stored: &Vec<StoredGrant>, desired: &Vec<DesiredGrant>) -> (r: Vec<String>)
    ensures
        r.deep_view() == obsolete_ids(stored.deep_view(), desired.deep_view(), stored@.len()),
{
    let ghost s = stored.deep_view();
    let ghost d = desired.deep_view();
    let mut out: Vec<String> = Vec::new();
    let mut i: usize = 0;
    while i < stored.len()
        invariant
            s == stored.deep_view(),
            d == desired.deep_view(),
            i <= s.len(),
            out.deep_view() == obsolete_ids(s, d, i as nat),
        decreases s.len() - i,
    {
        assert(s[i as int] == stored@[i as int].deep_view());
        let obsolete = match &stored[i].grant_key {
            Some(k) => {
                let later = stored_has_key(stored, k.as_str(), i + 1);
                assert(later == key_taken_later(s, i as int));
                !later && !desired_has_key(desired, k.as_str())
            },
            None => false,
        };
        assert(obsolete == is_obsolete(s, d, i as int));
        if obsolete {
            out.push(stored[i].id.exact_clone());
            assert(out.deep_view() =~= obsolete_ids(s, d, i as nat).push(s[i as int].id));
        }
        i = i + 1;
    }
    out
}

/// The desired grants to create: those whose key no stored grant carries,
/// in the order they are desired.
pub fn missing_desired_grants(stored: &Vec<StoredGrant>, desired: &Vec<DesiredGrant>) -> (r: Vec<DesiredGrant>)
    ensures
        r.deep_view() == missing_grants(stored.deep_view(), desired.deep_view(), desired@.len()),
{
    let ghost s = stored.deep_view();
    let ghost d = desired.deep_view();
    let mut out: Vec<DesiredGrant> = Vec::new();
    let mut i: usize = 0;
    while i < desired.len()
        invariant
            s == stored.deep_view(),
            d == desired.deep_view(),
            i <= d.len(),
            out.deep_view() == missing_grants(s, d, i as nat),
        decreases d.len() - i,
    {
        assert(d[i as int] == desired@[i as int].deep_view());
        let present = stored_has_key(stored, desired[i].key.as_str(), 0);
        assert(present == is_stored(s, d[i as int].key));
        if !present {
            out.push(desired[i].exact_clone());
            assert(out.deep_view() =~= missing_grants(s, d, i as nat).push(d[i as int]));
        }
        i = i + 1;
    }
    out
}

/// Whether no two stored grants carry the same key.
pub open spec fn keys_unique(stored: Seq<StoredGrantView>) -> bool {
    forall|i: int, j: int|
        0 <= i < j < stored.len() && (#[trigger] stored[i]).grant_key is Some ==> stored[i].grant_key != (
        #[trigger] stored[j]).grant_key
}

/// Whether no two stored grants share an id.
pub open spec fn ids_unique(stored: Seq<StoredGrantView>) -> bool {
    forall|i: int, j: int| 0 <= i < j < stored.len() ==> (#[trigger] stored[i]).id != (#[trigger] stored[j]).id
}

/// Whether, once the grants whose ids `obsolete_grant_ids` lists are
/// deleted and those that `missing_desired_grants` lists are created, some
/// grant carries key `k`.
pub open spec fn synced_has_key(stored: Seq<StoredGrantView>, desired: Seq<DesiredGrantView>, k: Seq<char>) -> bool {
    ||| exists|i: int|
        0 <= i < stored.len() && (#[trigger] stored[i]).grant_key == Some(k) && !obsolete_ids(
            stored,
            desired,
            stored.len(),
        ).contains(stored[i].id)
    ||| exists|j: int|
        0 <= j < missing_grants(stored, desired, desired.len()).len() && (#[trigger] missing_grants(
            stored,
            desired,
            desired.len(),
        )[j]).key == k
}

proof fn lemma_obsolete_ids_members(stored: Seq<StoredGrantView>, desired: Seq<DesiredGrantView>, n: nat, i: int)
    requires
        n <= stored.len(),
        0 <= i < stored.len(),
        ids_unique(stored),
    ensures
        obsolete_ids(stored, desired, n).contains(stored[i].id) <==> (i < n && is_obsolete(stored, desired, i)),
    decreases n,
{
    if n > 0 {
        lemma_obsolete_ids_members(stored, desired, (n - 1) as nat, i);
        let earlier = obsolete_ids(stored, desired, (n - 1) as nat);
        if is_obsolete(stored, desired, n - 1) {
            assert(obsolete_ids(stored, desired, n) == earlier.push(stored[n - 1].id));
            if i != n - 1 {
                assert(stored[i].id != stored[n - 1].id);
                if obsolete_ids(stored, desired, n).contains(stored[i].id) {
                    let m = choose|m: int| 0 <= m < obsolete_ids(stored, desired, n).len() && obsolete_ids(stored, desired, n)[m] == stored[i].id;
                    if m < earlier.len() {
                        assert(earlier[m] == stored[i].id);
                    }
                }
                if earlier.contains(stored[i].id) {
                    let m = choose|m: int| 0 <= m < earlier.len() && earlier[m] == stored[i].id;
                    assert(obsolete_ids(stored, desired, n)[m] == stored[i].id);
                }
            } else {
                assert(obsolete_ids(stored, desired, n)[earlier.len() as int] == stored[i].id);
            }
        }
    }
}

proof fn lemma_missing_from_desired(stored: Seq<StoredGrantView>, desired: Seq<DesiredGrantView>, n: nat, j: int)
    requires
        n <= desired.len(),
        0 <= j < missing_grants(stored, desired, n).len(),
    ensures
        is_desired(desired, missing_grants(stored, desired, n)[j].key),
    decreases n,
{
    let earlier = missing_grants(stored, desired, (n - 1) as nat);
    if j < earlier.len() {
        lemma_missing_from_desired(stored, desired, (n - 1) as nat, j);
    } else {
        assert(desired[n - 1].key == missing_grants(stored, desired, n)[j].key);
    }
}

proof fn lemma_missing_includes(stored: Seq<StoredGrantView>, desired: Seq<DesiredGrantView>, n: nat, j: int)
    requires
        n <= desired.len(),
        0 <= j < n,
        !is_stored(stored, desired[j].key),
    ensures
        exists|m: int| 0 <= m < missing_grants(stored, desired, n).len() && (#[trigger] missing_grants(stored, desired, n)[m]).key == desired[j].key,
    decreases n,
{
    let earlier = missing_grants(stored, desired, (n - 1) as nat);
    if j < n - 1 {
        lemma_missing_includes(stored, desired, (n - 1) as nat, j);
        let m = choose|m: int| 0 <= m < earlier.len() && (#[trigger] earlier[m]).key == desired[j].key;
        assert(missing_grants(stored, desired, n)[m] == earlier[m]);
    } else {
        assert(missing_grants(stored, desired, n)[earlier.len() as int] == desired[j]);
    }
}

/// Where no two stored grants share a key or an id, synchronising leaves exactly the
/// desired keys stored: a key is carried by a kept or created grant if and
/// only if some desired grant has it.
pub proof fn law_sync_leaves_exactly_the_desired_keys(
    stored: Seq<StoredGrantView>,
    desired: Seq<DesiredGrantView>,
    k: Seq<char>,
)
    requires
        keys_unique(stored),
        ids_unique(stored),
    ensures
        synced_has_key(stored, desired, k) <==> is_desired(desired, k),
{
    let missing = missing_grants(stored, desired, desired.len());
    assert forall|i: int| 0 <= i < stored.len() implies obsolete_ids(stored, desired, stored.len()).contains(
        stored[i].id,
    ) == is_obsolete(stored, desired, i) by {
        lemma_obsolete_ids_members(stored, desired, stored.len(), i);
    }
    if synced_has_key(stored, desired, k) {
        if exists|i: int|
            0 <= i < stored.len() && (#[trigger] stored[i]).grant_key == Some(k) && !is_obsolete(stored, desired, i) {
            let i = choose|i: int|
                0 <= i < stored.len() && (#[trigger] stored[i]).grant_key == Some(k) && !is_obsolete(stored, desired, i);
            assert(!key_taken_later(stored, i));
        } else {
            let j = choose|j: int| 0 <= j < missing.len() && (#[trigger] missing[j]).key == k;
            lemma_missing_from_desired(stored, desired, desired.len(), j);
        }
    }
    if is_desired(desired, k) {
        let j = choose|j: int| 0 <= j < desired.len() && (#[trigger] desired[j]).key == k;
        if is_stored(stored, k) {
            let i = choose|i: int| 0 <= i < stored.len() && (#[trigger] stored[i]).grant_key == Some(k);
            assert(!key_taken_later(stored, i));
            assert(!is_obsolete(stored, desired, i));
        } else {
            lemma_missing_includes(stored, desired, desired.len(), j);
        }
    }
}

/// A SCIM user of an active connection through which an application user
/// is provisioned.
#[derive(Clone, Debug)]
pub struct ScimIdentitySource {
    pub id: String,
    pub connection_id: String,
    pub provisioning_domain_id: String,
    pub active: bool,
}

pub struct ScimIdentitySourceView {
    pub id: Seq<char>,
    pub connection_id: Seq<char>,
    pub provisioning_domain_id: Seq<char>,
    pub active: bool,
}

impl DeepView for ScimIdentitySource {
    type V = ScimIdentitySourceView;

    open spec fn deep_view(&self) -> ScimIdentitySourceView {
        ScimIdentitySourceView {
            id: self.id@,
            connection_id: self.connection_id@,
            provisioning_domain_id: self.provisioning_domain_id@,
            active: self.active,
        }
    }
}

impl ExactClone for ScimIdentitySource {
    fn exact_clone(&self) -> (r: ScimIdentitySource) {
        ScimIdentitySource {
            id: self.id.exact_clone(),
            connection_id: self.connection_id.exact_clone(),
            provisioning_domain_id: self.provisioning_domain_id.exact_clone(),
            active: self.active,
        }
    }
}

/// What a projection is told of a provisioned user: its sources, whether
/// any of them is active, and the role grants they project.
pub struct ScimProjectedUserState {
    pub provisioning_domain_id: String,
    pub user_id: String,
    pub active: bool,
    pub sources: Vec<ScimIdentitySource>,
    pub grants: Vec<ScimProjectedRoleGrant>,
}

/// Sources are ordered by their id.
pub open spec fn source_sort_key(s: ScimIdentitySourceView) -> Seq<SortPartV> {
    seq![SortPartV::Text(s.id)]
}

/// The sources ordered stably by id.
pub fn sort_sources(sources: &Vec<ScimIdentitySource>) -> (r: Vec<ScimIdentitySource>)
    ensures
        stably_sorted(
            r.deep_view(),
            sources.deep_view(),
            sources.deep_view().map_values(|s: ScimIdentitySourceView| source_sort_key(s)),
            false,
        ),
{
    let ghost s = sources.deep_view();
    let mut keys: Vec<Vec<SortPart>> = Vec::new();
    let mut i: usize = 0;
    while i < sources.len()
        invariant
            s == sources.deep_view(),
            i <= s.len(),
            keys.deep_view() == s.take(i as int).map_values(|x: ScimIdentitySourceView| source_sort_key(x)),
        decreases s.len() - i,
    {
        let ghost prev = keys.deep_view();
        let key = vec![SortPart::Text(sources[i].id.exact_clone())];
        assert(s[i as int] == sources@[i as int].deep_view());
        assert(key.deep_view() =~= source_sort_key(s[i as int]));
        keys.push(key);
        assert(keys.deep_view() =~= prev.push(source_sort_key(s[i as int])));
        assert(s.take(i + 1).map_values(|x: ScimIdentitySourceView| source_sort_key(x)) =~= s.take(
            i as int,
        ).map_values(|x: ScimIdentitySourceView| source_sort_key(x)).push(source_sort_key(s[i as int])));
        i = i + 1;
    }
    assert(s.take(i as int) =~= s);
    sort_by_keys(sources, &keys, false)
}

/// The sources and roles of desired grants.
pub open spec fn projected_grants(desired: Seq<DesiredGrantView>) -> Seq<(ScimAuthorizationSourceView, Seq<char>)> {
    desired.map_values(|g: DesiredGrantView| (g.source, g.role))
}

/// Whether some source is active.
pub open spec fn any_active(sources: Seq<ScimIdentitySourceView>) -> bool {
    exists|i: int| 0 <= i < sources.len() && (#[trigger] sources[i]).active
}

/// The state handed to a projection for a user: its sources as given, active
/// where any of them is, and the projected grants of the desired ones,
/// ordered by source group id, then role.
pub fn projected_user_state(
    provisioning_domain_id: &str,
    user_id: &str,
    sources: Vec<ScimIdentitySource>,
    desired: &Vec<DesiredGrant>,
) -> (r: ScimProjectedUserState)
    ensures
        r.provisioning_domain_id@ == provisioning_domain_id@,
        r.user_id@ == user_id@,
        r.active == any_active(sources.deep_view()),
        r.sources.deep_view() == sources.deep_view(),
        stably_sorted(
            r.grants.deep_view(),
            projected_grants(desired.deep_view()),
            projected_grants(desired.deep_view()).map_values(
                |g: (ScimAuthorizationSourceView, Seq<char>)| grant_sort_key(g),
            ),
            false,
        ),
{
    let mut granted: Vec<ScimProjectedRoleGrant> = Vec::new();
    let ghost d = desired.deep_view();
    let mut i: usize = 0;
    while i < desired.len()
        invariant
            d == desired.deep_view(),
            i <= d.len(),
            granted.deep_view() == projected_grants(d.take(i as int)),
        decreases d.len() - i,
    {
        let g = projected(&desired[i]);
        let ghost before = granted.deep_view();
        granted.push(g);
        assert(d[i as int] == desired@[i as int].deep_view());
        assert(granted.deep_view() =~= projected_grants(d.take(i + 1))) by {
            assert(d.take(i + 1).drop_last() =~= d.take(i as int));
            assert(projected_grants(d.take(i + 1)) =~= projected_grants(d.take(i as int)).push(
                (d[i as int].source, d[i as int].role),
            ));
        }
        i = i + 1;
    }
    assert(d.take(i as int) =~= d);
    let mut active = false;
    let mut j: usize = 0;
    while j < sources.len()
        invariant
            j <= sources@.len(),
            active == exists|k: int| 0 <= k < j && (#[trigger] sources.deep_view()[k]).active,
        decreases sources@.len() - j,
    {
        assert(sources.deep_view()[j as int] == sources@[j as int].deep_view());
        if sources[j].active {
            active = true;
        }
        j = j + 1;
    }
    let grants = sort_projected_grants(&granted);
    ScimProjectedUserState {
        provisioning_domain_id: owned(provisioning_domain_id),
        user_id: owned(user_id),
        active,
        sources,
        grants,
    }
}

} // verus!
