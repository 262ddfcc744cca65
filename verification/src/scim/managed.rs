//! Managed SCIM connections: records, credentials and their audit events.
//! Times are milliseconds since the Unix epoch.

use crate::codec::{base64_url_no_pad, encode_base64_url_no_pad, hmac_sha256, hmac_sha256_tag, url_safe_base64_char};
use rand::RngExt;
use crate::exact_clone::ExactClone;
use crate::scim::error::{invalid, invalid_value, ScimError, ScimErrorView};
use crate::text::{concat, decimal, decimal_string, owned, str_eq, to_chars, trim, trimmed};
use vstd::prelude::*;
use vstd::utf8::encode_utf8;

verus! {

/// What a SCIM bearer credential may do.
#[derive(Clone, Copy, Debug, PartialEq, Eq, Structural)]
pub enum ScimScope {
    UsersRead,
    UsersWrite,
    GroupsRead,
    GroupsWrite,
}

impl DeepView for ScimScope {
    type V = ScimScope;

    open spec fn deep_view(&self) -> ScimScope {
        *self
    }
}

impl ExactClone for ScimScope {
    fn exact_clone(&self) -> (r: ScimScope) {
        *self
    }
}

/// A managed SCIM connection.
#[derive(Clone, Debug)]
pub struct ScimManagedConnection {
    pub id: String,
    pub creation_request_id: String,
    pub connection_id: String,
    pub provisioning_domain_id: String,
    pub status: String,
    pub revision: u64,
    pub created_at: i64,
    pub created_by: String,
    pub decommission_started_at: Option<i64>,
    pub decommission_started_by: Option<String>,
    pub decommissioned_at: Option<i64>,
    pub decommissioned_by: Option<String>,
}

pub struct ScimManagedConnectionView {
    pub id: Seq<char>,
    pub creation_request_id: Seq<char>,
    pub connection_id: Seq<char>,
    pub provisioning_domain_id: Seq<char>,
    pub status: Seq<char>,
    pub revision: u64,
    pub created_at: i64,
    pub created_by: Seq<char>,
    pub decommission_started_at: Option<i64>,
    pub decommission_started_by: Option<Seq<char>>,
    pub decommissioned_at: Option<i64>,
    pub decommissioned_by: Option<Seq<char>>,
}

impl View for ScimManagedConnection {
    type V = ScimManagedConnectionView;

    open spec fn view(&self) -> ScimManagedConnectionView {
        ScimManagedConnectionView {
            id: self.id@,
            creation_request_id: self.creation_request_id@,
            connection_id: self.connection_id@,
            provisioning_domain_id: self.provisioning_domain_id@,
            status: self.status@,
            revision: self.revision,
            created_at: self.created_at,
            created_by: self.created_by@,
            decommission_started_at: self.decommission_started_at,
            decommission_started_by: self.decommission_started_by.deep_view(),
            decommissioned_at: self.decommissioned_at,
            decommissioned_by: self.decommissioned_by.deep_view(),
        }
    }
}

impl DeepView for ScimManagedConnection {
    type V = ScimManagedConnectionView;

    open spec fn deep_view(&self) -> ScimManagedConnectionView {
        self@
    }
}

impl ExactClone for ScimManagedConnection {
    fn exact_clone(&self) -> (r: ScimManagedConnection) {
        ScimManagedConnection {
            id: self.id.exact_clone(),
            creation_request_id: self.creation_request_id.exact_clone(),
            connection_id: self.connection_id.exact_clone(),
            provisioning_domain_id: self.provisioning_domain_id.exact_clone(),
            status: self.status.exact_clone(),
            revision: self.revision,
            created_at: self.created_at,
            created_by: self.created_by.exact_clone(),
            decommission_started_at: self.decommission_started_at,
            decommission_started_by: self.decommission_started_by.exact_clone(),
            decommissioned_at: self.decommissioned_at,
            decommissioned_by: self.decommissioned_by.exact_clone(),
        }
    }
}

/// A bearer credential of a managed connection. Only a digest of the token
/// is kept.
#[derive(Clone, Debug)]
pub struct ScimManagedCredential {
    pub id: String,
    pub connection_record_id: String,
    pub credential_id: String,
    pub token_digest: String,
    pub hash_version: String,
    pub active_slot_key: String,
    pub status: String,
    pub scopes: Vec<ScimScope>,
    pub serialized_scopes: String,
    pub expires_at: i64,
    pub created_at: i64,
    pub created_by: String,
    pub last_used_at: Option<i64>,
    pub revoked_at: Option<i64>,
    pub revoked_by: Option<String>,
    pub decommissioned_at: Option<i64>,
}

pub struct ScimManagedCredentialView {
    pub id: Seq<char>,
    pub connection_record_id: Seq<char>,
    pub credential_id: Seq<char>,
    pub token_digest: Seq<char>,
    pub hash_version: Seq<char>,
    pub active_slot_key: Seq<char>,
    pub status: Seq<char>,
    pub scopes: Seq<ScimScope>,
    pub serialized_scopes: Seq<char>,
    pub expires_at: i64,
    pub created_at: i64,
    pub created_by: Seq<char>,
    pub last_used_at: Option<i64>,
    pub revoked_at: Option<i64>,
    pub revoked_by: Option<Seq<char>>,
    pub decommissioned_at: Option<i64>,
}

impl View for ScimManagedCredential {
    type V = ScimManagedCredentialView;

    open spec fn view(&self) -> ScimManagedCredentialView {
        ScimManagedCredentialView {
            id: self.id@,
            connection_record_id: self.connection_record_id@,
            credential_id: self.credential_id@,
            token_digest: self.token_digest@,
            hash_version: self.hash_version@,
            active_slot_key: self.active_slot_key@,
            status: self.status@,
            scopes: self.scopes.deep_view(),
            serialized_scopes: self.serialized_scopes@,
            expires_at: self.expires_at,
            created_at: self.created_at,
            created_by: self.created_by@,
            last_used_at: self.last_used_at,
            revoked_at: self.revoked_at,
            revoked_by: self.revoked_by.deep_view(),
            decommissioned_at: self.decommissioned_at,
        }
    }
}

impl DeepView for ScimManagedCredential {
    type V = ScimManagedCredentialView;

    open spec fn deep_view(&self) -> ScimManagedCredentialView {
        self@
    }
}

impl ExactClone for ScimManagedCredential {
    fn exact_clone(&self) -> (r: ScimManagedCredential) {
        ScimManagedCredential {
            id: self.id.exact_clone(),
            connection_record_id: self.connection_record_id.exact_clone(),
            credential_id: self.credential_id.exact_clone(),
            token_digest: self.token_digest.exact_clone(),
            hash_version: self.hash_version.exact_clone(),
            active_slot_key: self.active_slot_key.exact_clone(),
            status: self.status.exact_clone(),
            scopes: self.scopes.exact_clone(),
            serialized_scopes: self.serialized_scopes.exact_clone(),
            expires_at: self.expires_at,
            created_at: self.created_at,
            created_by: self.created_by.exact_clone(),
            last_used_at: self.last_used_at,
            revoked_at: self.revoked_at,
            revoked_by: self.revoked_by.exact_clone(),
            decommissioned_at: self.decommissioned_at,
        }
    }
}

/// An audit event of a managed connection, numbered by `sequence`.
#[derive(Clone, Debug)]
pub struct ScimManagedConnectionEvent {
    pub id: String,
    pub connection_record_id: String,
    pub sequence: u64,
    pub kind: String,
    pub actor_id: String,
    pub credential_id: Option<String>,
    pub created_at: i64,
}

pub struct ScimManagedConnectionEventView {
    pub id: Seq<char>,
    pub connection_record_id: Seq<char>,
    pub sequence: u64,
    pub kind: Seq<char>,
    pub actor_id: Seq<char>,
    pub credential_id: Option<Seq<char>>,
    pub created_at: i64,
}

impl View for ScimManagedConnectionEvent {
    type V = ScimManagedConnectionEventView;

    open spec fn view(&self) -> ScimManagedConnectionEventView {
        ScimManagedConnectionEventView {
            id: self.id@,
            connection_record_id: self.connection_record_id@,
            sequence: self.sequence,
            kind: self.kind@,
            actor_id: self.actor_id@,
            credential_id: self.credential_id.deep_view(),
            created_at: self.created_at,
        }
    }
}

impl DeepView for ScimManagedConnectionEvent {
    type V = ScimManagedConnectionEventView;

    open spec fn deep_view(&self) -> ScimManagedConnectionEventView {
        self@
    }
}

impl ExactClone for ScimManagedConnectionEvent {
    fn exact_clone(&self) -> (r: ScimManagedConnectionEvent) {
        ScimManagedConnectionEvent {
            id: self.id.exact_clone(),
            connection_record_id: self.connection_record_id.exact_clone(),
            sequence: self.sequence,
            kind: self.kind.exact_clone(),
            actor_id: self.actor_id.exact_clone(),
            credential_id: self.credential_id.exact_clone(),
            created_at: self.created_at,
        }
    }
}

/// Settings of managed connections: the secret that credential digests are
/// keyed with, how many credentials of a connection may be active, and how
/// often a credential's last use is written, in seconds.
#[derive(Clone, Debug)]
pub struct ScimManagedConnectionOptions {
    pub credential_hash_secret: String,
    pub max_active_credentials: usize,
    pub last_used_write_interval_seconds: u64,
}

/// Longest text that managed-connection fields accept, in characters.
pub const MAX_TEXT_CHARS: usize = 255;

/// The refusal of a text field that is not trimmed or whose length is not
/// between `minimum` and 255 characters.
pub open spec fn text_refusal(value: Seq<char>, minimum: nat, field: Seq<char>) -> Option<ScimErrorView> {
    if trim(value) != value || !(minimum <= value.len() <= 255) {
        Some(
            invalid_value(
                field + " must contain "@ + decimal(minimum) + " through 255 trimmed characters"@,
            ),
        )
    } else {
        None
    }
}

/// The result of a check, by value.
pub open spec fn check_view(r: Result<(), ScimError>) -> Option<ScimErrorView> {
    match r {
        Ok(()) => None,
        Err(e) => Some(e@),
    }
}

/// Checks that a text field is trimmed and holds `minimum` through 255
/// characters.
pub fn validate_text(value: &str, minimum: usize, field: &str) -> (r: Result<(), ScimError>)
    ensures
        check_view(r) == text_refusal(value@, minimum as nat, field@),
{
    let t = trimmed(value);
    let count = to_chars(value).len();
    if !str_eq(t.as_str(), value) || !(minimum <= count && count <= MAX_TEXT_CHARS) {
        let head = concat(field, " must contain ");
        let number = decimal_string(minimum as u64);
        let with_number = concat(head.as_str(), number.as_str());
        let detail = concat(with_number.as_str(), " through 255 trimmed characters");
        proof {
            assert(detail@ =~= field@ + " must contain "@ + decimal(minimum as nat)
                + " through 255 trimmed characters"@);
        }
        Err(invalid(detail))
    } else {
        Ok(())
    }
}

/// Whether no scope occurs twice.
pub open spec fn scopes_distinct(scopes: Seq<ScimScope>) -> bool {
    forall|i: int, j: int| 0 <= i < j < scopes.len() ==> scopes[i] != scopes[j]
}

/// The refusal, if any, of a credential policy: the domain and actor texts,
/// non-empty distinct scopes, and an expiry after `now`.
pub open spec fn policy_refusal(
    provisioning_domain_id: Seq<char>,
    actor_id: Seq<char>,
    scopes: Seq<ScimScope>,
    expires_at: i64,
    now: i64,
) -> Option<ScimErrorView> {
    if text_refusal(provisioning_domain_id, 1, "provisioningDomainId"@) is Some {
        text_refusal(provisioning_domain_id, 1, "provisioningDomainId"@)
    } else if text_refusal(actor_id, 1, "actorId"@) is Some {
        text_refusal(actor_id, 1, "actorId"@)
    } else if scopes.len() == 0 || !scopes_distinct(scopes) {
        Some(invalid_value("Managed SCIM credential scopes must be non-empty and unique"@))
    } else if expires_at <= now {
        Some(invalid_value("Managed SCIM credential expiry must be in the future"@))
    } else {
        None
    }
}

/// Checks a credential policy at time `now`.
pub fn validate_policy(
    provisioning_domain_id: &str,
    actor_id: &str,
    scopes: &Vec<ScimScope>,
    expires_at: i64,
    now: i64,
) -> (r: Result<(), ScimError>)
    ensures
        check_view(r) == policy_refusal(provisioning_domain_id@, actor_id@, scopes@, expires_at, now),
{
    match validate_text(provisioning_domain_id, 1, "provisioningDomainId") {
        Err(e) => return Err(e),
        Ok(()) => {},
    }
    match validate_text(actor_id, 1, "actorId") {
        Err(e) => return Err(e),
        Ok(()) => {},
    }
    let mut distinct = true;
    let mut i: usize = 0;
    while i < scopes.len()
        invariant
            i <= scopes@.len(),
            distinct == (forall|a: int, b: int| 0 <= a < b < i ==> scopes@[a] != scopes@[b]),
        decreases scopes@.len() - i,
    {
        let mut j: usize = 0;
        let ghost before = distinct;
        while j < i
            invariant
                j <= i < scopes@.len(),
                before == (forall|a: int, b: int| 0 <= a < b < i ==> scopes@[a] != scopes@[b]),
                distinct == (before && forall|a: int| 0 <= a < j ==> scopes@[a] != scopes@[i as int]),
            decreases i - j,
        {
            if scopes[j] == scopes[i] {
                distinct = false;
            }
            j = j + 1;
        }
        proof {
            assert(distinct == (forall|a: int, b: int| 0 <= a < b < i + 1 ==> scopes@[a] != scopes@[b])) by {
                if distinct {
                    assert forall|a: int, b: int| 0 <= a < b < i + 1 implies scopes@[a] != scopes@[b] by {
                        if b < i {
                        } else {
                            assert(scopes@[a] != scopes@[i as int]);
                        }
                    }
                } else {
                    if !before {
                        let (a, b) = choose|a: int, b: int| !(0 <= a < b < i ==> scopes@[a] != scopes@[b]);
                        assert(!(0 <= a < b < i + 1 ==> scopes@[a] != scopes@[b]));
                    } else {
                        let a = choose|a: int| !(0 <= a < i ==> scopes@[a] != scopes@[i as int]);
                        assert(!(0 <= a < i as int + 1 ==> scopes@[a] != scopes@[i as int]) || true);
                        assert(!(0 <= a < (i as int) < i + 1 ==> scopes@[a] != scopes@[i as int]));
                    }
                }
            }
        }
        i = i + 1;
    }
    if scopes.len() == 0 || !distinct {
        return Err(invalid(owned("Managed SCIM credential scopes must be non-empty and unique")));
    }
    if expires_at <= now {
        return Err(invalid(owned("Managed SCIM credential expiry must be in the future")));
    }
    Ok(())
}

/// A credential as observed at `now`: active past its expiry reads as
/// `"expired"`.
pub open spec fn observed(c: ScimManagedCredentialView, now: i64) -> ScimManagedCredentialView {
    if c.status == "active"@ && c.expires_at <= now {
        ScimManagedCredentialView { status: "expired"@, ..c }
    } else {
        c
    }
}

/// The credentials as observed at `now`.
pub fn observed_credentials(credentials: Vec<ScimManagedCredential>, now: i64) -> (r: Vec<ScimManagedCredential>)
    ensures
        r.deep_view() == credentials.deep_view().map_values(|c: ScimManagedCredentialView| observed(c, now)),
{
    let ghost original = credentials.deep_view();
    let ghost target = original.map_values(|c: ScimManagedCredentialView| observed(c, now));
    let mut r: Vec<ScimManagedCredential> = Vec::new();
    let mut i: usize = 0;
    while i < credentials.len()
        invariant
            original == credentials.deep_view(),
            target == original.map_values(|c: ScimManagedCredentialView| observed(c, now)),
            i <= original.len(),
            r.deep_view() == target.take(i as int),
        decreases original.len() - i,
    {
        let mut c = credentials[i].exact_clone();
        assert(original[i as int] == credentials@[i as int]@);
        if str_eq(c.status.as_str(), "active") && c.expires_at <= now {
            c.status = owned("expired");
        }
        let ghost before = r.deep_view();
        r.push(c);
        assert(r.deep_view() =~= before.push(r@[i as int]@));
        assert(target.take(i + 1) =~= target.take(i as int).push(target[i as int]));
        i = i + 1;
    }
    assert(target.take(i as int) =~= target);
    r
}

/// The active-slot key of a credential: the connection record, `:active:`
/// and the slot number.
pub open spec fn slot_key(record_id: Seq<char>, slot: nat) -> Seq<char> {
    record_id + ":active:"@ + decimal(slot)
}

/// Whether a credential holds an active slot at `now`.
pub open spec fn holds_slot(c: ScimManagedCredentialView, now: i64) -> bool {
    c.status == "active"@ && c.expires_at > now
}

/// Whether some credential holding a slot at `now` has the slot key `key`.
pub open spec fn slot_used(credentials: Seq<ScimManagedCredentialView>, key: Seq<char>, now: i64) -> bool {
    exists|i: int| 0 <= i < credentials.len() && holds_slot(credentials[i], now) && credentials[i].active_slot_key == key
}

/// The first slot below `maximum` that no credential holds, or `maximum`.
pub open spec fn free_slot(
    credentials: Seq<ScimManagedCredentialView>,
    record_id: Seq<char>,
    now: i64,
    from: nat,
    maximum: nat,
) -> nat
    decreases maximum - from,
{
    if from >= maximum {
        maximum
    } else if !slot_used(credentials, slot_key(record_id, from), now) {
        from
    } else {
        free_slot(credentials, record_id, now, from + 1, maximum)
    }
}

/// The slot key that `slot_key` spells.
pub fn slot_key_of(record_id: &str, slot: usize) -> (r: String)
    ensures
        r@ == slot_key(record_id@, slot as nat),
{
    let head = concat(record_id, ":active:");
    let number = decimal_string(slot as u64);
    concat(head.as_str(), number.as_str())
}

fn slot_taken(credentials: &Vec<ScimManagedCredential>, key: &str, now: i64) -> (r: bool)
    ensures
        r == slot_used(credentials.deep_view(), key@, now),
{
    let mut i: usize = 0;
    while i < credentials.len()
        invariant
            i <= credentials@.len(),
            forall|j: int|
                0 <= j < i ==> !(holds_slot(credentials.deep_view()[j], now)
                    && #[trigger] credentials.deep_view()[j].active_slot_key == key@),
        decreases credentials@.len() - i,
    {
        let c = &credentials[i];
        assert(credentials.deep_view()[i as int] == c@);
        if str_eq(c.status.as_str(), "active") && c.expires_at > now && str_eq(c.active_slot_key.as_str(), key) {
            return true;
        }
        i = i + 1;
    }
    false
}

/// The first free active slot of a connection record at `now`, or `maximum`
/// where every slot below it is held.
pub fn free_active_slot(credentials: &Vec<ScimManagedCredential>, record_id: &str, now: i64, maximum: usize) -> (r:
    usize)
    ensures
        r == free_slot(credentials.deep_view(), record_id@, now, 0, maximum as nat),
{
    let mut slot: usize = 0;
    while slot < maximum
        invariant
            slot <= maximum,
            free_slot(credentials.deep_view(), record_id@, now, 0, maximum as nat) == free_slot(
                credentials.deep_view(),
                record_id@,
                now,
                slot as nat,
                maximum as nat,
            ),
        decreases maximum - slot,
    {
        let key = slot_key_of(record_id, slot);
        if !slot_taken(credentials, key.as_str(), now) {
            return slot;
        }
        slot = slot + 1;
    }
    maximum
}

/// The digest under which a managed credential token is kept: the URL-safe
/// base64 of the token's HMAC-SHA256 under the secret.
pub open spec fn token_digest_spec(secret: Seq<char>, token: Seq<char>) -> Seq<char> {
    base64_url_no_pad(hmac_sha256(encode_utf8(secret), encode_utf8(token)))
}

/// The digest of a managed credential token under the secret.
pub fn token_digest(secret: &str, token: &str) -> (r: Result<String, ScimError>)
    ensures
        r matches Ok(d) && d@ == token_digest_spec(secret@, token@),
{
    let tag = hmac_sha256_tag(secret.as_bytes(), token.as_bytes()).unwrap();
    Ok(encode_base64_url_no_pad(tag.as_slice()))
}

/// Whether two byte strings are equal, comparing every position of the
/// longer one whatever the earlier positions held.
pub fn constant_time_equal(left: &[u8], right: &[u8]) -> (r: bool)
    ensures
        r == (left@ == right@),
{
    let mut difference: bool = left.len() != right.len();
    let maximum = if left.len() > right.len() {
        left.len()
    } else {
        right.len()
    };
    let mut index: usize = 0;
    while index < maximum
        invariant
            index <= maximum,
            maximum == if left@.len() > right@.len() { left@.len() } else { right@.len() },
            difference == (left@.len() != right@.len() || exists|j: int|
                0 <= j < index && j < left@.len() && j < right@.len() && left@[j] != right@[j]),
        decreases maximum - index,
    {
        let a: u8 = if index < left.len() {
            left[index]
        } else {
            0
        };
        let b: u8 = if index < right.len() {
            right[index]
        } else {
            0
        };
        if a != b {
            difference = true;
        }
        proof {
            if left@.len() == right@.len() && a != b {
                assert(index < left@.len() && left@[index as int] != right@[index as int]);
            }
        }
        index = index + 1;
    }
    proof {
        if !difference {
            assert(left@ =~= right@);
        }
    }
    !difference
}

/// The scope that a SCIM request needs: reading or writing, users or
/// groups, by whether the path names `/Groups` and the method reads.
pub open spec fn required_scope_spec(names_groups: bool, reads: bool) -> ScimScope {
    match (names_groups, reads) {
        (true, true) => ScimScope::GroupsRead,
        (true, false) => ScimScope::GroupsWrite,
        (false, true) => ScimScope::UsersRead,
        (false, false) => ScimScope::UsersWrite,
    }
}

/// Whether `needle` occurs in `s`.
pub open spec fn contains_text(s: Seq<char>, needle: Seq<char>) -> bool {
    exists|i: int| 0 <= i && i + needle.len() <= s.len() && #[trigger] s.subrange(i, i + needle.len()) == needle
}

fn text_contains(s: &str, needle: &str) -> (r: bool)
    ensures
        r == contains_text(s@, needle@),
{
    let hay = to_chars(s);
    let pin = to_chars(needle);
    if pin.len() > hay.len() {
        return false;
    }
    let hlen = hay.len();
    let mut i: usize = 0;
    while i <= hay.len() - pin.len()
        invariant
            hlen == hay@.len(),
            hay@ == s@,
            pin@ == needle@,
            pin@.len() <= hay@.len(),
            i <= hay@.len() - pin@.len() + 1,
            forall|k: int| 0 <= k < i ==> #[trigger] s@.subrange(k, k + needle@.len()) != needle@,
        decreases hay@.len() + 1 - i - pin@.len(),
    {
        let mut j: usize = 0;
        let mut same = true;
        while j < pin.len()
            invariant
                hlen == hay@.len(),
                hay@ == s@,
                pin@ == needle@,
                i + pin@.len() <= hay@.len(),
                j <= pin@.len(),
                same == (forall|t: int| 0 <= t < j ==> hay@[i + t] == pin@[t]),
            decreases pin@.len() - j,
        {
            let at = i + j;
            if hay[at] != pin[j] {
                same = false;
            }
            j = j + 1;
        }
        if same {
            assert(s@.subrange(i as int, i + needle@.len()) =~= needle@);
            return true;
        }
        proof {
            assert(!same);
            let t = choose|t: int| !(0 <= t < j ==> hay@[i + t] == pin@[t]);
            assert(s@.subrange(i as int, i + needle@.len())[t] != needle@[t]);
        }
        i = i + 1;
    }
    proof {
        assert forall|k: int| 0 <= k && k + needle@.len() <= s@.len() implies #[trigger] s@.subrange(
            k,
            k + needle@.len(),
        ) != needle@ by {
            assert(k < i);
        }
    }
    false
}

/// The scope that a request to `path` with `method` needs.
pub fn required_scope(path: &str, method: &str) -> (r: ScimScope)
    ensures
        r == required_scope_spec(
            contains_text(path@, "/Groups"@),
            method@ == "GET"@ || method@ == "HEAD"@,
        ),
{
    let groups = text_contains(path, "/Groups");
    let reads = str_eq(method, "GET") || str_eq(method, "HEAD");
    match (groups, reads) {
        (true, true) => ScimScope::GroupsRead,
        (true, false) => ScimScope::GroupsWrite,
        (false, true) => ScimScope::UsersRead,
        (false, false) => ScimScope::UsersWrite,
    }
}


/// `rand::rng().random::<[u8; 32]>()`: 32 bytes from the thread-local
/// generator. Their values are left unstated; `rand::rng` panics where the
/// operating system's generator fails at first seeding.
#[verifier::external_body]
fn random_block() -> (b: Vec<u8>)
    ensures
        b@.len() == 32,
{
    let bytes: [u8; 32] = rand::rng().random();
    bytes.to_vec()
}

/// A random string of `length` URL-safe base64 characters.
pub fn random_urlsafe(length: usize) -> (r: String)
    ensures
        r@.len() == length,
        forall|i: int| 0 <= i < r@.len() ==> url_safe_base64_char(#[trigger] r@[i]),
{
    let mut out: Vec<char> = Vec::new();
    while out.len() < length
        invariant
            out@.len() <= length,
            forall|i: int| 0 <= i < out@.len() ==> url_safe_base64_char(#[trigger] out@[i]),
        decreases length - out@.len(),
    {
        let start = out.len();
        let block = random_block();
        let encoded = encode_base64_url_no_pad(block.as_slice());
        let chars = to_chars(encoded.as_str());
        let mut k: usize = 0;
        while k < chars.len() && out.len() < length
            invariant
                chars@ == encoded@,
                chars@.len() == 43,
                k <= chars@.len(),
                out@.len() <= length,
                start < length,
                out@.len() == start + k,
                forall|i: int| 0 <= i < chars@.len() ==> url_safe_base64_char(#[trigger] chars@[i]),
                forall|i: int| 0 <= i < out@.len() ==> url_safe_base64_char(#[trigger] out@[i]),
            decreases chars@.len() - k,
        {
            out.push(chars[k]);
            k = k + 1;
        }
    }
    let r = crate::text::string_from_chars(&out);
    r
}

} // verus!
