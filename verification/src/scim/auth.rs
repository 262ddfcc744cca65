//! Authentication of SCIM requests by bearer token: configured connection
//! credentials first, then managed credentials; the principal found must
//! hold the scope that the request needs.

use crate::exact_clone::ExactClone;
use crate::scim::error::{store_error, store_error_spec, ScimError, ScimErrorView, plain_error};
use crate::scim::managed::{
    constant_time_equal, contains_text, required_scope, required_scope_spec, token_digest, token_digest_spec,
    ScimScope,
};
use crate::scim::memory::{bind_outcome, connection_by_record, stored, touch_due, ScimStoreModel, StoreField};
use crate::keyed::as_map;
use crate::scim::managed::{ScimManagedConnectionOptions, ScimManagedCredentialView};
use crate::scim::plugin::{answered, refused, ScimPlugin};
use crate::text::{eq_ignore_ascii_case, is_whitespace, owned, str_eq_ignore_ascii_case, string_from_range, to_chars, trim, trimmed, unicode_whitespace};
use vstd::prelude::*;

verus! {

/// A configured bearer credential of a SCIM connection.
#[derive(Clone, Debug)]
pub struct ScimBearerCredential {
    pub id: String,
    pub token: String,
    pub expires_at: Option<i64>,
    pub scopes: Vec<ScimScope>,
}

/// A configured SCIM connection and its credentials.
#[derive(Clone, Debug)]
pub struct ScimConnection {
    pub id: String,
    pub provisioning_domain_id: String,
    pub credentials: Vec<ScimBearerCredential>,
}

/// Who a SCIM request acts for.
#[derive(Clone, Debug)]
pub struct ScimPrincipal {
    pub connection_id: String,
    pub provisioning_domain_id: String,
    pub credential_id: String,
    pub scopes: Vec<ScimScope>,
}

pub struct ScimPrincipalView {
    pub connection_id: Seq<char>,
    pub provisioning_domain_id: Seq<char>,
    pub credential_id: Seq<char>,
    pub scopes: Seq<ScimScope>,
}

impl DeepView for ScimPrincipal {
    type V = ScimPrincipalView;

    open spec fn deep_view(&self) -> ScimPrincipalView {
        ScimPrincipalView {
            connection_id: self.connection_id@,
            provisioning_domain_id: self.provisioning_domain_id@,
            credential_id: self.credential_id@,
            scopes: self.scopes.deep_view(),
        }
    }
}

/// Position of the first white-space character, if any.
pub open spec fn first_whitespace(s: Seq<char>) -> Option<int>
    decreases s.len(),
{
    if s.len() == 0 {
        None
    } else if unicode_whitespace(s[0]) {
        Some(0)
    } else {
        match first_whitespace(s.drop_first()) {
            Some(i) => Some(i + 1),
            None => None,
        }
    }
}

/// The bearer token of an `Authorization` header: the scheme before the
/// first white space must be `Bearer` in any ASCII case, and the trimmed
/// rest must not be empty.
pub open spec fn bearer_token_spec(header: Option<Seq<char>>) -> Option<Seq<char>> {
    match header {
        None => None,
        Some(h) => match first_whitespace(h) {
            None => None,
            Some(i) => if eq_ignore_ascii_case(h.take(i), "bearer"@) && trim(h.skip(i + 1)).len() > 0 {
                Some(trim(h.skip(i + 1)))
            } else {
                None
            },
        },
    }
}

proof fn lemma_first_whitespace_at(s: Seq<char>, i: int)
    requires
        0 <= i < s.len(),
        unicode_whitespace(s[i]),
        forall|k: int| 0 <= k < i ==> !unicode_whitespace(#[trigger] s[k]),
    ensures
        first_whitespace(s) == Some(i),
    decreases i,
{
    if i > 0 {
        assert forall|k: int| 0 <= k < i - 1 implies !unicode_whitespace(#[trigger] s.drop_first()[k]) by {
            assert(s.drop_first()[k] == s[k + 1]);
        }
        lemma_first_whitespace_at(s.drop_first(), i - 1);
    }
}

proof fn lemma_no_whitespace(s: Seq<char>)
    requires
        forall|k: int| 0 <= k < s.len() ==> !unicode_whitespace(#[trigger] s[k]),
    ensures
        first_whitespace(s) is None,
    decreases s.len(),
{
    if s.len() > 0 {
        assert forall|k: int| 0 <= k < s.len() - 1 implies !unicode_whitespace(#[trigger] s.drop_first()[k]) by {
            assert(s.drop_first()[k] == s[k + 1]);
        }
        lemma_no_whitespace(s.drop_first());
    }
}

/// The bearer token of an `Authorization` header, if it carries one.
pub fn bearer_token(authorization: Option<&str>) -> (r: Option<String>)
    ensures
        r.deep_view() == bearer_token_spec(
            match authorization {
                Some(h) => Some(h@),
                None => None,
            },
        ),
{
    let header = match authorization {
        Some(h) => h,
        None => return None,
    };
    let chars = to_chars(header);
    let mut i: usize = 0;
    while i < chars.len() && !is_whitespace(chars[i])
        invariant
            chars@ == header@,
            i <= chars@.len(),
            forall|k: int| 0 <= k < i ==> !unicode_whitespace(#[trigger] chars@[k]),
        decreases chars@.len() - i,
    {
        i = i + 1;
    }
    if i == chars.len() {
        proof {
            lemma_no_whitespace(header@);
        }
        return None;
    }
    proof {
        lemma_first_whitespace_at(header@, i as int);
    }
    let scheme = string_from_range(&chars, 0, i);
    let rest = string_from_range(&chars, i + 1, chars.len());
    assert(scheme@ =~= header@.take(i as int));
    assert(rest@ =~= header@.skip(i + 1));
    if !str_eq_ignore_ascii_case(scheme.as_str(), "bearer") {
        return None;
    }
    let token = trimmed(rest.as_str());
    if token.as_str().is_empty() {
        return None;
    }
    Some(token)
}

/// The first credential, in order, whose token is `token` and that has not
/// expired by `now`.
pub open spec fn credential_match(
    credentials: Seq<ScimBearerCredential>,
    token: Seq<char>,
    now: i64,
) -> Option<ScimBearerCredential>
    decreases credentials.len(),
{
    if credentials.len() == 0 {
        None
    } else if credentials[0].token@ == token && (credentials[0].expires_at matches Some(t) ==> t > now) {
        Some(credentials[0])
    } else {
        credential_match(credentials.drop_first(), token, now)
    }
}

/// The principal of the first configured connection, in order, one of
/// whose credentials matches the token at `now`.
pub open spec fn static_principal_spec(connections: Seq<ScimConnection>, token: Seq<char>, now: i64) -> Option<
    ScimPrincipalView,
>
    decreases connections.len(),
{
    if connections.len() == 0 {
        None
    } else {
        match credential_match(connections[0].credentials@, token, now) {
            Some(c) => Some(
                ScimPrincipalView {
                    connection_id: connections[0].id@,
                    provisioning_domain_id: connections[0].provisioning_domain_id@,
                    credential_id: c.id@,
                    scopes: c.scopes.deep_view(),
                },
            ),
            None => static_principal_spec(connections.drop_first(), token, now),
        }
    }
}

proof fn lemma_utf8_injective(a: Seq<char>, b: Seq<char>)
    ensures
        (vstd::utf8::encode_utf8(a) == vstd::utf8::encode_utf8(b)) == (a == b),
{
    vstd::utf8::encode_utf8_decode_utf8(a);
    vstd::utf8::encode_utf8_decode_utf8(b);
}

fn tokens_equal(a: &str, b: &str) -> (r: bool)
    ensures
        r == (a@ == b@),
{
    proof {
        lemma_utf8_injective(a@, b@);
    }
    constant_time_equal(a.as_bytes(), b.as_bytes())
}

fn scopes_copy(scopes: &Vec<ScimScope>) -> (r: Vec<ScimScope>)
    ensures
        r.deep_view() == scopes.deep_view(),
{
    scopes.exact_clone()
}

/// The principal that a configured credential gives for the token at `now`.
pub fn static_principal(connections: &Vec<ScimConnection>, token: &str, now: i64) -> (r: Option<ScimPrincipal>)
    ensures
        r.deep_view() == static_principal_spec(connections@, token@, now),
{
    let ghost s = connections@;
    let mut i: usize = 0;
    assert(s.skip(0) =~= s);
    while i < connections.len()
        invariant
            s == connections@,
            i <= s.len(),
            static_principal_spec(s, token@, now) == static_principal_spec(s.skip(i as int), token@, now),
        decreases s.len() - i,
    {
        let connection = &connections[i];
        assert(s[i as int] == *connection);
        assert(s.skip(i as int)[0] == s[i as int]);
        assert(s.skip(i as int).drop_first() =~= s.skip(i + 1));
        let ghost cs = connection.credentials@;
        let mut j: usize = 0;
        assert(cs.skip(0) =~= cs);
        while j < connection.credentials.len()
            invariant
                s == connections@,
                i < s.len(),
                s[i as int] == *connection,
                s.skip(i as int)[0] == s[i as int],
                s.skip(i as int).drop_first() == s.skip(i + 1),
                static_principal_spec(s, token@, now) == static_principal_spec(s.skip(i as int), token@, now),
                cs == connection.credentials@,
                j <= cs.len(),
                credential_match(cs, token@, now) == credential_match(cs.skip(j as int), token@, now),
            decreases cs.len() - j,
        {
            let credential = &connection.credentials[j];
            assert(cs.skip(j as int)[0] == cs[j as int]);
            assert(cs.skip(j as int).drop_first() =~= cs.skip(j + 1));
            let active = match credential.expires_at {
                Some(t) => t > now,
                None => true,
            };
            if tokens_equal(credential.token.as_str(), token) && active {
                proof {
                    assert(cs[j as int] == *credential);
                    assert(credential_match(cs.skip(j as int), token@, now) == Some(cs[j as int]));
                }
                return Some(
                    ScimPrincipal {
                        connection_id: connection.id.exact_clone(),
                        provisioning_domain_id: connection.provisioning_domain_id.exact_clone(),
                        credential_id: credential.id.exact_clone(),
                        scopes: scopes_copy(&credential.scopes),
                    },
                );
            }
            j = j + 1;
        }
        assert(cs.skip(j as int).len() == 0);
        i = i + 1;
    }
    assert(s.skip(i as int).len() == 0);
    None
}

/// The credential id that a managed token starts with: the text before its
/// first `.`.
pub open spec fn managed_credential_id(token: Seq<char>) -> Option<Seq<char>> {
    if exists|i: int| 0 <= i < token.len() && token[i] == '.' {
        let i = choose|i: int|
            0 <= i < token.len() && token[i] == '.' && forall|k: int| 0 <= k < i ==> token[k] != '.';
        Some(token.take(i))
    } else {
        None
    }
}

fn credential_id_of(token: &str) -> (r: Option<String>)
    ensures
        r.deep_view() == managed_credential_id(token@),
{
    let chars = to_chars(token);
    let mut i: usize = 0;
    while i < chars.len() && chars[i] != '.'
        invariant
            chars@ == token@,
            i <= chars@.len(),
            forall|k: int| 0 <= k < i ==> chars@[k] != '.',
        decreases chars@.len() - i,
    {
        i = i + 1;
    }
    if i == chars.len() {
        return None;
    }
    proof {
        let j = choose|j: int|
            0 <= j < token@.len() && token@[j] == '.' && forall|k: int| 0 <= k < j ==> token@[k] != '.';
        assert(0 <= (i as int) < token@.len() && token@[i as int] == '.' && forall|k: int| 0 <= k < i ==> token@[k]
            != '.');
        if j < i {
            assert(token@[j] != '.');
        }
        if j > i {
            assert(token@[i as int] != '.');
        }
    }
    let id = string_from_range(&chars, 0, i);
    assert(id@ =~= token@.take(i as int));
    Some(id)
}

/// Whether a managed credential found for the token authenticates it at
/// `now`: connection and credential active, current hashing, not expired,
/// and the digest of the token as stored.
pub open spec fn managed_accepts(
    connection_status: Seq<char>,
    credential: crate::scim::managed::ScimManagedCredentialView,
    digest: Seq<char>,
    now: i64,
) -> bool {
    connection_status == "active"@ && credential.status == "active"@ && credential.hash_version == "v1"@
        && credential.expires_at > now && credential.token_digest == digest
}

/// Managed tokens start with this.
pub const MANAGED_TOKEN_PREFIX: &'static str = "ba_scim_credential_";

/// Whether `s` starts with `prefix`.
pub open spec fn starts_with(s: Seq<char>, prefix: Seq<char>) -> bool {
    prefix.len() <= s.len() && s.take(prefix.len() as int) == prefix
}

fn text_starts_with(s: &str, prefix: &str) -> (r: bool)
    ensures
        r == starts_with(s@, prefix@),
{
    let a = to_chars(s);
    let b = to_chars(prefix);
    if b.len() > a.len() {
        return false;
    }
    let mut i: usize = 0;
    while i < b.len()
        invariant
            a@ == s@,
            b@ == prefix@,
            b@.len() <= a@.len(),
            i <= b@.len(),
            forall|k: int| 0 <= k < i ==> a@[k] == b@[k],
        decreases b@.len() - i,
    {
        if a[i] != b[i] {
            assert(s@.take(prefix@.len() as int)[i as int] != prefix@[i as int]);
            return false;
        }
        i = i + 1;
    }
    assert(s@.take(prefix@.len() as int) =~= prefix@);
    true
}

/// The principal that the managed credential `id` gives for a token with
/// digest `digest` at `now`: the credential must exist, belong to a
/// connection, and be accepted by it.
pub open spec fn managed_lookup(
    store: ScimStoreModel,
    id: Seq<char>,
    digest: Seq<char>,
    now: i64,
) -> Option<ScimPrincipalView> {
    match crate::keyed::lookup(store.credentials, id) {
        Some(c) => match connection_by_record(store.connections, c.connection_record_id) {
            Some(conn) => if managed_accepts(conn.status, c, digest, now) {
                Some(
                    ScimPrincipalView {
                        connection_id: conn.connection_id,
                        provisioning_domain_id: conn.provisioning_domain_id,
                        credential_id: c.credential_id,
                        scopes: c.scopes,
                    },
                )
            } else {
                None
            },
            None => None,
        },
        None => None,
    }
}

/// The principal that a managed credential token gives at `now` under the
/// managed options `o`: the credential that the token names, looked up with
/// the token's digest.
pub open spec fn managed_found(
    o: ScimManagedConnectionOptions,
    store: ScimStoreModel,
    token: Seq<char>,
    now: i64,
) -> Option<ScimPrincipalView> {
    match managed_credential_id(token) {
        Some(id) => managed_lookup(store, id, token_digest_spec(o.credential_hash_secret@, token), now),
        None => None,
    }
}

/// Whether no principal was found, without error.
pub open spec fn no_principal(r: Result<Option<ScimPrincipal>, ScimError>) -> bool {
    r matches Ok(p) && p is None
}

/// Whether the principal `v` was found.
pub open spec fn found_principal(r: Result<Option<ScimPrincipal>, ScimError>, v: ScimPrincipalView) -> bool {
    r matches Ok(p) && p.deep_view() == Some(v)
}

impl ScimPlugin {
    /// The principal of a managed credential token at `now`, stamping the
    /// credential's last use; `None` where managed connections are off, the
    /// token names no credential, or the credential does not accept it.
    pub fn managed_principal(&mut self, token: &str, now: i64) -> (r: Result<Option<ScimPrincipal>, ScimError>)
        requires
            old(self).store.wf(),
            old(self).managed_connections matches Some(o) ==> -(i64::MAX / 1000)
                <= o.last_used_write_interval_seconds as i64 <= i64::MAX / 1000,
        ensures
            final(self).store.wf(),
            final(self).managed_connections == old(self).managed_connections,
            final(self).connections@ == old(self).connections@,
            old(self).managed_connections is None ==> no_principal(r),
            managed_credential_id(token@) is None ==> no_principal(r),
            old(self).managed_connections is None || managed_credential_id(token@) is None ==> final(self).store@
                == old(self).store@,
            r is Ok,
            old(self).managed_connections matches Some(o) ==> managed_credential_id(token@) matches Some(id) ==> {
                let digest = token_digest_spec(o.credential_hash_secret@, token@);
                let found = managed_lookup(old(self).store@, id, digest, now);
                &&& r matches Ok(p) && p.deep_view() == found
                &&& match found {
                    None => final(self).store@ == old(self).store@,
                    Some(_) => {
                        let c = crate::keyed::lookup(old(self).store@.credentials, id)->0;
                        &&& old(self).store@.changes_only(final(self).store@, set![StoreField::Credentials])
                        &&& as_map(final(self).store@.credentials) == if touch_due(
                            c.last_used_at,
                            now,
                            o.last_used_write_interval_seconds as i64,
                        ) {
                            as_map(old(self).store@.credentials).insert(
                                id,
                                ScimManagedCredentialView { last_used_at: Some(now), ..c },
                            )
                        } else {
                            as_map(old(self).store@.credentials)
                        }
                    },
                }
            },
    {
        let (secret, interval) = match &self.managed_connections {
            Some(o) => (o.credential_hash_secret.exact_clone(), o.last_used_write_interval_seconds),
            None => return Ok(None),
        };
        let credential_id = match credential_id_of(token) {
            Some(id) => id,
            None => return Ok(None),
        };
        let digest = match token_digest(secret.as_str(), token) {
            Ok(d) => d,
            Err(e) => return Err(e),
        };
        let (connection, credential) = match self.store.find_managed_credential(credential_id.as_str()) {
            Some(pair) => pair,
            None => return Ok(None),
        };
        let accepted = crate::text::str_eq(connection.status.as_str(), "active") && crate::text::str_eq(
            credential.status.as_str(),
            "active",
        ) && crate::text::str_eq(credential.hash_version.as_str(), "v1") && credential.expires_at > now
            && tokens_equal(credential.token_digest.as_str(), digest.as_str());
        if accepted {
            let _ = self.store.touch_managed_credential(credential_id.as_str(), now, interval);
            return Ok(
                Some(
                    ScimPrincipal {
                        connection_id: connection.connection_id,
                        provisioning_domain_id: connection.provisioning_domain_id,
                        credential_id: credential.credential_id,
                        scopes: credential.scopes,
                    },
                ),
            );
        }
        Ok(None)
    }

    /// The principal of a bearer token at `now` from the configured
    /// connections, else from managed credentials where the token has the
    /// managed form.
    pub fn resolve_principal(&mut self, token: &str, now: i64) -> (r: Result<Option<ScimPrincipal>, ScimError>)
        requires
            old(self).store.wf(),
            old(self).managed_connections matches Some(o) ==> -(i64::MAX / 1000)
                <= o.last_used_write_interval_seconds as i64 <= i64::MAX / 1000,
        ensures
            final(self).store.wf(),
            final(self).managed_connections == old(self).managed_connections,
            final(self).connections@ == old(self).connections@,
            match static_principal_spec(old(self).connections@, token@, now) {
                Some(p) => found_principal(r, p),
                None => (!starts_with(token@, MANAGED_TOKEN_PREFIX@) || old(self).managed_connections is None)
                    ==> no_principal(r),
            },
            static_principal_spec(old(self).connections@, token@, now) is Some || !starts_with(
                token@,
                MANAGED_TOKEN_PREFIX@,
            ) || old(self).managed_connections is None ==> final(self).store@ == old(self).store@,
            static_principal_spec(old(self).connections@, token@, now) is None && starts_with(
                token@,
                MANAGED_TOKEN_PREFIX@,
            ) ==> (old(self).managed_connections matches Some(o) ==> {
                &&& r matches Ok(p) && p.deep_view() == managed_found(o, old(self).store@, token@, now)
                &&& final(self).store@.bindings == old(self).store@.bindings
                &&& managed_found(o, old(self).store@, token@, now) is None ==> final(self).store@ == old(
                    self,
                ).store@
            }),
    {
        match static_principal(&self.connections, token, now) {
            Some(p) => return Ok(Some(p)),
            None => {},
        }
        if text_starts_with(token, MANAGED_TOKEN_PREFIX) && self.managed_connections.is_some() {
            self.managed_principal(token, now)
        } else {
            Ok(None)
        }
    }

    /// Admits a principal to a request on `path` with `method`: it must
    /// hold the scope that the request needs (else that scope is returned
    /// as missing), and its connection is bound to its domain.
    pub fn authorize_principal(&mut self, principal: &ScimPrincipal, path: &str, method: &str) -> (r: Result<
        Result<(), ScimScope>,
        ScimError,
    >)
        requires
            old(self).store.wf(),
        ensures
            final(self).store.wf(),
            final(self).managed_connections == old(self).managed_connections,
            final(self).connections@ == old(self).connections@,
            !(r matches Ok(Ok(()))) ==> final(self).store@ == old(self).store@,
            ({
                let needed = required_scope_spec(
                    contains_text(path@, "/Groups"@),
                    method@ == "GET"@ || method@ == "HEAD"@,
                );
                if !principal.scopes.deep_view().contains(needed) {
                    r matches Ok(Err(s)) && s == needed && final(self).store@ == old(self).store@
                } else {
                    match bind_outcome(
                        old(self).store@.bindings,
                        principal.connection_id@,
                        principal.provisioning_domain_id@,
                    ) {
                        Ok(_) => r matches Ok(Ok(())),
                        Err(e) => refused(r, store_error_spec(e)),
                    }
                }
            }),
    {
        let needed = required_scope(path, method);
        let mut found = false;
        let mut i: usize = 0;
        while i < principal.scopes.len()
            invariant
                i <= principal.scopes@.len(),
                found == exists|k: int| 0 <= k < i && principal.scopes.deep_view()[k] == needed,
            decreases principal.scopes@.len() - i,
        {
            assert(principal.scopes.deep_view()[i as int] == principal.scopes@[i as int]);
            if principal.scopes[i] == needed {
                found = true;
            }
            i = i + 1;
        }
        assert(found == principal.scopes.deep_view().contains(needed));
        if !found {
            return Ok(Err(needed));
        }
        match self.store.bind_connection(
            principal.connection_id.as_str(),
            principal.provisioning_domain_id.as_str(),
        ) {
            Ok(_) => Ok(Ok(())),
            Err(e) => Err(store_error(e)),
        }
    }
}


/// What authenticating a SCIM request leads to.
#[derive(Debug)]
pub enum ScimAuthStep {
    /// The request is admitted for this principal, whose connection is now
    /// bound to its domain.
    Admitted(ScimPrincipal),
    /// The principal lacks the scope that the request needs.
    MissingScope(ScimScope),
    /// The token is neither a configured nor a managed credential: the
    /// configured verifier is asked about it, and its answer goes to
    /// [`ScimPlugin::admit_verified`].
    Verify(String),
}

/// A credential that the configured verifier vouched for.
#[derive(Clone, Debug)]
pub struct ScimVerifiedCredential {
    pub connection_id: String,
    pub provisioning_domain_id: String,
    pub credential_id: String,
    pub scopes: Vec<ScimScope>,
    pub expires_at: Option<i64>,
}

/// The scope that a request on `path` with `method` needs.
pub open spec fn scope_needed(path: Seq<char>, method: Seq<char>) -> ScimScope {
    required_scope_spec(contains_text(path, "/Groups"@), method == "GET"@ || method == "HEAD"@)
}

/// The refusal of a request without a bearer token.
pub open spec fn token_required() -> ScimErrorView {
    plain_error(401, "SCIM bearer token is required"@)
}

/// The refusal of a bearer token that no credential accepts.
pub open spec fn token_invalid() -> ScimErrorView {
    plain_error(401, "Invalid SCIM bearer token"@)
}

/// `r` is what admitting principal `p` to a request on `path` with
/// `method` gives, against the store `store`: the missing scope where `p`
/// lacks it, else the principal once its connection is bound, else the
/// refusal of the binding.
pub open spec fn admits(
    r: Result<ScimAuthStep, ScimError>,
    store: ScimStoreModel,
    p: ScimPrincipalView,
    path: Seq<char>,
    method: Seq<char>,
) -> bool {
    let needed = scope_needed(path, method);
    if !p.scopes.contains(needed) {
        r matches Ok(ScimAuthStep::MissingScope(s)) && s == needed
    } else {
        match bind_outcome(store.bindings, p.connection_id, p.provisioning_domain_id) {
            Ok(_) => r matches Ok(ScimAuthStep::Admitted(q)) && q.deep_view() == p,
            Err(e) => refused(r, store_error_spec(e)),
        }
    }
}

/// The principal that a verified credential stands for.
pub open spec fn verified_principal(v: ScimVerifiedCredential) -> ScimPrincipalView {
    ScimPrincipalView {
        connection_id: v.connection_id@,
        provisioning_domain_id: v.provisioning_domain_id@,
        credential_id: v.credential_id@,
        scopes: v.scopes.deep_view(),
    }
}

impl ScimPlugin {
    /// Admits principal `p` to a request on `path` with `method`.
    pub fn admit_principal(&mut self, p: ScimPrincipal, path: &str, method: &str) -> (r: Result<ScimAuthStep, ScimError>)
        requires
            old(self).store.wf(),
        ensures
            final(self).store.wf(),
            final(self).managed_connections == old(self).managed_connections,
            final(self).connections@ == old(self).connections@,
            admits(r, old(self).store@, p.deep_view(), path@, method@),
            !(r matches Ok(ScimAuthStep::Admitted(_))) ==> final(self).store@ == old(self).store@,
    {
        match self.authorize_principal(&p, path, method) {
            Ok(Ok(())) => Ok(ScimAuthStep::Admitted(p)),
            Ok(Err(s)) => Ok(ScimAuthStep::MissingScope(s)),
            Err(e) => Err(e),
        }
    }

    /// Authenticates a SCIM request at `now` by the bearer token of its
    /// `Authorization` header: a configured credential first, then a managed
    /// one where the token has the managed form; any other token goes to the
    /// configured verifier, where there is one, and is refused otherwise.
    /// The principal found must hold the scope that the request needs, and
    /// its connection is bound to its domain.
    pub fn authenticate(
        &mut self,
        authorization: Option<&str>,
        method: &str,
        path: &str,
        now: i64,
        has_verifier: bool,
    ) -> (r: Result<ScimAuthStep, ScimError>)
        requires
            old(self).store.wf(),
            old(self).managed_connections matches Some(o) ==> -(i64::MAX / 1000)
                <= o.last_used_write_interval_seconds as i64 <= i64::MAX / 1000,
        ensures
            final(self).store.wf(),
            final(self).managed_connections == old(self).managed_connections,
            r matches Ok(ScimAuthStep::Admitted(q)) ==> q.scopes.deep_view().contains(scope_needed(path@, method@)),
            match bearer_token_spec(
                match authorization {
                    Some(h) => Some(h@),
                    None => None,
                },
            ) {
                None => refused(r, token_required()) && final(self).store@ == old(self).store@,
                Some(t) => match static_principal_spec(old(self).connections@, t, now) {
                    Some(p) => {
                        &&& admits(r, old(self).store@, p, path@, method@)
                        &&& !(r matches Ok(ScimAuthStep::Admitted(_))) ==> final(self).store@ == old(self).store@
                    },
                    None => if starts_with(t, MANAGED_TOKEN_PREFIX@) {
                        match old(self).managed_connections {
                            None => refused(r, token_invalid()) && final(self).store@ == old(self).store@,
                            Some(o) => match managed_found(o, old(self).store@, t, now) {
                                None => refused(r, token_invalid()) && final(self).store@ == old(self).store@,
                                Some(p) => admits(r, old(self).store@, p, path@, method@),
                            },
                        }
                    } else if has_verifier {
                        r matches Ok(ScimAuthStep::Verify(v)) && v@ == t && final(self).store@ == old(self).store@
                    } else {
                        refused(r, token_invalid()) && final(self).store@ == old(self).store@
                    },
                },
            },
    {
        let token = match bearer_token(authorization) {
            Some(t) => t,
            None => return Err(ScimError::unauthorized(owned("SCIM bearer token is required"))),
        };
        let found = match self.resolve_principal(token.as_str(), now) {
            Ok(f) => f,
            Err(e) => return Err(e),
        };
        match found {
            Some(p) => {
                self.admit_principal(p, path, method)
            },
            None => {
                if !text_starts_with(token.as_str(), MANAGED_TOKEN_PREFIX) && has_verifier {
                    Ok(ScimAuthStep::Verify(token))
                } else {
                    Err(ScimError::unauthorized(owned("Invalid SCIM bearer token")))
                }
            },
        }
    }

    /// Admits the credential that the configured verifier answered for a
    /// token: it must be there and not have expired at `now`.
    pub fn admit_verified(
        &mut self,
        verified: Option<ScimVerifiedCredential>,
        method: &str,
        path: &str,
        now: i64,
    ) -> (r: Result<ScimAuthStep, ScimError>)
        requires
            old(self).store.wf(),
        ensures
            final(self).store.wf(),
            final(self).managed_connections == old(self).managed_connections,
            !(r matches Ok(ScimAuthStep::Admitted(_))) ==> final(self).store@ == old(self).store@,
            match verified {
                Some(v) => if v.expires_at matches Some(e) && e <= now {
                    refused(r, token_invalid())
                } else {
                    admits(r, old(self).store@, verified_principal(v), path@, method@)
                },
                None => refused(r, token_invalid()),
            },
    {
        match verified {
            Some(v) => {
                let live = match v.expires_at {
                    Some(e) => e > now,
                    None => true,
                };
                if live {
                    let p = ScimPrincipal {
                        connection_id: v.connection_id,
                        provisioning_domain_id: v.provisioning_domain_id,
                        credential_id: v.credential_id,
                        scopes: v.scopes,
                    };
                    self.admit_principal(p, path, method)
                } else {
                    Err(ScimError::unauthorized(owned("Invalid SCIM bearer token")))
                }
            },
            None => Err(ScimError::unauthorized(owned("Invalid SCIM bearer token"))),
        }
    }
}

} // verus!
