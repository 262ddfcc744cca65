//! What an OAuth provider says of an account's user and identity.

use crate::exact_clone::ExactClone;
use crate::service::scopes::{law_merge_scopes_idempotent, merge_scopes, merged_scopes};
use vstd::prelude::*;

verus! {

/// The user that a provider account describes.
pub struct ProviderAccountUser {
    pub name: String,
    pub email: String,
    pub image: Option<String>,
    pub email_verified: bool,
}

/// The identity of a provider account.
pub struct ProviderAccountIdentity {
    pub id: String,
    pub provider_id: String,
    pub issuer: String,
    pub account_id: String,
}

/// The tokens and granted scope of a linked OAuth account.
#[derive(Clone, Debug)]
pub struct OAuthTokens {
    pub access_token: Option<String>,
    pub refresh_token: Option<String>,
    pub id_token: Option<String>,
    pub access_token_expires_at: Option<i64>,
    pub refresh_token_expires_at: Option<i64>,
    pub scope: Option<String>,
}

pub struct OAuthTokensView {
    pub access_token: Option<Seq<char>>,
    pub refresh_token: Option<Seq<char>>,
    pub id_token: Option<Seq<char>>,
    pub access_token_expires_at: Option<i64>,
    pub refresh_token_expires_at: Option<i64>,
    pub scope: Option<Seq<char>>,
}

impl DeepView for OAuthTokens {
    type V = OAuthTokensView;

    open spec fn deep_view(&self) -> OAuthTokensView {
        OAuthTokensView {
            access_token: self.access_token.deep_view(),
            refresh_token: self.refresh_token.deep_view(),
            id_token: self.id_token.deep_view(),
            access_token_expires_at: self.access_token_expires_at,
            refresh_token_expires_at: self.refresh_token_expires_at,
            scope: self.scope.deep_view(),
        }
    }
}

/// The value of a token field after relinking: the new one where the
/// provider sent one, else the previous one.
pub open spec fn kept<A>(incoming: Option<A>, previous: Option<A>) -> Option<A> {
    match incoming {
        Some(x) => Some(x),
        None => previous,
    }
}

/// The tokens of an account relinked over `previous`: the granted scopes
/// are the previous ones followed by the new ones, and each token or expiry
/// that the provider did not send again is the previous one.
pub open spec fn relinked(account: OAuthTokensView, previous: OAuthTokensView) -> OAuthTokensView {
    OAuthTokensView {
        access_token: kept(account.access_token, previous.access_token),
        refresh_token: kept(account.refresh_token, previous.refresh_token),
        id_token: kept(account.id_token, previous.id_token),
        access_token_expires_at: kept(account.access_token_expires_at, previous.access_token_expires_at),
        refresh_token_expires_at: kept(account.refresh_token_expires_at, previous.refresh_token_expires_at),
        scope: merged_scopes(previous.scope, account.scope),
    }
}

/// Relinking an account keeps what the provider did not send again.
pub fn preserve_oauth_tokens(account: &mut OAuthTokens, previous: &OAuthTokens)
    ensures
        final(account).deep_view() == relinked(old(account).deep_view(), previous.deep_view()),
{
    let merged = merge_scopes(
        match &previous.scope {
            Some(s) => Some(s.as_str()),
            None => None,
        },
        match &account.scope {
            Some(s) => Some(s.as_str()),
            None => None,
        },
    );
    account.scope = merged;
    if account.access_token.is_none() {
        account.access_token = previous.access_token.exact_clone();
    }
    if account.refresh_token.is_none() {
        account.refresh_token = previous.refresh_token.exact_clone();
    }
    if account.id_token.is_none() {
        account.id_token = previous.id_token.exact_clone();
    }
    if account.access_token_expires_at.is_none() {
        account.access_token_expires_at = previous.access_token_expires_at;
    }
    if account.refresh_token_expires_at.is_none() {
        account.refresh_token_expires_at = previous.refresh_token_expires_at;
    }
}

/// Relinking an account twice over the same previous link gives what
/// relinking it once gives.
pub proof fn law_relinking_twice_changes_nothing(account: OAuthTokensView, previous: OAuthTokensView)
    ensures
        relinked(relinked(account, previous), previous) == relinked(account, previous),
{
    law_merge_scopes_idempotent(previous.scope, account.scope);
}

} // verus!
