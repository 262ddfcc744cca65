//! References between SCIM users and the application users they provision.

use vstd::prelude::*;

verus! {

/// Exact external-directory reference for one connection-owned SCIM user.
#[derive(Clone, Debug, PartialEq, Eq)]
pub struct ScimUserExternalIdReference {
    pub connection_id: String,
    pub external_id: String,
}

/// The application user linked to an active SCIM source.
#[derive(Clone, Debug, PartialEq, Eq)]
pub struct ScimActiveUserLink {
    pub scim_user_id: String,
    pub user_id: String,
}

} // verus!
