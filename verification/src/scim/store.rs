//! Records that SCIM storage keeps: connection bindings and stored users and
//! groups. Times are milliseconds since the Unix epoch.

use crate::exact_clone::ExactClone;
use crate::scim::model::{ScimGroup, ScimGroupView, ScimUser, ScimUserView};
use vstd::prelude::*;

verus! {

/// The provisioning domain that a connection was first used with, and when
/// the connection was decommissioned.
#[derive(Clone, Debug)]
pub struct ScimConnectionBinding {
    pub connection_id: String,
    pub provisioning_domain_id: String,
    pub decommissioned_at: Option<i64>,
}

pub struct ScimConnectionBindingView {
    pub connection_id: Seq<char>,
    pub provisioning_domain_id: Seq<char>,
    pub decommissioned_at: Option<i64>,
}

impl View for ScimConnectionBinding {
    type V = ScimConnectionBindingView;

    open spec fn view(&self) -> ScimConnectionBindingView {
        ScimConnectionBindingView {
            connection_id: self.connection_id@,
            provisioning_domain_id: self.provisioning_domain_id@,
            decommissioned_at: self.decommissioned_at,
        }
    }
}

impl DeepView for ScimConnectionBinding {
    type V = ScimConnectionBindingView;

    open spec fn deep_view(&self) -> ScimConnectionBindingView {
        self@
    }
}

impl ExactClone for ScimConnectionBinding {
    fn exact_clone(&self) -> (r: ScimConnectionBinding) {
        ScimConnectionBinding {
            connection_id: self.connection_id.exact_clone(),
            provisioning_domain_id: self.provisioning_domain_id.exact_clone(),
            decommissioned_at: self.decommissioned_at,
        }
    }
}

/// A SCIM user as stored for one connection.
#[derive(Clone, Debug)]
pub struct StoredScimUser {
    pub resource: ScimUser,
    pub connection_id: String,
    pub provisioning_domain_id: String,
    pub user_id: String,
    pub profile_managed: bool,
    pub created_at: i64,
    pub updated_at: i64,
}

pub struct StoredScimUserView {
    pub resource: ScimUserView,
    pub connection_id: Seq<char>,
    pub provisioning_domain_id: Seq<char>,
    pub user_id: Seq<char>,
    pub profile_managed: bool,
    pub created_at: i64,
    pub updated_at: i64,
}

impl View for StoredScimUser {
    type V = StoredScimUserView;

    open spec fn view(&self) -> StoredScimUserView {
        StoredScimUserView {
            resource: self.resource@,
            connection_id: self.connection_id@,
            provisioning_domain_id: self.provisioning_domain_id@,
            user_id: self.user_id@,
            profile_managed: self.profile_managed,
            created_at: self.created_at,
            updated_at: self.updated_at,
        }
    }
}

impl DeepView for StoredScimUser {
    type V = StoredScimUserView;

    open spec fn deep_view(&self) -> StoredScimUserView {
        self@
    }
}

impl ExactClone for StoredScimUser {
    fn exact_clone(&self) -> (r: StoredScimUser) {
        StoredScimUser {
            resource: self.resource.exact_clone(),
            connection_id: self.connection_id.exact_clone(),
            provisioning_domain_id: self.provisioning_domain_id.exact_clone(),
            user_id: self.user_id.exact_clone(),
            profile_managed: self.profile_managed,
            created_at: self.created_at,
            updated_at: self.updated_at,
        }
    }
}

/// A SCIM group as stored for one connection.
#[derive(Clone, Debug)]
pub struct StoredScimGroup {
    pub resource: ScimGroup,
    pub connection_id: String,
    pub provisioning_domain_id: String,
    pub created_at: i64,
    pub updated_at: i64,
}

pub struct StoredScimGroupView {
    pub resource: ScimGroupView,
    pub connection_id: Seq<char>,
    pub provisioning_domain_id: Seq<char>,
    pub created_at: i64,
    pub updated_at: i64,
}

impl View for StoredScimGroup {
    type V = StoredScimGroupView;

    open spec fn view(&self) -> StoredScimGroupView {
        StoredScimGroupView {
            resource: self.resource@,
            connection_id: self.connection_id@,
            provisioning_domain_id: self.provisioning_domain_id@,
            created_at: self.created_at,
            updated_at: self.updated_at,
        }
    }
}

impl DeepView for StoredScimGroup {
    type V = StoredScimGroupView;

    open spec fn deep_view(&self) -> StoredScimGroupView {
        self@
    }
}

impl ExactClone for StoredScimGroup {
    fn exact_clone(&self) -> (r: StoredScimGroup) {
        StoredScimGroup {
            resource: self.resource.exact_clone(),
            connection_id: self.connection_id.exact_clone(),
            provisioning_domain_id: self.provisioning_domain_id.exact_clone(),
            created_at: self.created_at,
            updated_at: self.updated_at,
        }
    }
}

/// Where a deleted user's identity went, remembered by connection and
/// external id: the application user and whether its profile was managed
/// (`"manage"`) or kept (`"preserve"`).
#[derive(Clone, Debug)]
pub struct ScimTombstone {
    pub user_id: String,
    pub profile_mode: String,
}

pub struct ScimTombstoneView {
    pub user_id: Seq<char>,
    pub profile_mode: Seq<char>,
}

impl View for ScimTombstone {
    type V = ScimTombstoneView;

    open spec fn view(&self) -> ScimTombstoneView {
        ScimTombstoneView { user_id: self.user_id@, profile_mode: self.profile_mode@ }
    }
}

impl DeepView for ScimTombstone {
    type V = ScimTombstoneView;

    open spec fn deep_view(&self) -> ScimTombstoneView {
        self@
    }
}

impl ExactClone for ScimTombstone {
    fn exact_clone(&self) -> (r: ScimTombstone) {
        ScimTombstone { user_id: self.user_id.exact_clone(), profile_mode: self.profile_mode.exact_clone() }
    }
}

} // verus!
