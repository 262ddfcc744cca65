//! Inbound SCIM 2.0 provisioning: resource models and their normalization,
//! the in-memory SCIM store, and managed SCIM connections.

pub mod acquire;
pub mod auth;
pub mod error;
pub mod grants;
pub mod identity;
pub mod managed;
pub mod memory;
pub mod store;
pub mod model;
pub mod normalize;
pub mod patch;
pub mod plugin;
pub mod projection;
pub mod structured;

use vstd::prelude::*;

verus! {

/// Published `@better-auth/scim` compatibility target.
pub const VERSION: &'static str = "1.7.1";

pub const SCIM_MEDIA_TYPE: &'static str = "application/scim+json";

pub const SCIM_ERROR_SCHEMA: &'static str = "urn:ietf:params:scim:api:messages:2.0:Error";

pub const SCIM_LIST_RESPONSE_SCHEMA: &'static str = "urn:ietf:params:scim:api:messages:2.0:ListResponse";

pub const SCIM_USER_SCHEMA: &'static str = "urn:ietf:params:scim:schemas:core:2.0:User";

pub const SCIM_ENTERPRISE_USER_SCHEMA: &'static str = "urn:ietf:params:scim:schemas:extension:enterprise:2.0:User";

pub const SCIM_GROUP_SCHEMA: &'static str = "urn:ietf:params:scim:schemas:core:2.0:Group";

pub const SCIM_PATCH_SCHEMA: &'static str = "urn:ietf:params:scim:api:messages:2.0:PatchOp";

pub const SCIM_MANAGED_CREATION_REQUEST_ID_CONFLICT: &'static str = "SCIM_MANAGED_CREATION_REQUEST_ID_CONFLICT";

} // verus!
