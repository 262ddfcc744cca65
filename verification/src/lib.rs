//! Verified core of an authentication service: SCIM provisioning rules, the
//! in-memory SCIM store, managed SCIM credentials, API-key policy and usage
//! accounting, signed session cookies and a few account helpers.

pub mod text;
pub mod clock;
pub mod codec;
pub mod exact_clone;
pub mod keyed;
pub mod random;
pub mod sorting;
pub mod service;
pub mod scim;
pub mod secondary_storage;
