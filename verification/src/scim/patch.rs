//! SCIM PATCH requests.

use crate::scim::error::{invalid, invalid_value, ScimError};
use crate::scim::SCIM_PATCH_SCHEMA;
use crate::text::{concat, owned, str_eq};
use vstd::prelude::*;

verus! {

/// One PATCH operation; its value is kept as JSON text.
#[derive(Clone, Debug, PartialEq, Eq)]
pub struct ScimPatchOperation {
    pub op: String,
    pub path: Option<String>,
    pub value: Option<String>,
}

/// A SCIM PATCH request.
#[derive(Clone, Debug, PartialEq, Eq)]
pub struct ScimPatchRequest {
    pub schemas: Vec<String>,
    pub operations: Vec<ScimPatchOperation>,
}

/// The operation that a PATCH operation without `op` performs.
pub fn default_patch_operation() -> (r: String)
    ensures
        r@ == "replace"@,
{
    owned("replace")
}

impl ScimPatchRequest {
    /// Accepts a request whose schemas are exactly the PATCH schema.
    pub fn validate(&self) -> (r: Result<(), ScimError>)
        ensures
            (self.schemas.deep_view() == seq![SCIM_PATCH_SCHEMA@]) <==> r is Ok,
            r matches Err(e) ==> e@ == invalid_value("schemas must contain only "@ + SCIM_PATCH_SCHEMA@),
    {
        if self.schemas.len() == 1 && str_eq(self.schemas[0].as_str(), SCIM_PATCH_SCHEMA) {
            assert(self.schemas.deep_view() =~= seq![SCIM_PATCH_SCHEMA@]);
            Ok(())
        } else {
            proof {
                assert(self.schemas.deep_view().len() == self.schemas@.len());
                if self.schemas.deep_view() == seq![SCIM_PATCH_SCHEMA@] {
                    assert(seq![SCIM_PATCH_SCHEMA@].len() == 1);
                    assert(self.schemas.deep_view()[0] == SCIM_PATCH_SCHEMA@);
                }
            }
            Err(invalid(concat("schemas must contain only ", SCIM_PATCH_SCHEMA)))
        }
    }
}

} // verus!
