//! SCIM resources (Users and Groups) and their values.

use crate::exact_clone::ExactClone;
use vstd::prelude::*;

verus! {

#[derive(Clone, Debug, PartialEq, Eq, Default)]
pub struct ScimName {
    pub formatted: Option<String>,
    pub given_name: Option<String>,
    pub family_name: Option<String>,
    pub middle_name: Option<String>,
    pub honorific_prefix: Option<String>,
    pub honorific_suffix: Option<String>,
}

pub struct ScimNameView {
    pub formatted: Option<Seq<char>>,
    pub given_name: Option<Seq<char>>,
    pub family_name: Option<Seq<char>>,
    pub middle_name: Option<Seq<char>>,
    pub honorific_prefix: Option<Seq<char>>,
    pub honorific_suffix: Option<Seq<char>>,
}

impl View for ScimName {
    type V = ScimNameView;

    open spec fn view(&self) -> ScimNameView {
        ScimNameView {
            formatted: self.formatted.deep_view(),
            given_name: self.given_name.deep_view(),
            family_name: self.family_name.deep_view(),
            middle_name: self.middle_name.deep_view(),
            honorific_prefix: self.honorific_prefix.deep_view(),
            honorific_suffix: self.honorific_suffix.deep_view(),
        }
    }
}

impl DeepView for ScimName {
    type V = ScimNameView;

    open spec fn deep_view(&self) -> ScimNameView {
        self@
    }
}

impl ExactClone for ScimName {
    fn exact_clone(&self) -> (r: ScimName) {
        ScimName {
            formatted: self.formatted.exact_clone(),
            given_name: self.given_name.exact_clone(),
            family_name: self.family_name.exact_clone(),
            middle_name: self.middle_name.exact_clone(),
            honorific_prefix: self.honorific_prefix.exact_clone(),
            honorific_suffix: self.honorific_suffix.exact_clone(),
        }
    }
}

#[derive(Clone, Debug, PartialEq, Eq)]
pub struct ScimEmail {
    pub value: String,
    pub primary: Option<bool>,
    pub kind: Option<String>,
}

pub struct ScimEmailView {
    pub value: Seq<char>,
    pub primary: Option<bool>,
    pub kind: Option<Seq<char>>,
}

impl View for ScimEmail {
    type V = ScimEmailView;

    open spec fn view(&self) -> ScimEmailView {
        ScimEmailView { value: self.value@, primary: self.primary, kind: self.kind.deep_view() }
    }
}

impl DeepView for ScimEmail {
    type V = ScimEmailView;

    open spec fn deep_view(&self) -> ScimEmailView {
        self@
    }
}

impl ExactClone for ScimEmail {
    fn exact_clone(&self) -> (r: ScimEmail) {
        ScimEmail {
            value: self.value.exact_clone(),
            primary: self.primary,
            kind: self.kind.exact_clone(),
        }
    }
}

#[derive(Clone, Debug, PartialEq, Eq, Default)]
pub struct ScimAddress {
    pub formatted: Option<String>,
    pub street_address: Option<String>,
    pub locality: Option<String>,
    pub region: Option<String>,
    pub postal_code: Option<String>,
    pub country: Option<String>,
    pub kind: Option<String>,
    pub primary: Option<bool>,
}

pub struct ScimAddressView {
    pub formatted: Option<Seq<char>>,
    pub street_address: Option<Seq<char>>,
    pub locality: Option<Seq<char>>,
    pub region: Option<Seq<char>>,
    pub postal_code: Option<Seq<char>>,
    pub country: Option<Seq<char>>,
    pub kind: Option<Seq<char>>,
    pub primary: Option<bool>,
}

impl View for ScimAddress {
    type V = ScimAddressView;

    open spec fn view(&self) -> ScimAddressView {
        ScimAddressView {
            formatted: self.formatted.deep_view(),
            street_address: self.street_address.deep_view(),
            locality: self.locality.deep_view(),
            region: self.region.deep_view(),
            postal_code: self.postal_code.deep_view(),
            country: self.country.deep_view(),
            kind: self.kind.deep_view(),
            primary: self.primary,
        }
    }
}

impl DeepView for ScimAddress {
    type V = ScimAddressView;

    open spec fn deep_view(&self) -> ScimAddressView {
        self@
    }
}

impl ExactClone for ScimAddress {
    fn exact_clone(&self) -> (r: ScimAddress) {
        ScimAddress {
            formatted: self.formatted.exact_clone(),
            street_address: self.street_address.exact_clone(),
            locality: self.locality.exact_clone(),
            region: self.region.exact_clone(),
            postal_code: self.postal_code.exact_clone(),
            country: self.country.exact_clone(),
            kind: self.kind.exact_clone(),
            primary: self.primary,
        }
    }
}

/// A manager reference of an Enterprise User.
#[derive(Clone, Debug, PartialEq, Eq)]
pub struct ScimManager {
    pub value: Option<String>,
    pub reference: Option<String>,
}

pub struct ScimManagerView {
    pub value: Option<Seq<char>>,
    pub reference: Option<Seq<char>>,
}

impl View for ScimManager {
    type V = ScimManagerView;

    open spec fn view(&self) -> ScimManagerView {
        ScimManagerView { value: self.value.deep_view(), reference: self.reference.deep_view() }
    }
}

impl DeepView for ScimManager {
    type V = ScimManagerView;

    open spec fn deep_view(&self) -> ScimManagerView {
        self@
    }
}

impl ExactClone for ScimManager {
    fn exact_clone(&self) -> (r: ScimManager) {
        ScimManager { value: self.value.exact_clone(), reference: self.reference.exact_clone() }
    }
}

#[derive(Clone, Debug, PartialEq, Eq, Default)]
pub struct ScimEnterpriseUser {
    pub employee_number: Option<String>,
    pub cost_center: Option<String>,
    pub organization: Option<String>,
    pub division: Option<String>,
    pub department: Option<String>,
    pub manager: Option<ScimManager>,
}

pub struct ScimEnterpriseUserView {
    pub employee_number: Option<Seq<char>>,
    pub cost_center: Option<Seq<char>>,
    pub organization: Option<Seq<char>>,
    pub division: Option<Seq<char>>,
    pub department: Option<Seq<char>>,
    pub manager: Option<ScimManagerView>,
}

impl View for ScimEnterpriseUser {
    type V = ScimEnterpriseUserView;

    open spec fn view(&self) -> ScimEnterpriseUserView {
        ScimEnterpriseUserView {
            employee_number: self.employee_number.deep_view(),
            cost_center: self.cost_center.deep_view(),
            organization: self.organization.deep_view(),
            division: self.division.deep_view(),
            department: self.department.deep_view(),
            manager: self.manager.deep_view(),
        }
    }
}

impl DeepView for ScimEnterpriseUser {
    type V = ScimEnterpriseUserView;

    open spec fn deep_view(&self) -> ScimEnterpriseUserView {
        self@
    }
}

impl ExactClone for ScimEnterpriseUser {
    fn exact_clone(&self) -> (r: ScimEnterpriseUser) {
        ScimEnterpriseUser {
            employee_number: self.employee_number.exact_clone(),
            cost_center: self.cost_center.exact_clone(),
            organization: self.organization.exact_clone(),
            division: self.division.exact_clone(),
            department: self.department.exact_clone(),
            manager: self.manager.exact_clone(),
        }
    }
}

#[derive(Clone, Debug, PartialEq, Eq)]
pub struct ScimPhoneNumber {
    pub value: String,
    pub kind: Option<String>,
    pub primary: Option<bool>,
}

pub struct ScimPhoneNumberView {
    pub value: Seq<char>,
    pub kind: Option<Seq<char>>,
    pub primary: Option<bool>,
}

impl View for ScimPhoneNumber {
    type V = ScimPhoneNumberView;

    open spec fn view(&self) -> ScimPhoneNumberView {
        ScimPhoneNumberView { value: self.value@, kind: self.kind.deep_view(), primary: self.primary }
    }
}

impl DeepView for ScimPhoneNumber {
    type V = ScimPhoneNumberView;

    open spec fn deep_view(&self) -> ScimPhoneNumberView {
        self@
    }
}

impl ExactClone for ScimPhoneNumber {
    fn exact_clone(&self) -> (r: ScimPhoneNumber) {
        ScimPhoneNumber {
            value: self.value.exact_clone(),
            kind: self.kind.exact_clone(),
            primary: self.primary,
        }
    }
}

/// A role or an entitlement of a SCIM User.
#[derive(Clone, Debug, PartialEq, Eq)]
pub struct ScimRole {
    pub value: String,
    pub display: Option<String>,
    pub kind: Option<String>,
    pub primary: Option<bool>,
}

pub struct ScimRoleView {
    pub value: Seq<char>,
    pub display: Option<Seq<char>>,
    pub kind: Option<Seq<char>>,
    pub primary: Option<bool>,
}

impl View for ScimRole {
    type V = ScimRoleView;

    open spec fn view(&self) -> ScimRoleView {
        ScimRoleView {
            value: self.value@,
            display: self.display.deep_view(),
            kind: self.kind.deep_view(),
            primary: self.primary,
        }
    }
}

impl DeepView for ScimRole {
    type V = ScimRoleView;

    open spec fn deep_view(&self) -> ScimRoleView {
        self@
    }
}

impl ExactClone for ScimRole {
    fn exact_clone(&self) -> (r: ScimRole) {
        ScimRole {
            value: self.value.exact_clone(),
            display: self.display.exact_clone(),
            kind: self.kind.exact_clone(),
            primary: self.primary,
        }
    }
}

#[derive(Clone, Debug, PartialEq, Eq)]
pub struct ScimEntitlement {
    pub value: String,
    pub display: Option<String>,
    pub kind: Option<String>,
    pub primary: Option<bool>,
}

impl View for ScimEntitlement {
    type V = ScimRoleView;

    open spec fn view(&self) -> ScimRoleView {
        ScimRoleView {
            value: self.value@,
            display: self.display.deep_view(),
            kind: self.kind.deep_view(),
            primary: self.primary,
        }
    }
}

impl DeepView for ScimEntitlement {
    type V = ScimRoleView;

    open spec fn deep_view(&self) -> ScimRoleView {
        self@
    }
}

impl ExactClone for ScimEntitlement {
    fn exact_clone(&self) -> (r: ScimEntitlement) {
        ScimEntitlement {
            value: self.value.exact_clone(),
            display: self.display.exact_clone(),
            kind: self.kind.exact_clone(),
            primary: self.primary,
        }
    }
}

/// Resource metadata; times are milliseconds since the Unix epoch.
#[derive(Clone, Debug, PartialEq, Eq)]
pub struct ScimMeta {
    pub resource_type: String,
    pub created: Option<i64>,
    pub last_modified: Option<i64>,
    pub location: String,
}

pub struct ScimMetaView {
    pub resource_type: Seq<char>,
    pub created: Option<i64>,
    pub last_modified: Option<i64>,
    pub location: Seq<char>,
}

impl View for ScimMeta {
    type V = ScimMetaView;

    open spec fn view(&self) -> ScimMetaView {
        ScimMetaView {
            resource_type: self.resource_type@,
            created: self.created,
            last_modified: self.last_modified,
            location: self.location@,
        }
    }
}

impl DeepView for ScimMeta {
    type V = ScimMetaView;

    open spec fn deep_view(&self) -> ScimMetaView {
        self@
    }
}

impl ExactClone for ScimMeta {
    fn exact_clone(&self) -> (r: ScimMeta) {
        ScimMeta {
            resource_type: self.resource_type.exact_clone(),
            created: self.created,
            last_modified: self.last_modified,
            location: self.location.exact_clone(),
        }
    }
}

#[derive(Clone, Debug, PartialEq, Eq)]
pub struct ScimUser {
    pub schemas: Vec<String>,
    pub id: Option<String>,
    pub external_id: Option<String>,
    pub user_name: String,
    pub display_name: Option<String>,
    pub name: Option<ScimName>,
    pub emails: Vec<ScimEmail>,
    pub title: Option<String>,
    pub user_type: Option<String>,
    pub preferred_language: Option<String>,
    pub locale: Option<String>,
    pub timezone: Option<String>,
    pub phone_numbers: Vec<ScimPhoneNumber>,
    pub addresses: Vec<ScimAddress>,
    pub roles: Vec<ScimRole>,
    pub entitlements: Vec<ScimEntitlement>,
    pub active: bool,
    pub enterprise: Option<ScimEnterpriseUser>,
    pub meta: Option<ScimMeta>,
}

pub struct ScimUserView {
    pub schemas: Seq<Seq<char>>,
    pub id: Option<Seq<char>>,
    pub external_id: Option<Seq<char>>,
    pub user_name: Seq<char>,
    pub display_name: Option<Seq<char>>,
    pub name: Option<ScimNameView>,
    pub emails: Seq<ScimEmailView>,
    pub title: Option<Seq<char>>,
    pub user_type: Option<Seq<char>>,
    pub preferred_language: Option<Seq<char>>,
    pub locale: Option<Seq<char>>,
    pub timezone: Option<Seq<char>>,
    pub phone_numbers: Seq<ScimPhoneNumberView>,
    pub addresses: Seq<ScimAddressView>,
    pub roles: Seq<ScimRoleView>,
    pub entitlements: Seq<ScimRoleView>,
    pub active: bool,
    pub enterprise: Option<ScimEnterpriseUserView>,
    pub meta: Option<ScimMetaView>,
}

impl View for ScimUser {
    type V = ScimUserView;

    open spec fn view(&self) -> ScimUserView {
        ScimUserView {
            schemas: self.schemas.deep_view(),
            id: self.id.deep_view(),
            external_id: self.external_id.deep_view(),
            user_name: self.user_name@,
            display_name: self.display_name.deep_view(),
            name: self.name.deep_view(),
            emails: self.emails.deep_view(),
            title: self.title.deep_view(),
            user_type: self.user_type.deep_view(),
            preferred_language: self.preferred_language.deep_view(),
            locale: self.locale.deep_view(),
            timezone: self.timezone.deep_view(),
            phone_numbers: self.phone_numbers.deep_view(),
            addresses: self.addresses.deep_view(),
            roles: self.roles.deep_view(),
            entitlements: self.entitlements.deep_view(),
            active: self.active,
            enterprise: self.enterprise.deep_view(),
            meta: self.meta.deep_view(),
        }
    }
}

impl DeepView for ScimUser {
    type V = ScimUserView;

    open spec fn deep_view(&self) -> ScimUserView {
        self@
    }
}

impl ExactClone for ScimUser {
    fn exact_clone(&self) -> (r: ScimUser) {
        ScimUser {
            schemas: self.schemas.exact_clone(),
            id: self.id.exact_clone(),
            external_id: self.external_id.exact_clone(),
            user_name: self.user_name.exact_clone(),
            display_name: self.display_name.exact_clone(),
            name: self.name.exact_clone(),
            emails: self.emails.exact_clone(),
            title: self.title.exact_clone(),
            user_type: self.user_type.exact_clone(),
            preferred_language: self.preferred_language.exact_clone(),
            locale: self.locale.exact_clone(),
            timezone: self.timezone.exact_clone(),
            phone_numbers: self.phone_numbers.exact_clone(),
            addresses: self.addresses.exact_clone(),
            roles: self.roles.exact_clone(),
            entitlements: self.entitlements.exact_clone(),
            active: self.active,
            enterprise: self.enterprise.exact_clone(),
            meta: self.meta.exact_clone(),
        }
    }
}

#[derive(Clone, Debug, PartialEq, Eq)]
pub struct ScimGroupMember {
    pub value: String,
    pub reference: Option<String>,
    pub display: Option<String>,
    pub kind: Option<String>,
}

pub struct ScimGroupMemberView {
    pub value: Seq<char>,
    pub reference: Option<Seq<char>>,
    pub display: Option<Seq<char>>,
    pub kind: Option<Seq<char>>,
}

impl View for ScimGroupMember {
    type V = ScimGroupMemberView;

    open spec fn view(&self) -> ScimGroupMemberView {
        ScimGroupMemberView {
            value: self.value@,
            reference: self.reference.deep_view(),
            display: self.display.deep_view(),
            kind: self.kind.deep_view(),
        }
    }
}

impl DeepView for ScimGroupMember {
    type V = ScimGroupMemberView;

    open spec fn deep_view(&self) -> ScimGroupMemberView {
        self@
    }
}

impl ExactClone for ScimGroupMember {
    fn exact_clone(&self) -> (r: ScimGroupMember) {
        ScimGroupMember {
            value: self.value.exact_clone(),
            reference: self.reference.exact_clone(),
            display: self.display.exact_clone(),
            kind: self.kind.exact_clone(),
        }
    }
}

#[derive(Clone, Debug, PartialEq, Eq)]
pub struct ScimGroup {
    pub schemas: Vec<String>,
    pub id: Option<String>,
    pub external_id: Option<String>,
    pub display_name: String,
    pub members: Vec<ScimGroupMember>,
    pub meta: Option<ScimMeta>,
}

pub struct ScimGroupView {
    pub schemas: Seq<Seq<char>>,
    pub id: Option<Seq<char>>,
    pub external_id: Option<Seq<char>>,
    pub display_name: Seq<char>,
    pub members: Seq<ScimGroupMemberView>,
    pub meta: Option<ScimMetaView>,
}

impl View for ScimGroup {
    type V = ScimGroupView;

    open spec fn view(&self) -> ScimGroupView {
        ScimGroupView {
            schemas: self.schemas.deep_view(),
            id: self.id.deep_view(),
            external_id: self.external_id.deep_view(),
            display_name: self.display_name@,
            members: self.members.deep_view(),
            meta: self.meta.deep_view(),
        }
    }
}

impl DeepView for ScimGroup {
    type V = ScimGroupView;

    open spec fn deep_view(&self) -> ScimGroupView {
        self@
    }
}

impl ExactClone for ScimGroup {
    fn exact_clone(&self) -> (r: ScimGroup) {
        ScimGroup {
            schemas: self.schemas.exact_clone(),
            id: self.id.exact_clone(),
            external_id: self.external_id.exact_clone(),
            display_name: self.display_name.exact_clone(),
            members: self.members.exact_clone(),
            meta: self.meta.exact_clone(),
        }
    }
}

/// A page of SCIM resources.
pub struct ScimListResponse<T> {
    pub schemas: Vec<String>,
    pub total_results: usize,
    pub start_index: usize,
    pub items_per_page: usize,
    pub resources: Vec<T>,
}

impl<T> ScimListResponse<T> {
    /// A page holding `resources`, whose size is the page size.
    pub fn new(total_results: usize, start_index: usize, resources: Vec<T>) -> (r: Self)
        ensures
            r.schemas.deep_view() == seq![crate::scim::SCIM_LIST_RESPONSE_SCHEMA@],
            r.total_results == total_results,
            r.start_index == start_index,
            r.items_per_page == resources@.len(),
            r.resources@ == resources@,
    {
        let items_per_page = resources.len();
        let mut schemas: Vec<String> = Vec::new();
        schemas.push(crate::text::owned(crate::scim::SCIM_LIST_RESPONSE_SCHEMA));
        proof {
            assert(schemas.deep_view() =~= seq![crate::scim::SCIM_LIST_RESPONSE_SCHEMA@]);
        }
        ScimListResponse { schemas, total_results, start_index, items_per_page, resources }
    }
}

} // verus!
