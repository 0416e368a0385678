//! The well-known coordinates under which schema definitions are stored: they
//! are resources like any other, of one fixed cluster-scoped type.

use crate::models::{Group, GroupResourceType, GroupResourceTypeResource, Resource, ResourceType};
use vstd::pervasive::unreached;
use vstd::prelude::*;
use vstd::string::*;

verus! {

/// The group of the schema definitions.
pub const CRD_GROUP: &'static str = "apiextensions";

/// The resource type of the schema definitions.
pub const CRD_RESOURCE_TYPE: &'static str = "schemadefinitions";

/// The version in which the schema definitions are served.
pub const CRD_VERSION: &'static str = "v1";

/// The kind of the schema definitions' documents.
pub const CRD_KIND: &'static str = "CustomResourceDefinition";

/// The group of the schema definitions, as characters.
pub open spec fn crd_group() -> Seq<char> {
    "apiextensions"@
}

/// The resource type of the schema definitions, as characters.
pub open spec fn crd_resource_type() -> Seq<char> {
    "schemadefinitions"@
}

/// The version of the schema definitions, as characters.
pub open spec fn crd_version() -> Seq<char> {
    "v1"@
}

/// The kind of the schema definitions' documents, as characters.
pub open spec fn crd_kind() -> Seq<char> {
    "CustomResourceDefinition"@
}

/// The resource type under which every schema definition is stored.
pub fn get_crd_resource_type() -> (r: GroupResourceType)
    ensures
        r.group_view() == crd_group(),
        r.resource_type_view() == crd_resource_type(),
{
    proof {
        reveal_strlit("apiextensions");
        reveal_strlit("schemadefinitions");
    }
    match GroupResourceType::new(
        String::from_str(CRD_GROUP),
        String::from_str(CRD_RESOURCE_TYPE),
    ) {
        Ok(resource_type) => resource_type,
        Err(_) => unreached(),
    }
}

/// The coordinate of the schema definition that is stored under the name
/// `resource`.
pub fn get_crd_for_resource(resource: String) -> (r: GroupResourceTypeResource)
    ensures
        r.group_view() == crd_group(),
        r.resource_type_view() == crd_resource_type(),
        r.resource_view() == resource@,
{
    proof {
        reveal_strlit("apiextensions");
        reveal_strlit("schemadefinitions");
    }
    match GroupResourceTypeResource::new(
        String::from_str(CRD_GROUP),
        String::from_str(CRD_RESOURCE_TYPE),
        resource,
    ) {
        Ok(coordinate) => coordinate,
        Err(_) => unreached(),
    }
}

} // verus!
