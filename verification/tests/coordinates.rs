use orchestrator::helper::{get_crd_for_resource, get_crd_resource_type};
use orchestrator::models::{
    CoordinateError, Group, GroupResourceType, GroupResourceTypeResource,
    GroupVersionNamespaceResourceType, GroupVersionResourceType, Namespace, Resource,
    ResourceType, Version,
};

#[test]
fn resource_type_keeps_its_parts() {
    let grt = GroupResourceType::new("example.com".to_string(), "widgets".to_string()).unwrap();
    assert_eq!(grt.group(), "example.com");
    assert_eq!(grt.resource_type(), "widgets");
}

#[test]
fn empty_group_is_rejected() {
    let r = GroupResourceType::new(String::new(), "widgets".to_string());
    assert_eq!(r.err(), Some(CoordinateError::EmptyGroup));
}

#[test]
fn empty_resource_type_is_rejected() {
    let r = GroupResourceTypeResource::new("example.com".to_string(), String::new(), "foo".to_string());
    assert_eq!(r.err(), Some(CoordinateError::EmptyResourceType));
}

#[test]
fn empty_namespace_is_rejected() {
    let r = GroupVersionNamespaceResourceType::new(
        "example.com".to_string(),
        "v1".to_string(),
        String::new(),
        "widgets".to_string(),
    );
    assert_eq!(r.err(), Some(CoordinateError::EmptyNamespace));
}

#[test]
fn group_is_checked_before_namespace() {
    let r = GroupVersionNamespaceResourceType::new(
        String::new(),
        "v1".to_string(),
        String::new(),
        String::new(),
    );
    assert_eq!(r.err(), Some(CoordinateError::EmptyGroup));
}

#[test]
fn group_version_joins_with_a_slash() {
    let gvrt = GroupVersionResourceType::new(
        "example.com".to_string(),
        "v1".to_string(),
        "widgets".to_string(),
    )
    .unwrap();
    assert_eq!(gvrt.group_version(), "example.com/v1");
    assert_eq!(gvrt.version(), "v1");
    let gvnrt = GroupVersionNamespaceResourceType::new(
        "apps".to_string(),
        "v1beta1".to_string(),
        "default".to_string(),
        "gadgets".to_string(),
    )
    .unwrap();
    assert_eq!(gvnrt.group_version(), "apps/v1beta1");
    assert_eq!(gvnrt.namespace(), "default");
}

#[test]
fn an_empty_version_is_joined_as_it_is() {
    let gvrt = GroupVersionResourceType::new(
        "example.com".to_string(),
        String::new(),
        "widgets".to_string(),
    )
    .unwrap();
    assert_eq!(gvrt.group_version(), "example.com/");
}

#[test]
fn schema_definitions_have_a_well_known_type() {
    let grt = get_crd_resource_type();
    assert_eq!(grt.group(), "apiextensions");
    assert_eq!(grt.resource_type(), "schemadefinitions");
    let crd = get_crd_for_resource("widgets.example.com".to_string());
    assert_eq!(crd.group(), "apiextensions");
    assert_eq!(crd.resource_type(), "schemadefinitions");
    assert_eq!(crd.resource(), "widgets.example.com");
}

#[test]
fn coordinates_compare_by_their_parts() {
    let a = GroupResourceType::new("example.com".to_string(), "widgets".to_string()).unwrap();
    let b = GroupResourceType::new("example.com".to_string(), "widgets".to_string()).unwrap();
    let c = GroupResourceType::new("example.com".to_string(), "gadgets".to_string()).unwrap();
    assert!(a == b);
    assert!(a != c);
}

#[test]
fn a_request_coordinate_gives_its_resource_type() {
    let gvrt = GroupVersionResourceType::new(
        "example.com".to_string(),
        "v1".to_string(),
        "widgets".to_string(),
    )
    .unwrap();
    let instance = gvrt.instance("foo");
    assert_eq!(instance.group(), "example.com");
    assert_eq!(instance.resource_type(), "widgets");
    assert_eq!(instance.resource(), "foo");
    let grt = GroupResourceType::from(gvrt);
    assert_eq!(grt.group(), "example.com");
    assert_eq!(grt.resource_type(), "widgets");
}
