use orchestrator::discovery::{
    build_api_groups, build_resource_types, get_api_versions, list_api_groups, list_resource_types,
};
use orchestrator::helper::get_crd_for_resource;
use orchestrator::resource_api::create_crd;
use orchestrator::schema::{SchemaDefinition, SchemaDocument};
use orchestrator::storage::{Storage, StorageError};
use orchestrator::storage_memory::MemoryStorage;

fn schema(group: &str, kind: &str, plural: &str, scope: &str, versions: &[&str]) -> SchemaDefinition {
    SchemaDefinition::validate(SchemaDocument {
        group: group.to_string(),
        kind: kind.to_string(),
        plural: plural.to_string(),
        singular: Some(kind.to_lowercase()),
        short_names: Some(vec![plural[..2].to_string()]),
        categories: None,
        scope: scope.to_string(),
        versions: versions.iter().map(|v| v.to_string()).collect(),
    })
    .unwrap()
}

fn versions_of(group: &orchestrator::discovery::ApiGroup) -> Vec<(String, String)> {
    group.versions.iter().map(|v| (v.group_version.clone(), v.version.clone())).collect()
}

#[test]
fn the_core_api_has_version_v1() {
    let versions = get_api_versions();
    assert_eq!(versions.versions, vec!["v1".to_string()]);
    assert_eq!(versions.server_address_by_client_cidrs.len(), 1);
    assert_eq!(versions.server_address_by_client_cidrs[0].client_cidr, "0.0.0.0/0");
    assert_eq!(versions.server_address_by_client_cidrs[0].server_address, "127.0.0.1:8080");
}

#[test]
fn no_schemas_give_no_groups() {
    assert!(build_api_groups(&Vec::new()).groups.is_empty());
    assert!(build_resource_types("example.com", "v1", &Vec::new()).resources.is_empty());
}

#[test]
fn one_schema_with_one_version_gives_one_group() {
    let schemas = vec![schema("example.com", "Widget", "widgets", "Cluster", &["v1"])];
    let list = build_api_groups(&schemas);
    assert_eq!(list.groups.len(), 1);
    let group = &list.groups[0];
    assert_eq!(group.name, "example.com");
    let preferred = group.preferred_version.as_ref().unwrap();
    assert_eq!(preferred.version, "v1");
    assert_eq!(preferred.group_version, "example.com/v1");
    assert_eq!(versions_of(group), vec![("example.com/v1".to_string(), "v1".to_string())]);
}

#[test]
fn the_schemas_of_one_group_share_one_entry() {
    let schemas = vec![
        schema("example.com", "Widget", "widgets", "Cluster", &["v2", "v1"]),
        schema("other.io", "Thing", "things", "Namespaced", &["v1alpha1"]),
        schema("example.com", "Gadget", "gadgets", "Namespaced", &["v1", "v3", "v2"]),
    ];
    let list = build_api_groups(&schemas);
    assert_eq!(list.groups.len(), 2);
    assert_eq!(list.groups[0].name, "example.com");
    assert_eq!(list.groups[1].name, "other.io");
    assert_eq!(
        versions_of(&list.groups[0]),
        vec![
            ("example.com/v2".to_string(), "v2".to_string()),
            ("example.com/v1".to_string(), "v1".to_string()),
            ("example.com/v3".to_string(), "v3".to_string()),
        ]
    );
    assert_eq!(list.groups[0].preferred_version.as_ref().unwrap().version, "v2");
    assert_eq!(versions_of(&list.groups[1]), vec![("other.io/v1alpha1".to_string(), "v1alpha1".to_string())]);
    assert_eq!(list.groups[1].preferred_version.as_ref().unwrap().group_version, "other.io/v1alpha1");
}

#[test]
fn resource_types_are_those_of_the_group_and_version() {
    let schemas = vec![
        schema("example.com", "Widget", "widgets", "Cluster", &["v1", "v2"]),
        schema("other.io", "Thing", "things", "Namespaced", &["v1"]),
        schema("example.com", "Gadget", "gadgets", "Namespaced", &["v2"]),
        schema("example.com", "Gizmo", "gizmos", "Namespaced", &["v1"]),
    ];
    let list = build_resource_types("example.com", "v1", &schemas);
    assert_eq!(list.group_version, "example.com/v1");
    let names: Vec<&str> = list.resources.iter().map(|r| r.name.as_str()).collect();
    assert_eq!(names, vec!["widgets", "gizmos"]);
    let widgets = &list.resources[0];
    assert_eq!(widgets.kind, "Widget");
    assert_eq!(widgets.singular_name, "widget");
    assert!(!widgets.namespaced);
    assert_eq!(widgets.short_names, Some(vec!["wi".to_string()]));
    assert!(widgets.categories.is_none());
    assert!(list.resources[1].namespaced);
    assert!(build_resource_types("example.com", "v3", &schemas).resources.is_empty());
    assert!(build_resource_types("nowhere", "v1", &schemas).resources.is_empty());
}

#[test]
fn every_resource_type_advertises_the_same_verbs() {
    let schemas = vec![schema("example.com", "Widget", "widgets", "Cluster", &["v1"])];
    let list = build_resource_types("example.com", "v1", &schemas);
    assert_eq!(
        list.resources[0].verbs,
        vec!["delete", "deletecollection", "get", "list", "patch", "create", "update", "watch"]
    );
}

fn crd(name: &str, group: &str, kind: &str, plural: &str, versions: &[&str]) -> Vec<u8> {
    let versions: Vec<String> = versions
        .iter()
        .map(|v| format!("{{\"name\":\"{}\",\"served\":true,\"storage\":true}}", v))
        .collect();
    format!(
        "{{\"apiVersion\":\"apiextensions.k8s.io/v1\",\"kind\":\"CustomResourceDefinition\",\"metadata\":{{\"name\":\"{}\"}},\"spec\":{{\"group\":\"{}\",\"names\":{{\"kind\":\"{}\",\"plural\":\"{}\"}},\"scope\":\"Cluster\",\"versions\":[{}]}}}}",
        name,
        group,
        kind,
        plural,
        versions.join(",")
    )
    .into_bytes()
}

#[test]
fn discovery_reads_the_registered_schemas() {
    let mut storage = MemoryStorage::new();
    assert!(list_api_groups(&storage).unwrap().groups.is_empty());
    create_crd(&mut storage, &crd("widgets.example.com", "example.com", "Widget", "widgets", &["v1"]))
        .unwrap();
    let list = list_api_groups(&storage).unwrap();
    assert_eq!(list.groups.len(), 1);
    assert_eq!(list.groups[0].name, "example.com");
    assert_eq!(list.groups[0].preferred_version.as_ref().unwrap().version, "v1");
    assert_eq!(versions_of(&list.groups[0]), vec![("example.com/v1".to_string(), "v1".to_string())]);

    create_crd(&mut storage, &crd("things.other.io", "other.io", "Thing", "things", &["v1", "v2"]))
        .unwrap();
    let list = list_api_groups(&storage).unwrap();
    assert_eq!(list.groups.len(), 2);
    assert_eq!(list.groups[1].name, "other.io");

    let types = list_resource_types("other.io", "v2", &storage).unwrap();
    assert_eq!(types.group_version, "other.io/v2");
    assert_eq!(types.resources.len(), 1);
    assert_eq!(types.resources[0].name, "things");
    assert_eq!(types.resources[0].kind, "Thing");
    assert!(list_resource_types("example.com", "v2", &storage).unwrap().resources.is_empty());
}

#[test]
fn a_stored_schema_that_does_not_decode_fails_discovery() {
    let mut storage = MemoryStorage::new();
    storage
        .create_cluster_resource(&get_crd_for_resource("broken".to_string()), b"{\"spec\":7}")
        .unwrap();
    assert!(matches!(list_api_groups(&storage), Err(StorageError::ModelError(_))));
    assert!(matches!(
        list_resource_types("example.com", "v1", &storage),
        Err(StorageError::ModelError(_))
    ));
}
