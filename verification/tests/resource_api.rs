use orchestrator::models::{
    Group, GroupVersionNamespaceResourceType, GroupVersionNamespaceResourceTypeResource,
    GroupVersionResourceType, GroupVersionResourceTypeResource, ResourceType,
};
use orchestrator::resource::{BaseResource, ListOptions};
use orchestrator::resource_api::{
    admit_resource, check_version, create_cluster_resource, create_crd,
    create_namespaced_resource, get_cluster_resource, get_crd, get_crd_object,
    get_namespaced_resource, list_cluster_resources, list_crds, list_namespaced_resources,
    ApiError, BadRequest, Listing,
};
use orchestrator::schema::{SchemaDefinition, SchemaError};
use orchestrator::storage::{Storage, StorageError};
use orchestrator::storage_memory::MemoryStorage;
use orchestrator::watch::WatchEvent;

const WIDGETS: &[u8] = br#"{"apiVersion":"apiextensions.k8s.io/v1","kind":"CustomResourceDefinition","metadata":{"name":"widgets.example.com"},"spec":{"group":"example.com","names":{"kind":"Widget","plural":"widgets"},"scope":"Cluster","versions":[{"name":"v1","served":true,"storage":true}]}}"#;

const GADGETS: &[u8] = br#"{"apiVersion":"apiextensions.k8s.io/v1","kind":"CustomResourceDefinition","metadata":{"name":"gadgets.example.com"},"spec":{"group":"example.com","names":{"kind":"Gadget","plural":"gadgets"},"scope":"Namespaced","versions":[{"name":"v1","served":true,"storage":true},{"name":"v2","served":true,"storage":false}]}}"#;

fn gvrt(group: &str, version: &str, resource_type: &str) -> GroupVersionResourceType {
    GroupVersionResourceType::new(group.to_string(), version.to_string(), resource_type.to_string())
        .unwrap()
}

fn gvrtr(group: &str, version: &str, resource_type: &str, resource: &str) -> GroupVersionResourceTypeResource {
    GroupVersionResourceTypeResource::new(
        group.to_string(),
        version.to_string(),
        resource_type.to_string(),
        resource.to_string(),
    )
    .unwrap()
}

fn gvnrt(group: &str, version: &str, namespace: &str, resource_type: &str) -> GroupVersionNamespaceResourceType {
    GroupVersionNamespaceResourceType::new(
        group.to_string(),
        version.to_string(),
        namespace.to_string(),
        resource_type.to_string(),
    )
    .unwrap()
}

fn gvnrtr(group: &str, version: &str, namespace: &str, resource_type: &str, resource: &str) -> GroupVersionNamespaceResourceTypeResource {
    GroupVersionNamespaceResourceTypeResource::new(
        group.to_string(),
        version.to_string(),
        namespace.to_string(),
        resource_type.to_string(),
        resource.to_string(),
    )
    .unwrap()
}

fn registered() -> MemoryStorage {
    let mut storage = MemoryStorage::new();
    create_crd(&mut storage, WIDGETS).unwrap();
    create_crd(&mut storage, GADGETS).unwrap();
    storage
}

fn items(listing: Listing) -> orchestrator::resource::List<BaseResource> {
    match listing {
        Listing::Items(list) => list,
        Listing::Watch(_) => panic!("a listing was asked for"),
    }
}

const NO_WATCH: ListOptions = ListOptions { watch: None };

#[test]
fn a_created_widget_is_listed() {
    let mut storage = MemoryStorage::new();
    create_crd(&mut storage, WIDGETS).unwrap();
    let widgets = gvrt("example.com", "v1", "widgets");
    let body = br#"{"metadata":{"name":"foo"}}"#;
    assert!(create_cluster_resource(&widgets, &mut storage, body).is_ok());
    let list = items(list_cluster_resources(&widgets, NO_WATCH, &storage).unwrap());
    assert_eq!(list.api_version, "example.com/v1");
    assert_eq!(list.kind, "Widget");
    assert_eq!(list.items.len(), 1);
    assert_eq!(list.items[0].metadata.name.as_deref(), Some("foo"));
    assert_eq!(list.items[0].document, body.to_vec());
    assert!(list.metadata.continue_.is_none());
}

#[test]
fn listing_an_unregistered_type_is_not_found() {
    let storage = MemoryStorage::new();
    let r = list_cluster_resources(&gvrt("example.com", "v1", "widgets"), NO_WATCH, &storage);
    let error = r.err().unwrap();
    assert!(matches!(error, ApiError::NotFound));
    assert_eq!(error.status_code(), 404);
}

#[test]
fn every_request_on_an_unregistered_type_is_not_found() {
    let mut storage = MemoryStorage::new();
    create_crd(&mut storage, WIDGETS).unwrap();
    let body = br#"{"metadata":{"name":"foo"}}"#;
    assert!(matches!(
        get_cluster_resource(&gvrtr("example.com", "v1", "gizmos", "foo"), &storage),
        Err(ApiError::NotFound)
    ));
    assert!(matches!(
        list_cluster_resources(&gvrt("example.com", "v1", "gizmos"), ListOptions { watch: Some(true) }, &storage),
        Err(ApiError::NotFound)
    ));
    assert!(matches!(
        create_cluster_resource(&gvrt("other.io", "v1", "widgets"), &mut storage, body),
        Err(ApiError::NotFound)
    ));
    assert!(matches!(
        get_namespaced_resource(&gvnrtr("example.com", "v1", "default", "gizmos", "foo"), &storage),
        Err(ApiError::NotFound)
    ));
    assert!(matches!(
        list_namespaced_resources(&gvnrt("example.com", "v1", "default", "gizmos"), &storage),
        Err(ApiError::NotFound)
    ));
    assert!(matches!(
        create_namespaced_resource(&gvnrt("example.com", "v1", "default", "gizmos"), &mut storage, body),
        Err(ApiError::NotFound)
    ));
    let key = orchestrator::models::GroupResourceTypeResource::new(
        "other.io".to_string(),
        "widgets".to_string(),
        "foo".to_string(),
    )
    .unwrap();
    assert_eq!(storage.get_cluster_resource(&key).unwrap(), None);
}

#[test]
fn a_version_that_is_not_served_is_a_bad_request() {
    let mut storage = registered();
    let widgets = gvrt("example.com", "v2", "widgets");
    let error = list_cluster_resources(&widgets, NO_WATCH, &storage).err().unwrap();
    assert!(matches!(error, ApiError::BadRequest(BadRequest::VersionNotServed)));
    assert_eq!(error.status_code(), 400);
    assert!(matches!(
        create_cluster_resource(&widgets, &mut storage, br#"{"metadata":{"name":"foo"}}"#),
        Err(ApiError::BadRequest(BadRequest::VersionNotServed))
    ));
    assert!(list_cluster_resources(&gvrt("example.com", "v2", "gadgets"), NO_WATCH, &storage).is_ok());
}

#[test]
fn resolution_finds_the_schema_definition() {
    let storage = registered();
    let schema = get_crd_object(&gvrt("example.com", "v1", "gadgets"), &storage).unwrap();
    assert_eq!(schema.kind(), "Gadget");
    assert_eq!(schema.plural_name(), "gadgets");
    assert!(matches!(
        get_crd_object(&gvrt("example.com", "v3", "gadgets"), &storage),
        Err(ApiError::BadRequest(BadRequest::VersionNotServed))
    ));
    assert!(matches!(
        get_crd_object(&gvrt("example.com", "v1", "gadget"), &storage),
        Err(ApiError::NotFound)
    ));
}

#[test]
fn a_served_version_passes_the_version_check() {
    let schema = SchemaDefinition::from_json(GADGETS).unwrap();
    assert!(check_version(schema, "v2").is_ok());
    let schema = SchemaDefinition::from_json(GADGETS).unwrap();
    assert!(matches!(
        check_version(schema, "V2"),
        Err(ApiError::BadRequest(BadRequest::VersionNotServed))
    ));
}

#[test]
fn a_body_that_is_no_json_is_a_bad_request() {
    let mut storage = registered();
    let widgets = gvrt("example.com", "v1", "widgets");
    let error = create_cluster_resource(&widgets, &mut storage, b"{oops").err().unwrap();
    assert!(matches!(error, ApiError::BadRequest(BadRequest::MalformedBody)));
    assert_eq!(error.status_code(), 400);
    assert!(items(list_cluster_resources(&widgets, NO_WATCH, &storage).unwrap()).items.is_empty());
}

#[test]
fn a_body_without_a_name_is_a_bad_request() {
    let mut storage = registered();
    let widgets = gvrt("example.com", "v1", "widgets");
    assert!(matches!(
        create_cluster_resource(&widgets, &mut storage, br#"{"metadata":{}}"#),
        Err(ApiError::BadRequest(BadRequest::MissingName))
    ));
    assert!(matches!(
        create_cluster_resource(&widgets, &mut storage, br#"{"metadata":{"name":""}}"#),
        Err(ApiError::BadRequest(BadRequest::MissingName))
    ));
    assert!(items(list_cluster_resources(&widgets, NO_WATCH, &storage).unwrap()).items.is_empty());
}

#[test]
fn admission_takes_what_was_decoded() {
    assert!(matches!(admit_resource(None), Err(ApiError::BadRequest(BadRequest::MalformedBody))));
    let decoded = BaseResource::from_json(br#"{"metadata":{"name":"foo"}}"#);
    let (name, resource) = admit_resource(decoded).unwrap();
    assert_eq!(name, "foo");
    assert_eq!(resource.metadata.name.as_deref(), Some("foo"));
}

#[test]
fn a_created_instance_is_found_byte_for_byte() {
    let mut storage = registered();
    let body = b"{\"metadata\": {\"name\": \"foo\"},\n \"spec\": {\"size\": 3, \"tags\": [\"a\", \"b\"]}}";
    create_cluster_resource(&gvrt("example.com", "v1", "widgets"), &mut storage, body).unwrap();
    let found = get_cluster_resource(&gvrtr("example.com", "v1", "widgets", "foo"), &storage).unwrap();
    assert_eq!(found.document, body.to_vec());
    assert_eq!(found.metadata.name.as_deref(), Some("foo"));
}

#[test]
fn an_instance_that_was_never_created_is_not_found() {
    let storage = registered();
    let error = get_cluster_resource(&gvrtr("example.com", "v1", "widgets", "foo"), &storage)
        .err()
        .unwrap();
    assert!(matches!(error, ApiError::NotFound));
}

#[test]
fn the_second_body_replaces_the_first() {
    let mut storage = registered();
    let widgets = gvrt("example.com", "v1", "widgets");
    create_cluster_resource(&widgets, &mut storage, br#"{"metadata":{"name":"foo"},"rev":1}"#).unwrap();
    create_cluster_resource(&widgets, &mut storage, br#"{"metadata":{"name":"foo"},"rev":2}"#).unwrap();
    let found = get_cluster_resource(&gvrtr("example.com", "v1", "widgets", "foo"), &storage).unwrap();
    assert_eq!(found.document, br#"{"metadata":{"name":"foo"},"rev":2}"#.to_vec());
    assert_eq!(items(list_cluster_resources(&widgets, NO_WATCH, &storage).unwrap()).items.len(), 1);
}

#[test]
fn creation_returns_the_event_for_the_watchers() {
    let mut storage = registered();
    let body = br#"{"metadata":{"name":"foo"}}"#;
    let event = create_cluster_resource(&gvrt("example.com", "v1", "widgets"), &mut storage, body).unwrap();
    assert_eq!(event.resource_type().group(), "example.com");
    assert_eq!(event.resource_type().resource_type(), "widgets");
    match event.event() {
        WatchEvent::ADDED(resource) => {
            assert_eq!(resource.metadata.name.as_deref(), Some("foo"));
            assert_eq!(resource.document, body.to_vec());
        }
    }
}

#[test]
fn a_watch_names_the_resource_type_to_register_for() {
    let storage = registered();
    let r = list_cluster_resources(
        &gvrt("example.com", "v1", "widgets"),
        ListOptions { watch: Some(true) },
        &storage,
    )
    .unwrap();
    match r {
        Listing::Watch(grt) => {
            assert_eq!(grt.group(), "example.com");
            assert_eq!(grt.resource_type(), "widgets");
        }
        Listing::Items(_) => panic!("a watch was asked for"),
    }
    let r = list_cluster_resources(
        &gvrt("example.com", "v1", "widgets"),
        ListOptions { watch: Some(false) },
        &storage,
    )
    .unwrap();
    assert!(matches!(r, Listing::Items(_)));
}

#[test]
fn an_instance_in_one_namespace_is_not_listed_in_another() {
    let mut storage = registered();
    let in_a = gvnrt("example.com", "v1", "a", "gadgets");
    let in_b = gvnrt("example.com", "v1", "b", "gadgets");
    let event = create_namespaced_resource(&in_a, &mut storage, br#"{"metadata":{"name":"foo"}}"#).unwrap();
    assert_eq!(event.resource_type().resource_type(), "gadgets");
    assert!(items(list_namespaced_resources(&in_b, &storage).unwrap()).items.is_empty());
    let list = items(list_namespaced_resources(&in_a, &storage).unwrap());
    assert_eq!(list.api_version, "example.com/v1");
    assert_eq!(list.kind, "Gadget");
    assert_eq!(list.items.len(), 1);
    assert!(matches!(
        get_namespaced_resource(&gvnrtr("example.com", "v1", "b", "gadgets", "foo"), &storage),
        Err(ApiError::NotFound)
    ));
    let found = get_namespaced_resource(&gvnrtr("example.com", "v1", "a", "gadgets", "foo"), &storage).unwrap();
    assert_eq!(found.metadata.name.as_deref(), Some("foo"));
    assert!(items(list_cluster_resources(&gvrt("example.com", "v1", "gadgets"), NO_WATCH, &storage).unwrap())
        .items
        .is_empty());
}

#[test]
fn schema_definitions_are_fetched_and_listed() {
    let storage = registered();
    let found = get_crd("widgets.example.com".to_string(), &storage).unwrap();
    assert_eq!(found.document, WIDGETS.to_vec());
    assert!(matches!(get_crd("gizmos.example.com".to_string(), &storage), Err(ApiError::NotFound)));
    let list = items(list_crds(NO_WATCH, &storage).unwrap());
    assert_eq!(list.api_version, "apiextensions/v1");
    assert_eq!(list.kind, "CustomResourceDefinition");
    let names: Vec<Option<&str>> = list.items.iter().map(|i| i.metadata.name.as_deref()).collect();
    assert_eq!(names, vec![Some("widgets.example.com"), Some("gadgets.example.com")]);
    match list_crds(ListOptions { watch: Some(true) }, &storage).unwrap() {
        Listing::Watch(grt) => {
            assert_eq!(grt.group(), "apiextensions");
            assert_eq!(grt.resource_type(), "schemadefinitions");
        }
        Listing::Items(_) => panic!("a watch was asked for"),
    }
}

#[test]
fn registering_returns_the_event_for_the_watchers() {
    let mut storage = MemoryStorage::new();
    let event = create_crd(&mut storage, WIDGETS).unwrap();
    assert_eq!(event.resource_type().group(), "apiextensions");
    assert_eq!(event.resource_type().resource_type(), "schemadefinitions");
    match event.event() {
        WatchEvent::ADDED(resource) => assert_eq!(resource.document, WIDGETS.to_vec()),
    }
}

#[test]
fn a_schema_definition_that_breaks_a_rule_is_not_registered() {
    let mut storage = MemoryStorage::new();
    assert!(matches!(create_crd(&mut storage, b"nonsense"), Err(ApiError::BadRequest(BadRequest::MalformedBody))));
    assert!(matches!(
        create_crd(&mut storage, br#"{"spec":{"group":"example.com"}}"#),
        Err(ApiError::BadRequest(BadRequest::MalformedBody))
    ));
    assert!(matches!(
        create_crd(&mut storage, br#"{"metadata":{},"spec":{"group":"example.com"}}"#),
        Err(ApiError::BadRequest(BadRequest::MissingName))
    ));
    let no_versions = br#"{"metadata":{"name":"widgets.example.com"},"spec":{"group":"example.com","names":{"kind":"Widget","plural":"widgets"},"scope":"Cluster","versions":[]}}"#;
    assert!(matches!(
        create_crd(&mut storage, no_versions),
        Err(ApiError::BadRequest(BadRequest::InvalidSchema(SchemaError::NoVersions)))
    ));
    let a_pod = br#"{"kind":"Pod","metadata":{"name":"widgets.example.com"}}"#;
    assert!(matches!(
        create_crd(&mut storage, a_pod),
        Err(ApiError::BadRequest(BadRequest::InvalidSchema(SchemaError::Malformed)))
    ));
    let misnamed = br#"{"metadata":{"name":"widget.example.com"},"spec":{"group":"example.com","names":{"kind":"Widget","plural":"widgets"},"scope":"Cluster","versions":[{"name":"v1","served":true,"storage":true}]}}"#;
    assert!(matches!(
        create_crd(&mut storage, misnamed),
        Err(ApiError::BadRequest(BadRequest::NameMismatch))
    ));
    assert!(items(list_crds(NO_WATCH, &storage).unwrap()).items.is_empty());
}

#[test]
fn a_stored_document_that_does_not_decode_is_a_corrupted_state() {
    let mut storage = registered();
    let key = orchestrator::models::GroupResourceTypeResource::new(
        "example.com".to_string(),
        "widgets".to_string(),
        "broken".to_string(),
    )
    .unwrap();
    storage.create_cluster_resource(&key, b"not json").unwrap();
    let error = get_cluster_resource(&gvrtr("example.com", "v1", "widgets", "broken"), &storage)
        .err()
        .unwrap();
    assert!(matches!(error, ApiError::CorruptedState(StorageError::ModelError(_))));
    assert!(error.is_fatal());
    assert_eq!(error.status_code(), 500);
    assert!(matches!(
        list_cluster_resources(&gvrt("example.com", "v1", "widgets"), NO_WATCH, &storage),
        Err(ApiError::CorruptedState(_))
    ));
}

#[test]
fn a_failing_engine_is_a_server_error() {
    let error = ApiError::from_storage(StorageError::DatabaseError { source: "pool".to_string() });
    assert!(matches!(error, ApiError::StorageFailure(StorageError::DatabaseError { .. })));
    assert_eq!(error.status_code(), 500);
    assert!(!error.is_fatal());
    assert!(!ApiError::NotFound.is_fatal());
    assert_eq!(ApiError::BadRequest(BadRequest::NameMismatch).status_code(), 400);
}

#[test]
fn the_type_of_the_schema_definitions_takes_no_instances() {
    let mut storage = registered();
    let own = br#"{"metadata":{"name":"schemadefinitions.apiextensions"},"spec":{"group":"apiextensions","names":{"kind":"SchemaDefinition","plural":"schemadefinitions"},"scope":"Cluster","versions":[{"name":"v1","served":true,"storage":true}]}}"#;
    create_crd(&mut storage, own).unwrap();
    let definitions = gvrt("apiextensions", "v1", "schemadefinitions");
    assert!(get_crd_object(&definitions, &storage).is_ok());
    let body = br#"{"metadata":{"name":"widgets.example.com"}}"#;
    assert!(matches!(
        create_cluster_resource(&definitions, &mut storage, body),
        Err(ApiError::NotFound)
    ));
    assert!(matches!(
        create_namespaced_resource(&gvnrt("apiextensions", "v1", "default", "schemadefinitions"), &mut storage, body),
        Err(ApiError::NotFound)
    ));
    assert_eq!(get_crd("widgets.example.com".to_string(), &storage).unwrap().document, WIDGETS.to_vec());
    assert_eq!(items(list_crds(NO_WATCH, &storage).unwrap()).items.len(), 3);
}
