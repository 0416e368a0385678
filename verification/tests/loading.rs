use orchestrator::helper::get_crd_for_resource;
use orchestrator::loading::{
    decode_fetched_resource, decode_fetched_schema, decode_resources, decode_schemas,
    load_cluster_resource, load_cluster_resources, load_schema, load_schemas,
};
use orchestrator::models::{GroupResourceType, GroupResourceTypeResource};
use orchestrator::resource::Metadata;
use orchestrator::storage::{Storage, StorageError};
use orchestrator::storage_memory::MemoryStorage;

const WIDGETS: &[u8] = br#"{"metadata":{"name":"widgets.example.com"},"spec":{"group":"example.com","names":{"kind":"Widget","plural":"widgets"},"scope":"Cluster","versions":[{"name":"v1","served":true,"storage":true}]}}"#;

#[test]
fn a_fetched_document_is_decoded() {
    let resource = decode_fetched_resource(Ok(Some(br#"{"metadata":{"name":"foo"}}"#.to_vec())))
        .unwrap()
        .unwrap();
    assert_eq!(resource.metadata().name.as_deref(), Some("foo"));
    assert!(decode_fetched_resource(Ok(None)).unwrap().is_none());
    let schema = decode_fetched_schema(Ok(Some(WIDGETS.to_vec()))).unwrap().unwrap();
    assert_eq!(schema.kind(), "Widget");
    assert!(decode_fetched_schema(Ok(None)).unwrap().is_none());
}

#[test]
fn a_fetched_document_that_does_not_decode_is_a_model_error() {
    assert!(matches!(
        decode_fetched_resource(Ok(Some(b"[]".to_vec()))),
        Err(StorageError::ModelError(_))
    ));
    assert!(matches!(
        decode_fetched_schema(Ok(Some(br#"{"metadata":{"name":"foo"}}"#.to_vec()))),
        Err(StorageError::ModelError(_))
    ));
}

#[test]
fn a_failed_fetch_stays_a_failure() {
    let failure = || StorageError::DatabaseError { source: "pool".to_string() };
    match decode_fetched_resource(Err(failure())) {
        Err(StorageError::DatabaseError { source }) => assert_eq!(source, "pool"),
        _ => panic!("the fetch had failed"),
    }
    assert!(matches!(decode_fetched_schema(Err(failure())), Err(StorageError::DatabaseError { .. })));
}

#[test]
fn documents_are_decoded_in_their_order() {
    let documents = vec![
        br#"{"metadata":{"name":"b"}}"#.to_vec(),
        br#"{"metadata":{"name":"a"}}"#.to_vec(),
    ];
    let resources = decode_resources(&documents).unwrap();
    let names: Vec<Option<&str>> = resources.iter().map(|r| r.metadata.name.as_deref()).collect();
    assert_eq!(names, vec![Some("b"), Some("a")]);
    assert!(decode_resources(&Vec::new()).unwrap().is_empty());
    assert!(decode_schemas(&Vec::new()).unwrap().is_empty());
    assert_eq!(decode_schemas(&vec![WIDGETS.to_vec()]).unwrap().len(), 1);
}

#[test]
fn one_document_that_does_not_decode_fails_them_all() {
    let documents = vec![br#"{"metadata":{"name":"b"}}"#.to_vec(), b"oops".to_vec()];
    assert!(matches!(decode_resources(&documents), Err(StorageError::ModelError(_))));
    let documents = vec![WIDGETS.to_vec(), br#"{"metadata":{"name":"b"}}"#.to_vec()];
    assert!(matches!(decode_schemas(&documents), Err(StorageError::ModelError(_))));
}

#[test]
fn typed_reads_decode_what_is_stored() {
    let mut storage = MemoryStorage::new();
    let key = GroupResourceTypeResource::new(
        "example.com".to_string(),
        "widgets".to_string(),
        "foo".to_string(),
    )
    .unwrap();
    assert!(load_cluster_resource(&storage, &key).unwrap().is_none());
    storage.create_cluster_resource(&key, br#"{"metadata":{"name":"foo"}}"#).unwrap();
    let found = load_cluster_resource(&storage, &key).unwrap().unwrap();
    assert_eq!(found.metadata.name.as_deref(), Some("foo"));
    let kind = GroupResourceType::new("example.com".to_string(), "widgets".to_string()).unwrap();
    assert_eq!(load_cluster_resources(&storage, &kind).unwrap().len(), 1);

    let crd = get_crd_for_resource("widgets.example.com".to_string());
    assert!(load_schema(&storage, &crd).unwrap().is_none());
    assert!(load_schemas(&storage).unwrap().is_empty());
    storage.create_cluster_resource(&crd, WIDGETS).unwrap();
    assert_eq!(load_schema(&storage, &crd).unwrap().unwrap().plural_name(), "widgets");
    assert_eq!(load_schemas(&storage).unwrap().len(), 1);
}

#[test]
fn metadata_is_changed_in_place() {
    let mut resource = decode_fetched_resource(Ok(Some(br#"{"metadata":{"name":"foo"}}"#.to_vec())))
        .unwrap()
        .unwrap();
    resource.metadata_mut().name = Some("bar".to_string());
    assert_eq!(resource.metadata().name.as_deref(), Some("bar"));
    assert_eq!(resource.document, br#"{"metadata":{"name":"foo"}}"#.to_vec());
}
