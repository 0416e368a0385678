use orchestrator::models::{
    GroupNamespaceResourceType, GroupNamespaceResourceTypeResource, GroupResourceType,
    GroupResourceTypeResource,
};
use orchestrator::storage::{Storage, StorageError};
use orchestrator::storage_memory::MemoryStorage;

fn cluster(group: &str, resource_type: &str, resource: &str) -> GroupResourceTypeResource {
    GroupResourceTypeResource::new(group.to_string(), resource_type.to_string(), resource.to_string())
        .unwrap()
}

fn namespaced(group: &str, namespace: &str, resource_type: &str, resource: &str) -> GroupNamespaceResourceTypeResource {
    GroupNamespaceResourceTypeResource::new(
        group.to_string(),
        namespace.to_string(),
        resource_type.to_string(),
        resource.to_string(),
    )
    .unwrap()
}

fn kind(group: &str, resource_type: &str) -> GroupResourceType {
    GroupResourceType::new(group.to_string(), resource_type.to_string()).unwrap()
}

fn kind_in(group: &str, namespace: &str, resource_type: &str) -> GroupNamespaceResourceType {
    GroupNamespaceResourceType::new(group.to_string(), namespace.to_string(), resource_type.to_string())
        .unwrap()
}

#[test]
fn an_empty_storage_finds_and_lists_nothing() {
    let storage = MemoryStorage::new();
    assert_eq!(storage.get_cluster_resource(&cluster("g", "t", "a")).unwrap(), None);
    assert_eq!(storage.list_cluster_resources(&kind("g", "t")).unwrap(), Vec::<Vec<u8>>::new());
    assert_eq!(storage.get_namespace_resource(&namespaced("g", "n", "t", "a")).unwrap(), None);
    assert_eq!(
        storage.list_namespace_resources(&kind_in("g", "n", "t")).unwrap(),
        Some(Vec::<Vec<u8>>::new())
    );
}

#[test]
fn what_is_written_is_read_back() {
    let mut storage = MemoryStorage::new();
    let key = cluster("example.com", "widgets", "foo");
    assert_eq!(storage.create_cluster_resource(&key, b"{\"a\":1}").unwrap(), Some(()));
    assert_eq!(storage.get_cluster_resource(&key).unwrap(), Some(b"{\"a\":1}".to_vec()));
    let key = namespaced("example.com", "default", "gadgets", "bar");
    assert_eq!(storage.create_namespace_resource(&key, b"\x00\xff\n").unwrap(), Some(()));
    assert_eq!(storage.get_namespace_resource(&key).unwrap(), Some(vec![0u8, 255, 10]));
}

#[test]
fn the_last_write_wins() {
    let mut storage = MemoryStorage::new();
    let key = cluster("example.com", "widgets", "foo");
    storage.create_cluster_resource(&key, b"first").unwrap();
    storage.create_cluster_resource(&key, b"second").unwrap();
    assert_eq!(storage.get_cluster_resource(&key).unwrap(), Some(b"second".to_vec()));
    assert_eq!(
        storage.list_cluster_resources(&kind("example.com", "widgets")).unwrap(),
        vec![b"second".to_vec()]
    );
}

#[test]
fn a_replaced_document_keeps_its_place_in_the_listing() {
    let mut storage = MemoryStorage::new();
    storage.create_cluster_resource(&cluster("g", "t", "a"), b"a1").unwrap();
    storage.create_cluster_resource(&cluster("g", "t", "b"), b"b1").unwrap();
    storage.create_cluster_resource(&cluster("g", "t", "c"), b"c1").unwrap();
    storage.create_cluster_resource(&cluster("g", "t", "a"), b"a2").unwrap();
    assert_eq!(
        storage.list_cluster_resources(&kind("g", "t")).unwrap(),
        vec![b"a2".to_vec(), b"b1".to_vec(), b"c1".to_vec()]
    );
}

#[test]
fn a_listing_holds_one_resource_type_only() {
    let mut storage = MemoryStorage::new();
    storage.create_cluster_resource(&cluster("g", "t", "a"), b"1").unwrap();
    storage.create_cluster_resource(&cluster("g", "u", "a"), b"2").unwrap();
    storage.create_cluster_resource(&cluster("h", "t", "a"), b"3").unwrap();
    storage.create_cluster_resource(&cluster("g", "t", "b"), b"4").unwrap();
    assert_eq!(
        storage.list_cluster_resources(&kind("g", "t")).unwrap(),
        vec![b"1".to_vec(), b"4".to_vec()]
    );
    assert_eq!(storage.list_cluster_resources(&kind("h", "t")).unwrap(), vec![b"3".to_vec()]);
    assert_eq!(storage.get_cluster_resource(&cluster("g", "u", "a")).unwrap(), Some(b"2".to_vec()));
    assert_eq!(storage.get_cluster_resource(&cluster("g", "u", "b")).unwrap(), None);
}

#[test]
fn namespaces_are_isolated() {
    let mut storage = MemoryStorage::new();
    storage.create_namespace_resource(&namespaced("g", "a", "t", "x"), b"in a").unwrap();
    assert_eq!(
        storage.list_namespace_resources(&kind_in("g", "b", "t")).unwrap(),
        Some(Vec::<Vec<u8>>::new())
    );
    assert_eq!(storage.get_namespace_resource(&namespaced("g", "b", "t", "x")).unwrap(), None);
    storage.create_namespace_resource(&namespaced("g", "b", "t", "x"), b"in b").unwrap();
    assert_eq!(
        storage.list_namespace_resources(&kind_in("g", "a", "t")).unwrap(),
        Some(vec![b"in a".to_vec()])
    );
    assert_eq!(
        storage.list_namespace_resources(&kind_in("g", "b", "t")).unwrap(),
        Some(vec![b"in b".to_vec()])
    );
}

#[test]
fn the_two_tables_are_apart() {
    let mut storage = MemoryStorage::new();
    storage.create_cluster_resource(&cluster("g", "t", "x"), b"cluster").unwrap();
    assert_eq!(storage.get_namespace_resource(&namespaced("g", "n", "t", "x")).unwrap(), None);
    storage.create_namespace_resource(&namespaced("g", "n", "t", "x"), b"namespaced").unwrap();
    assert_eq!(storage.get_cluster_resource(&cluster("g", "t", "x")).unwrap(), Some(b"cluster".to_vec()));
}

#[test]
fn errors_have_their_texts() {
    let database = StorageError::DatabaseError { source: "pool timed out".to_string() };
    assert_eq!(database.message(), "Error accessing the database");
    let model = StorageError::ModelError("no name".to_string());
    assert_eq!(model.message(), "Error validating data: no name");
    assert_eq!(StorageError::ModelError(String::new()).message(), "Error validating data: ");
}
