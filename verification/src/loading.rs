//! Typed reads: documents as the storage holds them, decoded into what their
//! reader expects. A stored document that does not decode is no answer but a
//! `ModelError`: what was written was checked, so the store is corrupted.

use crate::helper::{crd_group, crd_resource_type, get_crd_resource_type};
use crate::models::{Group, Namespace, Resource, ResourceType};
use crate::resource::{
    resource_of_json, resources_of_json, resources_view, BaseResource, BaseResourceView,
};
use crate::schema::{
    definitions_view, schema_of_json, schemas_of_json, SchemaDefinition, SchemaDefinitionView,
};
use crate::storage::{
    cluster_key, namespace_key, Storage, StorageError, StorageResult, Store,
};
use vstd::prelude::*;
use vstd::string::*;

verus! {

/// What reading one document comes to.
pub enum Loaded<T> {
    /// Nothing is stored under the key.
    Absent,
    Present(T),
    /// What is stored does not decode.
    Corrupted,
}

/// What reading a resource instance comes to, given what is stored.
pub open spec fn loaded_resource(stored: Option<Seq<u8>>) -> Loaded<BaseResourceView> {
    match stored {
        None => Loaded::Absent,
        Some(json) => match resource_of_json(json) {
            Some(resource) => Loaded::Present(resource),
            None => Loaded::Corrupted,
        },
    }
}

/// What reading a schema definition comes to, given what is stored.
pub open spec fn loaded_schema(stored: Option<Seq<u8>>) -> Loaded<SchemaDefinitionView> {
    match stored {
        None => Loaded::Absent,
        Some(json) => match schema_of_json(json) {
            Ok(schema) => Loaded::Present(schema),
            Err(_) => Loaded::Corrupted,
        },
    }
}

/// Whether `r` is an answer to a read that comes to `expected`. Only a failure
/// of the engine may stand in for the expected answer, and only where the
/// engine is not a reliable one.
pub open spec fn is_loaded<T: View>(
    r: StorageResult<T>,
    expected: Loaded<T::V>,
    reliable: bool,
) -> bool {
    match r {
        Ok(Some(value)) => expected == Loaded::Present(value@),
        Ok(None) => expected is Absent,
        Err(StorageError::ModelError(_)) => expected is Corrupted,
        Err(StorageError::DatabaseError { .. }) => !reliable,
    }
}

/// Whether `r` is an answer to a read of many documents that come to
/// `expected`; `None` there says that one of them does not decode.
pub open spec fn are_loaded<V>(
    r: Result<Seq<V>, StorageError>,
    expected: Option<Seq<V>>,
    reliable: bool,
) -> bool {
    match r {
        Ok(values) => expected == Some(values),
        Err(StorageError::ModelError(_)) => expected is None,
        Err(StorageError::DatabaseError { .. }) => !reliable,
    }
}

/// Decodes what a read of one resource instance fetched.
pub fn decode_fetched_resource(fetched: StorageResult<Vec<u8>>) -> (r: StorageResult<BaseResource>)
    ensures
        match fetched {
            Ok(found) => match loaded_resource(crate::storage::document_view(found)) {
                Loaded::Absent => r matches Ok(None),
                Loaded::Present(resource) => r matches Ok(Some(decoded)) && decoded@ == resource,
                Loaded::Corrupted => r matches Err(StorageError::ModelError(_)),
            },
            Err(e) => r == Err::<Option<BaseResource>, StorageError>(e),
        },
{
    match fetched {
        Err(e) => Err(e),
        Ok(None) => Ok(None),
        Ok(Some(json)) => match BaseResource::from_json(json.as_slice()) {
            Some(resource) => Ok(Some(resource)),
            None => Err(StorageError::ModelError(String::from_str("a stored resource does not decode"))),
        },
    }
}

/// Decodes what a read of one schema definition fetched.
pub fn decode_fetched_schema(fetched: StorageResult<Vec<u8>>) -> (r: StorageResult<
    SchemaDefinition,
>)
    ensures
        match fetched {
            Ok(found) => match loaded_schema(crate::storage::document_view(found)) {
                Loaded::Absent => r matches Ok(None),
                Loaded::Present(schema) => r matches Ok(Some(decoded)) && decoded@ == schema,
                Loaded::Corrupted => r matches Err(StorageError::ModelError(_)),
            },
            Err(e) => r == Err::<Option<SchemaDefinition>, StorageError>(e),
        },
{
    match fetched {
        Err(e) => Err(e),
        Ok(None) => Ok(None),
        Ok(Some(json)) => match SchemaDefinition::from_json(json.as_slice()) {
            Ok(schema) => Ok(Some(schema)),
            Err(_) => Err(
                StorageError::ModelError(
                    String::from_str("a stored schema definition does not decode"),
                ),
            ),
        },
    }
}

/// Decodes stored resource instances, in their order.
pub fn decode_resources(documents: &Vec<Vec<u8>>) -> (r: Result<Vec<BaseResource>, StorageError>)
    ensures
        match resources_of_json(crate::storage::documents_view(documents@)) {
            Some(resources) => r matches Ok(decoded) && resources_view(decoded@) == resources,
            None => r matches Err(StorageError::ModelError(_)),
        },
{
    let ghost stored = crate::storage::documents_view(documents@);
    let mut resources: Vec<BaseResource> = Vec::new();
    let mut i: usize = 0;
    while i < documents.len()
        invariant
            i <= documents@.len(),
            stored == crate::storage::documents_view(documents@),
            resources@.len() == i,
            forall|k: int|
                0 <= k < i ==> resource_of_json(stored[k]) == Some(#[trigger] resources@[k]@),
        decreases documents@.len() - i,
    {
        assert(stored[i as int] == documents@[i as int]@);
        match BaseResource::from_json(documents[i].as_slice()) {
            Some(resource) => resources.push(resource),
            None => {
                assert(resource_of_json(stored[i as int]) is None);
                return Err(
                    StorageError::ModelError(String::from_str("a stored resource does not decode")),
                );
            },
        }
        i = i + 1;
    }
    assert forall|k: int| 0 <= k < stored.len() implies resource_of_json(
        #[trigger] stored[k],
    ) is Some by {
        assert(resource_of_json(stored[k]) == Some(resources@[k]@));
    }
    assert(resources_view(resources@) =~= resources_of_json(stored).unwrap());
    Ok(resources)
}

/// Decodes stored schema definitions, in their order.
pub fn decode_schemas(documents: &Vec<Vec<u8>>) -> (r: Result<Vec<SchemaDefinition>, StorageError>)
    ensures
        match schemas_of_json(crate::storage::documents_view(documents@)) {
            Some(schemas) => r matches Ok(decoded) && definitions_view(decoded@) == schemas,
            None => r matches Err(StorageError::ModelError(_)),
        },
{
    let ghost stored = crate::storage::documents_view(documents@);
    let mut schemas: Vec<SchemaDefinition> = Vec::new();
    let mut i: usize = 0;
    while i < documents.len()
        invariant
            i <= documents@.len(),
            stored == crate::storage::documents_view(documents@),
            schemas@.len() == i,
            forall|k: int| 0 <= k < i ==> schema_of_json(stored[k]) == Ok::<
                SchemaDefinitionView,
                crate::schema::SchemaError,
            >(#[trigger] schemas@[k]@),
        decreases documents@.len() - i,
    {
        assert(stored[i as int] == documents@[i as int]@);
        match SchemaDefinition::from_json(documents[i].as_slice()) {
            Ok(schema) => schemas.push(schema),
            Err(_) => {
                assert(schema_of_json(stored[i as int]) is Err);
                return Err(
                    StorageError::ModelError(
                        String::from_str("a stored schema definition does not decode"),
                    ),
                );
            },
        }
        i = i + 1;
    }
    assert forall|k: int| 0 <= k < stored.len() implies schema_of_json(
        #[trigger] stored[k],
    ) is Ok by {
        assert(schema_of_json(stored[k]) == Ok::<SchemaDefinitionView, crate::schema::SchemaError>(
            schemas@[k]@,
        ));
    }
    assert(definitions_view(schemas@) =~= schemas_of_json(stored).unwrap());
    Ok(schemas)
}

/// The schema definitions that a store holds, as documents.
pub open spec fn schema_documents(store: Store) -> Seq<Seq<u8>> {
    store.list_cluster(crd_group(), crd_resource_type())
}

/// Reads one cluster-scoped resource instance.
pub fn load_cluster_resource<S: Storage, U: Group + ResourceType + Resource>(
    storage: &S,
    key: &U,
) -> (r: StorageResult<BaseResource>)
    ensures
        is_loaded(
            r,
            loaded_resource(storage.store().get_cluster(cluster_key(key))),
            storage.reliable(),
        ),
{
    decode_fetched_resource(storage.get_cluster_resource(key))
}

/// Reads one namespace-scoped resource instance.
pub fn load_namespace_resource<S: Storage, U: Group + Namespace + ResourceType + Resource>(
    storage: &S,
    key: &U,
) -> (r: StorageResult<BaseResource>)
    ensures
        is_loaded(
            r,
            loaded_resource(storage.store().get_namespaced(namespace_key(key))),
            storage.reliable(),
        ),
{
    decode_fetched_resource(storage.get_namespace_resource(key))
}

/// Reads one schema definition.
pub fn load_schema<S: Storage, U: Group + ResourceType + Resource>(storage: &S, key: &U) -> (r:
    StorageResult<SchemaDefinition>)
    ensures
        is_loaded(
            r,
            loaded_schema(storage.store().get_cluster(cluster_key(key))),
            storage.reliable(),
        ),
{
    decode_fetched_schema(storage.get_cluster_resource(key))
}

/// Reads the cluster-scoped instances of one resource type.
pub fn load_cluster_resources<S: Storage, U: Group + ResourceType>(storage: &S, key: &U) -> (r:
    Result<Vec<BaseResource>, StorageError>)
    ensures
        are_loaded(
            match r {
                Ok(resources) => Ok(resources_view(resources@)),
                Err(e) => Err(e),
            },
            resources_of_json(
                storage.store().list_cluster(key.group_view(), key.resource_type_view()),
            ),
            storage.reliable(),
        ),
{
    match storage.list_cluster_resources(key) {
        Ok(documents) => decode_resources(&documents),
        Err(e) => Err(e),
    }
}

/// Reads the instances of one resource type within one namespace.
pub fn load_namespace_resources<S: Storage, U: Group + Namespace + ResourceType>(
    storage: &S,
    key: &U,
) -> (r: Result<Vec<BaseResource>, StorageError>)
    ensures
        are_loaded(
            match r {
                Ok(resources) => Ok(resources_view(resources@)),
                Err(e) => Err(e),
            },
            resources_of_json(
                storage.store().list_namespaced(
                    key.group_view(),
                    key.namespace_view(),
                    key.resource_type_view(),
                ),
            ),
            storage.reliable(),
        ),
{
    match storage.list_namespace_resources(key) {
        Ok(Some(documents)) => decode_resources(&documents),
        Ok(None) => Ok(Vec::new()),
        Err(e) => Err(e),
    }
}

/// Reads all schema definitions, in the order of their registration.
pub fn load_schemas<S: Storage>(storage: &S) -> (r: Result<Vec<SchemaDefinition>, StorageError>)
    ensures
        are_loaded(
            match r {
                Ok(schemas) => Ok(definitions_view(schemas@)),
                Err(e) => Err(e),
            },
            schemas_of_json(schema_documents(storage.store())),
            storage.reliable(),
        ),
{
    match storage.list_cluster_resources(&get_crd_resource_type()) {
        Ok(documents) => decode_schemas(&documents),
        Err(e) => Err(e),
    }
}

} // verus!
