//! The requests on schema definitions and on resource instances: what each
//! answers, given what is stored.
//!
//! Every request on instances first resolves the schema definition of its
//! resource type. Where that fails the request is refused, and the instances
//! are neither read nor written.

use crate::helper::{
    crd_group, crd_kind, crd_resource_type, crd_version, get_crd_for_resource,
    get_crd_resource_type, CRD_GROUP, CRD_KIND, CRD_RESOURCE_TYPE, CRD_VERSION,
};
use crate::loading::{
    load_cluster_resource, load_cluster_resources, load_namespace_resource,
    load_namespace_resources, load_schema, loaded_resource, loaded_schema, Loaded,
};
use crate::models::{
    group_version_text, join_group_version, Group, GroupResourceType, GroupVersionNamespaceResourceType,
    GroupVersionNamespaceResourceTypeResource, GroupVersionResourceType,
    GroupVersionResourceTypeResource, Namespace, Resource, ResourceType, Version,
};
use crate::resource::{
    resource_of_json, resources_of_json, storable_name, BaseResource, BaseResourceView, List,
    ListMeta, ListMetaView, ListOptions, ListView,
};
use crate::schema::{schema_of_json, SchemaDefinition, SchemaDefinitionView, SchemaError};
use crate::storage::{ClusterKey, NamespaceKey, Storage, StorageError, Store};
use crate::text::{contains_text, join, joined, same_text};
use crate::watch::{WatchEvent, WatchEventView, WrappedWatchEvent, WrappedWatchEventView};
use vstd::prelude::*;
use vstd::string::*;

verus! {

/// Why a request cannot be understood.
#[derive(Debug, Clone, Copy, PartialEq, Eq, Structural)]
pub enum BadRequest {
    /// The body is no JSON document of a resource.
    MalformedBody,
    /// The metadata of the body has no name, or an empty one.
    MissingName,
    /// The schema definition of the resource type does not serve the version.
    VersionNotServed,
    /// The body is no schema definition that can be accepted.
    InvalidSchema(SchemaError),
    /// The name of a schema definition is not its plural name, a dot and its
    /// group.
    NameMismatch,
}

/// Why a request was not answered.
#[derive(Debug)]
pub enum ApiError {
    /// The resource type is not registered, or the instance does not exist.
    NotFound,
    BadRequest(BadRequest),
    /// The storage engine failed.
    StorageFailure(StorageError),
    /// A stored document does not decode. No request can mend that.
    CorruptedState(StorageError),
}

impl ApiError {
    /// The status that HTTP answers with.
    pub open spec fn status(&self) -> u16 {
        match self {
            ApiError::NotFound => 404,
            ApiError::BadRequest(_) => 400,
            ApiError::StorageFailure(_) => 500,
            ApiError::CorruptedState(_) => 500,
        }
    }

    /// The status that HTTP answers with: 404 for what is not found, 400 for a
    /// bad request, 500 for what went wrong in the server.
    pub fn status_code(&self) -> (r: u16)
        ensures
            r == self.status(),
    {
        match self {
            ApiError::NotFound => 404,
            ApiError::BadRequest(_) => 400,
            ApiError::StorageFailure(_) => 500,
            ApiError::CorruptedState(_) => 500,
        }
    }

    /// Whether the error tells of a corrupted store rather than of one request.
    pub fn is_fatal(&self) -> (r: bool)
        ensures
            r == (self is CorruptedState),
    {
        match self {
            ApiError::CorruptedState(_) => true,
            _ => false,
        }
    }

    /// The error that a failed read or write comes to: a document that does
    /// not decode tells of a corrupted store, all else of a failing engine.
    pub fn from_storage(error: StorageError) -> (r: ApiError)
        ensures
            match error {
                StorageError::ModelError(_) => r == ApiError::CorruptedState(error),
                StorageError::DatabaseError { .. } => r == ApiError::StorageFailure(error),
            },
    {
        match error {
            StorageError::ModelError(detail) => ApiError::CorruptedState(
                StorageError::ModelError(detail),
            ),
            StorageError::DatabaseError { source } => ApiError::StorageFailure(
                StorageError::DatabaseError { source },
            ),
        }
    }
}

/// Why a request is refused, given what is stored.
pub enum Refusal {
    NotFound,
    BadRequest(BadRequest),
    CorruptedState,
}

/// The refusal that an error tells of. A failure of the engine tells of none:
/// it may befall any request.
pub open spec fn refusal_of(error: ApiError) -> Option<Refusal> {
    match error {
        ApiError::NotFound => Some(Refusal::NotFound),
        ApiError::BadRequest(reason) => Some(Refusal::BadRequest(reason)),
        ApiError::CorruptedState(_) => Some(Refusal::CorruptedState),
        ApiError::StorageFailure(_) => None,
    }
}

/// Whether `r` answers a request whose answer should be `expected`: it is that
/// answer, or that refusal, or the engine failed, which a reliable engine does
/// not.
pub open spec fn answers<T: View>(
    r: Result<T, ApiError>,
    expected: Result<T::V, Refusal>,
    reliable: bool,
) -> bool {
    match r {
        Ok(value) => expected == Ok::<T::V, Refusal>(value@),
        Err(error) => match refusal_of(error) {
            Some(refusal) => expected == Err::<T::V, Refusal>(refusal),
            None => !reliable,
        },
    }
}

/// The key under which the schema definition of a resource type is stored.
pub open spec fn schema_key(group: Seq<char>, resource_type: Seq<char>) -> ClusterKey {
    ClusterKey {
        group: crd_group(),
        resource_type: crd_resource_type(),
        resource: joined(resource_type, "."@, group),
    }
}

/// What resolving a resource type in a version comes to: its schema
/// definition, where one is stored that serves the version.
pub open spec fn resolution(
    store: Store,
    group: Seq<char>,
    resource_type: Seq<char>,
    version: Seq<char>,
) -> Result<SchemaDefinitionView, Refusal> {
    match loaded_schema(store.get_cluster(schema_key(group, resource_type))) {
        Loaded::Absent => Err(Refusal::NotFound),
        Loaded::Corrupted => Err(Refusal::CorruptedState),
        Loaded::Present(schema) => if schema.serves(version) {
            Ok(schema)
        } else {
            Err(Refusal::BadRequest(BadRequest::VersionNotServed))
        },
    }
}

/// Whether a schema definition that was found serves the version asked for.
pub fn check_version(schema: SchemaDefinition, version: &str) -> (r: Result<
    SchemaDefinition,
    ApiError,
>)
    ensures
        if schema@.serves(version@) {
            r matches Ok(served) && served == schema
        } else {
            r matches Err(ApiError::BadRequest(BadRequest::VersionNotServed))
        },
{
    if contains_text(schema.versions(), version) {
        Ok(schema)
    } else {
        Err(ApiError::BadRequest(BadRequest::VersionNotServed))
    }
}

/// Resolves the schema definition of the resource type that a request names,
/// in the version that it names.
pub fn get_crd_object<T: Group + ResourceType + Version, S: Storage>(crd: &T, storage: &S) -> (r:
    Result<SchemaDefinition, ApiError>)
    ensures
        answers(
            r,
            resolution(
                storage.store(),
                crd.group_view(),
                crd.resource_type_view(),
                crd.version_view(),
            ),
            storage.reliable(),
        ),
{
    let resource_name = join(crd.resource_type(), ".", crd.group());
    let key = get_crd_for_resource(resource_name);
    match load_schema(storage, &key) {
        Err(error) => Err(ApiError::from_storage(error)),
        Ok(None) => Err(ApiError::NotFound),
        Ok(Some(schema)) => check_version(schema, crd.version()),
    }
}

/// What a request for a listing is answered with.
#[derive(Debug)]
pub enum Listing {
    /// A change feed was asked for: a watcher of this resource type is to be
    /// registered with the broker, and its stream is the answer.
    Watch(GroupResourceType),
    /// The instances, in their envelope.
    Items(List<BaseResource>),
}

/// The answer to a request for a listing as plain values.
pub enum ListingView {
    Watch { group: Seq<char>, resource_type: Seq<char> },
    Items(ListView<BaseResourceView>),
}

impl View for Listing {
    type V = ListingView;

    open spec fn view(&self) -> ListingView {
        match self {
            Listing::Watch(grt) => ListingView::Watch {
                group: grt.group_view(),
                resource_type: grt.resource_type_view(),
            },
            Listing::Items(list) => ListingView::Items(list@),
        }
    }
}

/// What reading one instance comes to, as an answer.
pub open spec fn found(loaded: Loaded<BaseResourceView>) -> Result<BaseResourceView, Refusal> {
    match loaded {
        Loaded::Absent => Err(Refusal::NotFound),
        Loaded::Present(resource) => Ok(resource),
        Loaded::Corrupted => Err(Refusal::CorruptedState),
    }
}

/// The envelope of the instances that documents stand for. Its metadata says
/// nothing.
pub open spec fn listed(
    documents: Seq<Seq<u8>>,
    api_version: Seq<char>,
    kind: Seq<char>,
) -> Result<ListingView, Refusal> {
    match resources_of_json(documents) {
        Some(items) => Ok(
            ListingView::Items(
                ListView { api_version, items, kind, metadata: ListMetaView::empty() },
            ),
        ),
        None => Err(Refusal::CorruptedState),
    }
}

/// The instance that a body describes and the name under which it is stored,
/// where the body decodes and names the instance.
pub open spec fn admission(body: Seq<u8>) -> Result<(Seq<char>, BaseResourceView), Refusal> {
    match resource_of_json(body) {
        None => Err(Refusal::BadRequest(BadRequest::MalformedBody)),
        Some(resource) => match storable_name(resource.metadata) {
            None => Err(Refusal::BadRequest(BadRequest::MissingName)),
            Some(name) => Ok((name, resource)),
        },
    }
}

/// The event that tells of a new instance.
pub open spec fn added(
    resource: BaseResourceView,
    group: Seq<char>,
    resource_type: Seq<char>,
) -> WrappedWatchEventView {
    WrappedWatchEventView { event: WatchEventView::ADDED(resource), group, resource_type }
}

/// Admits what a body was decoded to: it must have decoded, and name the
/// instance.
pub fn admit_resource(decoded: Option<BaseResource>) -> (r: Result<(String, BaseResource), ApiError>)
    ensures
        match decoded {
            None => r matches Err(ApiError::BadRequest(BadRequest::MalformedBody)),
            Some(resource) => match storable_name(resource@.metadata) {
                None => r matches Err(ApiError::BadRequest(BadRequest::MissingName)),
                Some(name) => r matches Ok(admitted) && admitted.0@ == name && admitted.1
                    == resource,
            },
        },
{
    match decoded {
        None => Err(ApiError::BadRequest(BadRequest::MalformedBody)),
        Some(resource) => {
            let name = match resource.metadata.storable_name() {
                Some(name) => String::from_str(name),
                None => { return Err(ApiError::BadRequest(BadRequest::MissingName)); },
            };
            Ok((name, resource))
        },
    }
}

/// The envelope of a listing.
fn envelope(api_version: String, kind: &str, items: Vec<BaseResource>) -> (r: Listing)
    ensures
        r@ == ListingView::Items(
            ListView {
                api_version: api_version@,
                items: crate::resource::resources_view(items@),
                kind: kind@,
                metadata: ListMetaView::empty(),
            },
        ),
{
    let list = List { api_version, items, kind: String::from_str(kind), metadata: ListMeta::default() };
    assert(list@.items =~= crate::resource::resources_view(items@));
    Listing::Items(list)
}

/// What a request for one cluster-scoped instance should be answered with.
pub open spec fn cluster_instance(
    store: Store,
    group: Seq<char>,
    version: Seq<char>,
    resource_type: Seq<char>,
    resource: Seq<char>,
) -> Result<BaseResourceView, Refusal> {
    match resolution(store, group, resource_type, version) {
        Err(refusal) => Err(refusal),
        Ok(_) => found(loaded_resource(store.get_cluster(ClusterKey { group, resource_type, resource }))),
    }
}

/// Answers a request for one cluster-scoped instance.
pub fn get_cluster_resource<S: Storage>(
    resource: &GroupVersionResourceTypeResource,
    storage: &S,
) -> (r: Result<BaseResource, ApiError>)
    ensures
        answers(
            r,
            cluster_instance(
                storage.store(),
                resource.group_view(),
                resource.version_view(),
                resource.resource_type_view(),
                resource.resource_view(),
            ),
            storage.reliable(),
        ),
{
    match get_crd_object(resource, storage) {
        Err(error) => { return Err(error); },
        Ok(_) => {},
    }
    match load_cluster_resource(storage, resource) {
        Err(error) => Err(ApiError::from_storage(error)),
        Ok(None) => Err(ApiError::NotFound),
        Ok(Some(instance)) => Ok(instance),
    }
}

/// What a request for the cluster-scoped instances of a resource type should
/// be answered with: a change feed where one is asked for, else the instances
/// under the group and version asked for and the kind of the schema
/// definition.
pub open spec fn cluster_listing(
    store: Store,
    group: Seq<char>,
    version: Seq<char>,
    resource_type: Seq<char>,
    watch: bool,
) -> Result<ListingView, Refusal> {
    match resolution(store, group, resource_type, version) {
        Err(refusal) => Err(refusal),
        Ok(schema) => if watch {
            Ok(ListingView::Watch { group, resource_type })
        } else {
            listed(
                store.list_cluster(group, resource_type),
                group_version_text(group, version),
                schema.kind,
            )
        },
    }
}

/// Answers a request for the cluster-scoped instances of a resource type.
pub fn list_cluster_resources<S: Storage>(
    gvrt: &GroupVersionResourceType,
    options: ListOptions,
    storage: &S,
) -> (r: Result<Listing, ApiError>)
    ensures
        answers(
            r,
            cluster_listing(
                storage.store(),
                gvrt.group_view(),
                gvrt.version_view(),
                gvrt.resource_type_view(),
                options.watch == Some(true),
            ),
            storage.reliable(),
        ),
{
    let crd = match get_crd_object(gvrt, storage) {
        Err(error) => { return Err(error); },
        Ok(crd) => crd,
    };
    if options.wants_watch() {
        Ok(Listing::Watch(gvrt.group_resource_type()))
    } else {
        match load_cluster_resources(storage, gvrt) {
            Err(error) => Err(ApiError::from_storage(error)),
            Ok(items) => Ok(envelope(gvrt.group_version(), crd.kind(), items)),
        }
    }
}

/// Whether a resource type is that of the schema definitions themselves.
pub open spec fn is_definitions_type(group: Seq<char>, resource_type: Seq<char>) -> bool {
    group == crd_group() && resource_type == crd_resource_type()
}

/// What a request to create an instance should do: the name to store the body
/// under and the instance to tell the watchers of. The resource type of the
/// schema definitions is not served here, whatever is stored: a definition is
/// registered by `create_crd`, which checks it.
pub open spec fn cluster_creation(
    store: Store,
    group: Seq<char>,
    version: Seq<char>,
    resource_type: Seq<char>,
    body: Seq<u8>,
) -> Result<(Seq<char>, BaseResourceView), Refusal> {
    if is_definitions_type(group, resource_type) {
        Err(Refusal::NotFound)
    } else {
        match resolution(store, group, resource_type, version) {
            Err(refusal) => Err(refusal),
            Ok(_) => admission(body),
        }
    }
}

/// Whether a resource type is that of the schema definitions themselves.
fn names_definitions<T: Group + ResourceType>(coordinate: &T) -> (r: bool)
    ensures
        r == is_definitions_type(coordinate.group_view(), coordinate.resource_type_view()),
{
    same_text(coordinate.group(), CRD_GROUP) && same_text(
        coordinate.resource_type(),
        CRD_RESOURCE_TYPE,
    )
}

/// Creates a cluster-scoped instance, or replaces the one of that name: the
/// body is stored as it is, and the event for the watchers of the resource
/// type is returned. A request that is refused, or that the engine fails,
/// leaves the store as it was. A request that names the resource type of the
/// schema definitions is refused as not found.
pub fn create_cluster_resource<S: Storage>(
    gvrt: &GroupVersionResourceType,
    storage: &mut S,
    body: &[u8],
) -> (r: Result<WrappedWatchEvent, ApiError>)
    ensures
        match cluster_creation(
            old(storage).store(),
            gvrt.group_view(),
            gvrt.version_view(),
            gvrt.resource_type_view(),
            body@,
        ) {
            Err(refusal) => r matches Err(error) && (if error is StorageFailure {
                !old(storage).reliable()
            } else {
                refusal_of(error) == Some(refusal)
            }) && final(storage).store() == old(storage).store(),
            Ok((name, resource)) => match r {
                Ok(event) => event@ == added(
                    resource,
                    gvrt.group_view(),
                    gvrt.resource_type_view(),
                ) && final(storage).store() == old(storage).store().put_cluster(
                    ClusterKey {
                        group: gvrt.group_view(),
                        resource_type: gvrt.resource_type_view(),
                        resource: name,
                    },
                    body@,
                ),
                Err(error) => error is StorageFailure && !old(storage).reliable()
                    && final(storage).store() == old(storage).store(),
            },
        },
        final(storage).reliable() == old(storage).reliable(),
{
    if names_definitions(gvrt) {
        return Err(ApiError::NotFound);
    }
    match get_crd_object(gvrt, &*storage) {
        Err(error) => { return Err(error); },
        Ok(_) => {},
    }
    let (name, resource) = match admit_resource(BaseResource::from_json(body)) {
        Err(error) => { return Err(error); },
        Ok(admitted) => admitted,
    };
    let key = gvrt.instance(name.as_str());
    match storage.create_cluster_resource(&key, body) {
        Err(error) => Err(ApiError::from_storage(error)),
        Ok(_) => Ok(
            WrappedWatchEvent::new(WatchEvent::ADDED(resource), gvrt.group_resource_type()),
        ),
    }
}

/// What a request for one namespace-scoped instance should be answered with.
pub open spec fn namespaced_instance(
    store: Store,
    group: Seq<char>,
    version: Seq<char>,
    namespace: Seq<char>,
    resource_type: Seq<char>,
    resource: Seq<char>,
) -> Result<BaseResourceView, Refusal> {
    match resolution(store, group, resource_type, version) {
        Err(refusal) => Err(refusal),
        Ok(_) => found(
            loaded_resource(
                store.get_namespaced(NamespaceKey { group, namespace, resource_type, resource }),
            ),
        ),
    }
}

/// Answers a request for one namespace-scoped instance.
pub fn get_namespaced_resource<S: Storage>(
    resource: &GroupVersionNamespaceResourceTypeResource,
    storage: &S,
) -> (r: Result<BaseResource, ApiError>)
    ensures
        answers(
            r,
            namespaced_instance(
                storage.store(),
                resource.group_view(),
                resource.version_view(),
                resource.namespace_view(),
                resource.resource_type_view(),
                resource.resource_view(),
            ),
            storage.reliable(),
        ),
{
    match get_crd_object(resource, storage) {
        Err(error) => { return Err(error); },
        Ok(_) => {},
    }
    match load_namespace_resource(storage, resource) {
        Err(error) => Err(ApiError::from_storage(error)),
        Ok(None) => Err(ApiError::NotFound),
        Ok(Some(instance)) => Ok(instance),
    }
}

/// What a request for the instances of a resource type within a namespace
/// should be answered with.
pub open spec fn namespaced_listing(
    store: Store,
    group: Seq<char>,
    version: Seq<char>,
    namespace: Seq<char>,
    resource_type: Seq<char>,
) -> Result<ListingView, Refusal> {
    match resolution(store, group, resource_type, version) {
        Err(refusal) => Err(refusal),
        Ok(schema) => listed(
            store.list_namespaced(group, namespace, resource_type),
            group_version_text(group, version),
            schema.kind,
        ),
    }
}

/// Answers a request for the instances of a resource type within a namespace.
/// The answer is always a list of instances.
pub fn list_namespaced_resources<S: Storage>(
    gvnrt: &GroupVersionNamespaceResourceType,
    storage: &S,
) -> (r: Result<Listing, ApiError>)
    ensures
        answers(
            r,
            namespaced_listing(
                storage.store(),
                gvnrt.group_view(),
                gvnrt.version_view(),
                gvnrt.namespace_view(),
                gvnrt.resource_type_view(),
            ),
            storage.reliable(),
        ),
{
    let crd = match get_crd_object(gvnrt, storage) {
        Err(error) => { return Err(error); },
        Ok(crd) => crd,
    };
    match load_namespace_resources(storage, gvnrt) {
        Err(error) => Err(ApiError::from_storage(error)),
        Ok(items) => Ok(envelope(gvnrt.group_version(), crd.kind(), items)),
    }
}

/// Creates an instance within a namespace, or replaces the one of that name
/// there: the body is stored as it is, and the event for the watchers of the
/// resource type is returned. A request that is refused, or that the engine
/// fails, leaves the store as it was. A request that names the resource type
/// of the schema definitions is refused as not found.
pub fn create_namespaced_resource<S: Storage>(
    gvnrt: &GroupVersionNamespaceResourceType,
    storage: &mut S,
    body: &[u8],
) -> (r: Result<WrappedWatchEvent, ApiError>)
    ensures
        match cluster_creation(
            old(storage).store(),
            gvnrt.group_view(),
            gvnrt.version_view(),
            gvnrt.resource_type_view(),
            body@,
        ) {
            Err(refusal) => r matches Err(error) && (if error is StorageFailure {
                !old(storage).reliable()
            } else {
                refusal_of(error) == Some(refusal)
            }) && final(storage).store() == old(storage).store(),
            Ok((name, resource)) => match r {
                Ok(event) => event@ == added(
                    resource,
                    gvnrt.group_view(),
                    gvnrt.resource_type_view(),
                ) && final(storage).store() == old(storage).store().put_namespaced(
                    NamespaceKey {
                        group: gvnrt.group_view(),
                        namespace: gvnrt.namespace_view(),
                        resource_type: gvnrt.resource_type_view(),
                        resource: name,
                    },
                    body@,
                ),
                Err(error) => error is StorageFailure && !old(storage).reliable()
                    && final(storage).store() == old(storage).store(),
            },
        },
        final(storage).reliable() == old(storage).reliable(),
{
    if names_definitions(gvnrt) {
        return Err(ApiError::NotFound);
    }
    match get_crd_object(gvnrt, &*storage) {
        Err(error) => { return Err(error); },
        Ok(_) => {},
    }
    let (name, resource) = match admit_resource(BaseResource::from_json(body)) {
        Err(error) => { return Err(error); },
        Ok(admitted) => admitted,
    };
    let key = gvnrt.instance(name.as_str());
    match storage.create_namespace_resource(&key, body) {
        Err(error) => Err(ApiError::from_storage(error)),
        Ok(_) => Ok(
            WrappedWatchEvent::new(WatchEvent::ADDED(resource), gvnrt.group_resource_type()),
        ),
    }
}

/// The key under which the schema definition of the name `resource` is stored.
pub open spec fn definition_key(resource: Seq<char>) -> ClusterKey {
    ClusterKey { group: crd_group(), resource_type: crd_resource_type(), resource }
}

/// Answers a request for the schema definition that is stored under a name.
pub fn get_crd<S: Storage>(resource: String, storage: &S) -> (r: Result<BaseResource, ApiError>)
    ensures
        answers(
            r,
            found(loaded_resource(storage.store().get_cluster(definition_key(resource@)))),
            storage.reliable(),
        ),
{
    let crd = get_crd_for_resource(resource);
    match load_cluster_resource(storage, &crd) {
        Err(error) => Err(ApiError::from_storage(error)),
        Ok(None) => Err(ApiError::NotFound),
        Ok(Some(definition)) => Ok(definition),
    }
}

/// What a request for the schema definitions should be answered with.
pub open spec fn definitions_listing(store: Store, watch: bool) -> Result<ListingView, Refusal> {
    if watch {
        Ok(ListingView::Watch { group: crd_group(), resource_type: crd_resource_type() })
    } else {
        listed(
            store.list_cluster(crd_group(), crd_resource_type()),
            group_version_text(crd_group(), crd_version()),
            crd_kind(),
        )
    }
}

/// Answers a request for the schema definitions: a change feed where one is
/// asked for, else the definitions in the order of their registration, under
/// their own group and version and the kind of their documents.
pub fn list_crds<S: Storage>(options: ListOptions, storage: &S) -> (r: Result<Listing, ApiError>)
    ensures
        answers(
            r,
            definitions_listing(storage.store(), options.watch == Some(true)),
            storage.reliable(),
        ),
{
    let definitions = get_crd_resource_type();
    if options.wants_watch() {
        Ok(Listing::Watch(definitions))
    } else {
        match load_cluster_resources(storage, &definitions) {
            Err(error) => Err(ApiError::from_storage(error)),
            Ok(items) => Ok(
                envelope(join_group_version(CRD_GROUP, CRD_VERSION), CRD_KIND, items),
            ),
        }
    }
}

/// What a request to register a schema definition should do: the name to
/// store the body under and the instance to tell the watchers of. The body
/// must name itself, be an acceptable schema definition, and be named by its
/// plural name, a dot and its group.
pub open spec fn registration(body: Seq<u8>) -> Result<(Seq<char>, BaseResourceView), Refusal> {
    match admission(body) {
        Err(refusal) => Err(refusal),
        Ok((name, resource)) => match schema_of_json(body) {
            Err(e) => Err(Refusal::BadRequest(BadRequest::InvalidSchema(e))),
            Ok(schema) => if name == schema.storage_name() {
                Ok((name, resource))
            } else {
                Err(Refusal::BadRequest(BadRequest::NameMismatch))
            },
        },
    }
}

/// Registers a schema definition, or replaces the one of that name: the body
/// is stored as it is, and the event for the watchers of the schema
/// definitions is returned. A request that is refused, or that the engine
/// fails, leaves the store as it was.
pub fn create_crd<S: Storage>(storage: &mut S, body: &[u8]) -> (r: Result<
    WrappedWatchEvent,
    ApiError,
>)
    ensures
        match registration(body@) {
            Err(refusal) => r matches Err(error) && refusal_of(error) == Some(refusal)
                && final(storage).store() == old(storage).store(),
            Ok((name, resource)) => match r {
                Ok(event) => event@ == added(resource, crd_group(), crd_resource_type())
                    && final(storage).store() == old(storage).store().put_cluster(
                    definition_key(name),
                    body@,
                ),
                Err(error) => error is StorageFailure && !old(storage).reliable()
                    && final(storage).store() == old(storage).store(),
            },
        },
        final(storage).reliable() == old(storage).reliable(),
{
    let (name, resource) = match admit_resource(BaseResource::from_json(body)) {
        Err(error) => { return Err(error); },
        Ok(admitted) => admitted,
    };
    let schema = match SchemaDefinition::from_json(body) {
        Err(e) => { return Err(ApiError::BadRequest(BadRequest::InvalidSchema(e))); },
        Ok(schema) => schema,
    };
    let storage_name = join(schema.plural_name(), ".", schema.group());
    if !same_text(name.as_str(), storage_name.as_str()) {
        return Err(ApiError::BadRequest(BadRequest::NameMismatch));
    }
    let crd = get_crd_for_resource(name);
    match storage.create_cluster_resource(&crd, body) {
        Err(error) => Err(ApiError::from_storage(error)),
        Ok(_) => Ok(WrappedWatchEvent::new(WatchEvent::ADDED(resource), get_crd_resource_type())),
    }
}

/// Resolution comes first. As long as no schema definition is stored for a
/// resource type, every request on its instances is refused as not found,
/// whatever else is stored and whatever the request holds: no listing is
/// answered, and nothing is created.
pub proof fn lemma_unregistered_is_not_found(
    store: Store,
    group: Seq<char>,
    version: Seq<char>,
    namespace: Seq<char>,
    resource_type: Seq<char>,
    resource: Seq<char>,
    watch: bool,
    body: Seq<u8>,
)
    requires
        store.get_cluster(schema_key(group, resource_type)) is None,
    ensures
        resolution(store, group, resource_type, version) matches Err(Refusal::NotFound),
        cluster_instance(store, group, version, resource_type, resource) matches Err(
            Refusal::NotFound,
        ),
        cluster_listing(store, group, version, resource_type, watch) matches Err(
            Refusal::NotFound,
        ),
        cluster_creation(store, group, version, resource_type, body) matches Err(
            Refusal::NotFound,
        ),
        namespaced_instance(store, group, version, namespace, resource_type, resource) matches Err(
            Refusal::NotFound,
        ),
        namespaced_listing(store, group, version, namespace, resource_type) matches Err(
            Refusal::NotFound,
        ),
{
}

/// A schema definition that was registered resolves: after the registration
/// of an accepted body, a request that names the definition's plural name and
/// group, in a version that the definition serves, finds the definition.
pub proof fn lemma_registered_resolves(
    store: Store,
    body: Seq<u8>,
    name: Seq<char>,
    resource: BaseResourceView,
    schema: SchemaDefinitionView,
    version: Seq<char>,
)
    requires
        registration(body) == Ok::<(Seq<char>, BaseResourceView), Refusal>((name, resource)),
        schema_of_json(body) == Ok::<SchemaDefinitionView, SchemaError>(schema),
        schema.serves(version),
    ensures
        resolution(
            store.put_cluster(definition_key(name), body),
            schema.group,
            schema.plural_name,
            version,
        ) == Ok::<SchemaDefinitionView, Refusal>(schema),
{
    crate::storage::lemma_table_put_get(store.cluster, definition_key(name), body);
}

/// Writing an instance of a resource type other than the schema definitions
/// leaves every resolution as it was.
pub proof fn lemma_instances_keep_resolutions(
    store: Store,
    key: ClusterKey,
    namespaced: NamespaceKey,
    body: Seq<u8>,
    group: Seq<char>,
    resource_type: Seq<char>,
    version: Seq<char>,
)
    requires
        key.group != crd_group() || key.resource_type != crd_resource_type(),
    ensures
        resolution(store.put_cluster(key, body), group, resource_type, version) == resolution(
            store,
            group,
            resource_type,
            version,
        ),
        resolution(store.put_namespaced(namespaced, body), group, resource_type, version)
            == resolution(store, group, resource_type, version),
{
    crate::storage::lemma_table_put_other(
        store.cluster,
        key,
        body,
        schema_key(group, resource_type),
    );
}

/// Round trip. Where a request to create a cluster-scoped instance is
/// accepted, a request for the instance of that name is answered with the
/// instance that the body describes: its document is the body, byte for byte,
/// and its name the name in the body.
pub proof fn lemma_created_is_found(
    store: Store,
    group: Seq<char>,
    version: Seq<char>,
    resource_type: Seq<char>,
    body: Seq<u8>,
    name: Seq<char>,
    resource: BaseResourceView,
)
    requires
        cluster_creation(store, group, version, resource_type, body) == Ok::<
            (Seq<char>, BaseResourceView),
            Refusal,
        >((name, resource)),
    ensures
        cluster_instance(
            store.put_cluster(ClusterKey { group, resource_type, resource: name }, body),
            group,
            version,
            resource_type,
            name,
        ) == Ok::<BaseResourceView, Refusal>(resource),
        resource.document == body,
        resource.metadata.name == Some(name),
{
    let key = ClusterKey { group, resource_type, resource: name };
    lemma_instances_keep_resolutions(
        store,
        key,
        NamespaceKey { group, namespace: Seq::empty(), resource_type, resource: name },
        body,
        group,
        resource_type,
        version,
    );
    crate::storage::lemma_table_put_get(store.cluster, key, body);
}

/// Last write wins. Where two requests create a cluster-scoped instance under
/// one name, one after the other, a request for the instance is answered with
/// what the second body describes, and the store is as if the first request
/// had never been made.
pub proof fn lemma_second_creation_wins(
    store: Store,
    group: Seq<char>,
    version: Seq<char>,
    resource_type: Seq<char>,
    first: Seq<u8>,
    second: Seq<u8>,
    name: Seq<char>,
    resource: BaseResourceView,
)
    requires
        cluster_creation(store, group, version, resource_type, first) matches Ok(admitted)
            && admitted.0 == name,
        cluster_creation(store, group, version, resource_type, second) == Ok::<
            (Seq<char>, BaseResourceView),
            Refusal,
        >((name, resource)),
    ensures
        ({
            let key = ClusterKey { group, resource_type, resource: name };
            let once = store.put_cluster(key, first);
            &&& cluster_creation(once, group, version, resource_type, second)
                == cluster_creation(store, group, version, resource_type, second)
            &&& once.put_cluster(key, second) == store.put_cluster(key, second)
            &&& cluster_instance(once.put_cluster(key, second), group, version, resource_type, name)
                == Ok::<BaseResourceView, Refusal>(resource)
        }),
{
    let key = ClusterKey { group, resource_type, resource: name };
    let other = NamespaceKey { group, namespace: Seq::empty(), resource_type, resource: name };
    lemma_instances_keep_resolutions(store, key, other, first, group, resource_type, version);
    crate::storage::lemma_table_put_twice(store.cluster, key, first, second);
    lemma_created_is_found(store, group, version, resource_type, second, name, resource);
}

/// Namespace isolation. An instance that is created within one namespace
/// changes no listing of another namespace, whatever the resource type: the
/// listing is answered, or refused, as before.
pub proof fn lemma_namespaces_are_isolated(
    store: Store,
    key: NamespaceKey,
    body: Seq<u8>,
    group: Seq<char>,
    version: Seq<char>,
    namespace: Seq<char>,
    resource_type: Seq<char>,
)
    requires
        key.namespace != namespace,
    ensures
        namespaced_listing(
            store.put_namespaced(key, body),
            group,
            version,
            namespace,
            resource_type,
        ) == namespaced_listing(store, group, version, namespace, resource_type),
{
    crate::storage::lemma_namespace_isolation(store, key, body, group, namespace, resource_type);
}

} // verus!
