//! Schema-agnostic storage of opaque documents under resource coordinates.
//!
//! The mathematical model is a pair of tables, each a sequence of rows in the
//! order in which their keys were first written. A write replaces the document
//! of a key that is there and appends a row for one that is not.

use crate::models::{Group, Namespace, Resource, ResourceType};
use vstd::prelude::*;
use vstd::string::*;

verus! {

/// What went wrong below the resource handlers.
#[derive(Debug)]
pub enum StorageError {
    /// The engine, or the pool of connections to it, failed.
    DatabaseError { source: String },
    /// A stored document does not have the shape its reader expects.
    ModelError(String),
}

impl StorageError {
    /// The text of the error.
    pub open spec fn message_view(&self) -> Seq<char> {
        match self {
            StorageError::DatabaseError { .. } => "Error accessing the database"@,
            StorageError::ModelError(detail) => "Error validating data: "@ + detail@,
        }
    }

    /// The text of the error.
    pub fn message(&self) -> (r: String)
        ensures
            r@ == self.message_view(),
    {
        match self {
            StorageError::DatabaseError { .. } => String::from_str("Error accessing the database"),
            StorageError::ModelError(detail) => {
                let mut text = String::from_str("Error validating data: ");
                text.append(detail.as_str());
                text
            },
        }
    }
}

/// What a storage call returns: the value if there is one, or the failure.
pub type StorageResult<T> = Result<Option<T>, StorageError>;

/// The key of a cluster-scoped document.
pub struct ClusterKey {
    pub group: Seq<char>,
    pub resource_type: Seq<char>,
    pub resource: Seq<char>,
}

/// The key of a namespace-scoped document.
pub struct NamespaceKey {
    pub group: Seq<char>,
    pub namespace: Seq<char>,
    pub resource_type: Seq<char>,
    pub resource: Seq<char>,
}

/// The document stored under `key`, if any: that of the first row with that key.
pub open spec fn table_get<K>(rows: Seq<(K, Seq<u8>)>, key: K) -> Option<Seq<u8>>
    decreases rows.len(),
{
    if rows.len() == 0 {
        None
    } else if rows[0].0 == key {
        Some(rows[0].1)
    } else {
        table_get(rows.drop_first(), key)
    }
}

/// The table after `json` was written under `key`: the first row with that key
/// holds the new document, in its old place; without such a row, a new one
/// stands at the end.
pub open spec fn table_put<K>(rows: Seq<(K, Seq<u8>)>, key: K, json: Seq<u8>) -> Seq<(K, Seq<u8>)>
    decreases rows.len(),
{
    if rows.len() == 0 {
        seq![(key, json)]
    } else if rows[0].0 == key {
        seq![(key, json)] + rows.drop_first()
    } else {
        seq![rows[0]] + table_put(rows.drop_first(), key, json)
    }
}

/// The documents of the rows whose key meets `wanted`, in row order.
pub open spec fn table_scan<K>(rows: Seq<(K, Seq<u8>)>, wanted: spec_fn(K) -> bool) -> Seq<Seq<u8>>
    decreases rows.len(),
{
    if rows.len() == 0 {
        Seq::empty()
    } else if wanted(rows[0].0) {
        seq![rows[0].1] + table_scan(rows.drop_first(), wanted)
    } else {
        table_scan(rows.drop_first(), wanted)
    }
}

/// No key stands in two rows.
pub open spec fn table_keys_distinct<K>(rows: Seq<(K, Seq<u8>)>) -> bool {
    forall|i: int, j: int| 0 <= i < j < rows.len() ==> rows[i].0 != rows[j].0
}

/// Everything that is stored.
pub struct Store {
    pub cluster: Seq<(ClusterKey, Seq<u8>)>,
    pub namespaced: Seq<(NamespaceKey, Seq<u8>)>,
}

impl Store {
    /// The store that holds nothing.
    pub open spec fn empty() -> Store {
        Store { cluster: Seq::empty(), namespaced: Seq::empty() }
    }

    pub open spec fn wf(self) -> bool {
        table_keys_distinct(self.cluster) && table_keys_distinct(self.namespaced)
    }

    pub open spec fn get_cluster(self, key: ClusterKey) -> Option<Seq<u8>> {
        table_get(self.cluster, key)
    }

    pub open spec fn put_cluster(self, key: ClusterKey, json: Seq<u8>) -> Store {
        Store { cluster: table_put(self.cluster, key, json), namespaced: self.namespaced }
    }

    /// The cluster-scoped documents of one resource type.
    pub open spec fn list_cluster(self, group: Seq<char>, resource_type: Seq<char>) -> Seq<Seq<u8>> {
        table_scan(
            self.cluster,
            |k: ClusterKey| k.group == group && k.resource_type == resource_type,
        )
    }

    pub open spec fn get_namespaced(self, key: NamespaceKey) -> Option<Seq<u8>> {
        table_get(self.namespaced, key)
    }

    pub open spec fn put_namespaced(self, key: NamespaceKey, json: Seq<u8>) -> Store {
        Store { cluster: self.cluster, namespaced: table_put(self.namespaced, key, json) }
    }

    /// The documents of one resource type within one namespace.
    pub open spec fn list_namespaced(
        self,
        group: Seq<char>,
        namespace: Seq<char>,
        resource_type: Seq<char>,
    ) -> Seq<Seq<u8>> {
        table_scan(
            self.namespaced,
            |k: NamespaceKey|
                k.group == group && k.namespace == namespace && k.resource_type == resource_type,
        )
    }
}

/// The key that a cluster-scoped coordinate stands for.
pub open spec fn cluster_key<U: Group + ResourceType + Resource>(key: &U) -> ClusterKey {
    ClusterKey {
        group: key.group_view(),
        resource_type: key.resource_type_view(),
        resource: key.resource_view(),
    }
}

/// The key that a namespace-scoped coordinate stands for.
pub open spec fn namespace_key<U: Group + Namespace + ResourceType + Resource>(
    key: &U,
) -> NamespaceKey {
    NamespaceKey {
        group: key.group_view(),
        namespace: key.namespace_view(),
        resource_type: key.resource_type_view(),
        resource: key.resource_view(),
    }
}

/// A document that may be there, as the bytes it holds.
pub open spec fn document_view(found: Option<Vec<u8>>) -> Option<Seq<u8>> {
    match found {
        Some(json) => Some(json@),
        None => None,
    }
}

/// Documents as the bytes they hold.
pub open spec fn documents_view(found: Seq<Vec<u8>>) -> Seq<Seq<u8>> {
    found.map_values(|json: Vec<u8>| json@)
}

/// Durable storage of documents, keyed by coordinates. The engine may fail any
/// call, with a `DatabaseError`, unless it is one that never fails; a failed
/// write leaves what is stored as it was.
pub trait Storage {
    /// What is stored.
    spec fn store(&self) -> Store;

    /// Whether the engine is one that fails no call.
    spec fn reliable(&self) -> bool;

    /// Looks one cluster-scoped document up.
    fn get_cluster_resource<U: Group + ResourceType + Resource>(&self, key: &U) -> (r:
        StorageResult<Vec<u8>>)
        ensures
            match r {
                Ok(found) => document_view(found) == self.store().get_cluster(cluster_key(key)),
                Err(e) => e is DatabaseError && !self.reliable(),
            },
    ;

    /// All cluster-scoped documents of one resource type, oldest key first.
    fn list_cluster_resources<U: Group + ResourceType>(&self, key: &U) -> (r: Result<
        Vec<Vec<u8>>,
        StorageError,
    >)
        ensures
            match r {
                Ok(found) => documents_view(found@) == self.store().list_cluster(
                    key.group_view(),
                    key.resource_type_view(),
                ),
                Err(e) => e is DatabaseError && !self.reliable(),
            },
    ;

    /// Writes a cluster-scoped document, over the one that was there if any.
    fn create_cluster_resource<T: Group + ResourceType + Resource>(
        &mut self,
        key: &T,
        obj: &[u8],
    ) -> (r: StorageResult<()>)
        ensures
            match r {
                Ok(done) => done == Some(()) && final(self).store() == old(
                    self,
                ).store().put_cluster(cluster_key(key), obj@),
                Err(e) => e is DatabaseError && !old(self).reliable() && final(self).store()
                    == old(self).store(),
            },
            final(self).reliable() == old(self).reliable(),
    ;

    /// Looks one namespace-scoped document up.
    fn get_namespace_resource<U: Group + Namespace + ResourceType + Resource>(
        &self,
        key: &U,
    ) -> (r: StorageResult<Vec<u8>>)
        ensures
            match r {
                Ok(found) => document_view(found) == self.store().get_namespaced(
                    namespace_key(key),
                ),
                Err(e) => e is DatabaseError && !self.reliable(),
            },
    ;

    /// All documents of one resource type within one namespace, oldest key first.
    fn list_namespace_resources<U: Group + Namespace + ResourceType>(&self, key: &U) -> (r:
        StorageResult<Vec<Vec<u8>>>)
        ensures
            match r {
                Ok(found) => found matches Some(docs) && documents_view(docs@)
                    == self.store().list_namespaced(
                    key.group_view(),
                    key.namespace_view(),
                    key.resource_type_view(),
                ),
                Err(e) => e is DatabaseError && !self.reliable(),
            },
    ;

    /// Writes a namespace-scoped document, over the one that was there if any.
    fn create_namespace_resource<T: Group + Namespace + ResourceType + Resource>(
        &mut self,
        key: &T,
        obj: &[u8],
    ) -> (r: StorageResult<()>)
        ensures
            match r {
                Ok(done) => done == Some(()) && final(self).store() == old(
                    self,
                ).store().put_namespaced(namespace_key(key), obj@),
                Err(e) => e is DatabaseError && !old(self).reliable() && final(self).store()
                    == old(self).store(),
            },
            final(self).reliable() == old(self).reliable(),
    ;
}

/// Where a write leaves each row: the old rows keep their places and keys, and
/// a key that was not there gets one more row at the end.
pub proof fn lemma_table_put_rows<K>(rows: Seq<(K, Seq<u8>)>, key: K, json: Seq<u8>)
    ensures
        table_get(rows, key) is Some ==> table_put(rows, key, json).len() == rows.len(),
        table_get(rows, key) is None ==> table_put(rows, key, json) == rows.push((key, json)),
        table_get(rows, key) is None <==> forall|i: int| 0 <= i < rows.len() ==> rows[i].0 != key,
        forall|i: int|
            0 <= i < rows.len() ==> (#[trigger] table_put(rows, key, json)[i]).0 == rows[i].0,
    decreases rows.len(),
{
    let put = table_put(rows, key, json);
    if rows.len() == 0 {
        assert(put =~= rows.push((key, json)));
    } else if rows[0].0 == key {
        assert(forall|i: int| 0 < i < rows.len() ==> put[i] == rows.drop_first()[i - 1]);
    } else {
        let rest = rows.drop_first();
        lemma_table_put_rows(rest, key, json);
        let put_rest = table_put(rest, key, json);
        assert(forall|i: int| 0 < i < put.len() ==> put[i] == put_rest[i - 1]);
        assert forall|i: int| 0 <= i < rows.len() implies (#[trigger] put[i]).0 == rows[i].0 by {
            if i > 0 {
                assert(put_rest[i - 1].0 == rest[i - 1].0);
            }
        }
        if table_get(rows, key) is None {
            assert(put =~= rows.push((key, json)));
            assert forall|i: int| 0 <= i < rows.len() implies rows[i].0 != key by {
                if i > 0 {
                    assert(rest[i - 1].0 != key);
                }
            }
        } else {
            let i = choose|i: int| 0 <= i < rest.len() && rest[i].0 == key;
            assert(rows[i + 1].0 == key);
        }
    }
}

/// What was written under a key is what is read under it.
pub proof fn lemma_table_put_get<K>(rows: Seq<(K, Seq<u8>)>, key: K, json: Seq<u8>)
    ensures
        table_get(table_put(rows, key, json), key) == Some(json),
    decreases rows.len(),
{
    if rows.len() > 0 && rows[0].0 != key {
        lemma_table_put_get(rows.drop_first(), key, json);
        assert(table_put(rows, key, json).drop_first() =~= table_put(
            rows.drop_first(),
            key,
            json,
        ));
    }
}

/// A write under one key changes what no other key reads.
pub proof fn lemma_table_put_other<K>(rows: Seq<(K, Seq<u8>)>, key: K, json: Seq<u8>, other: K)
    requires
        other != key,
    ensures
        table_get(table_put(rows, key, json), other) == table_get(rows, other),
    decreases rows.len(),
{
    let put = table_put(rows, key, json);
    if rows.len() == 0 {
        assert(put.drop_first() =~= rows);
    } else if rows[0].0 == key {
        assert(put.drop_first() =~= rows.drop_first());
    } else {
        lemma_table_put_other(rows.drop_first(), key, json, other);
        assert(put.drop_first() =~= table_put(rows.drop_first(), key, json));
    }
}

/// Of two writes under one key, the table keeps the second alone.
pub proof fn lemma_table_put_twice<K>(
    rows: Seq<(K, Seq<u8>)>,
    key: K,
    first: Seq<u8>,
    second: Seq<u8>,
)
    ensures
        table_put(table_put(rows, key, first), key, second) == table_put(rows, key, second),
    decreases rows.len(),
{
    let once = table_put(rows, key, first);
    if rows.len() == 0 {
        assert(once.drop_first() =~= Seq::empty());
        assert(table_put(once, key, second) =~= table_put(rows, key, second));
    } else if rows[0].0 == key {
        assert(once.drop_first() =~= rows.drop_first());
    } else {
        lemma_table_put_twice(rows.drop_first(), key, first, second);
        assert(once.drop_first() =~= table_put(rows.drop_first(), key, first));
    }
}

/// A write under a key that a scan does not want leaves the scan as it was.
pub proof fn lemma_table_put_unwanted<K>(
    rows: Seq<(K, Seq<u8>)>,
    key: K,
    json: Seq<u8>,
    wanted: spec_fn(K) -> bool,
)
    requires
        !wanted(key),
    ensures
        table_scan(table_put(rows, key, json), wanted) == table_scan(rows, wanted),
    decreases rows.len(),
{
    let put = table_put(rows, key, json);
    if rows.len() == 0 {
        assert(put.drop_first() =~= rows);
    } else if rows[0].0 == key {
        assert(put.drop_first() =~= rows.drop_first());
    } else {
        lemma_table_put_unwanted(rows.drop_first(), key, json, wanted);
        assert(put.drop_first() =~= table_put(rows.drop_first(), key, json));
    }
}

/// A scan of rows followed by one more row.
pub proof fn lemma_table_scan_push<K>(
    rows: Seq<(K, Seq<u8>)>,
    row: (K, Seq<u8>),
    wanted: spec_fn(K) -> bool,
)
    ensures
        table_scan(rows.push(row), wanted) == if wanted(row.0) {
            table_scan(rows, wanted).push(row.1)
        } else {
            table_scan(rows, wanted)
        },
    decreases rows.len(),
{
    let more = rows.push(row);
    if rows.len() == 0 {
        assert(more.drop_first() =~= rows);
        assert(table_scan(more, wanted) =~= if wanted(row.0) {
            table_scan(rows, wanted).push(row.1)
        } else {
            table_scan(rows, wanted)
        });
    } else {
        lemma_table_scan_push(rows.drop_first(), row, wanted);
        assert(more.drop_first() =~= rows.drop_first().push(row));
        assert(table_scan(more, wanted) =~= if wanted(row.0) {
            table_scan(rows, wanted).push(row.1)
        } else {
            table_scan(rows, wanted)
        });
    }
}

/// A write keeps the keys of a table distinct.
pub proof fn lemma_table_put_distinct<K>(rows: Seq<(K, Seq<u8>)>, key: K, json: Seq<u8>)
    requires
        table_keys_distinct(rows),
    ensures
        table_keys_distinct(table_put(rows, key, json)),
{
    lemma_table_put_rows(rows, key, json);
    let put = table_put(rows, key, json);
    assert forall|i: int, j: int| 0 <= i < j < put.len() implies put[i].0 != put[j].0 by {
        if j < rows.len() {
            assert(put[i].0 == rows[i].0 && put[j].0 == rows[j].0);
        } else {
            assert(put[i].0 == rows[i].0);
        }
    }
}

/// Round trip: a document written under a coordinate is the one read back under
/// it, byte for byte, in either table.
pub proof fn lemma_round_trip(
    store: Store,
    cluster: ClusterKey,
    namespaced: NamespaceKey,
    json: Seq<u8>,
)
    ensures
        store.put_cluster(cluster, json).get_cluster(cluster) == Some(json),
        store.put_namespaced(namespaced, json).get_namespaced(namespaced) == Some(json),
{
    lemma_table_put_get(store.cluster, cluster, json);
    lemma_table_put_get(store.namespaced, namespaced, json);
}

/// Last write wins: after two writes under one coordinate the store is what the
/// second write alone would have left, and the second document is the one read.
pub proof fn lemma_last_write_wins(
    store: Store,
    cluster: ClusterKey,
    namespaced: NamespaceKey,
    first: Seq<u8>,
    second: Seq<u8>,
)
    ensures
        store.put_cluster(cluster, first).put_cluster(cluster, second) == store.put_cluster(
            cluster,
            second,
        ),
        store.put_cluster(cluster, first).put_cluster(cluster, second).get_cluster(cluster)
            == Some(second),
        store.put_namespaced(namespaced, first).put_namespaced(namespaced, second)
            == store.put_namespaced(namespaced, second),
        store.put_namespaced(namespaced, first).put_namespaced(namespaced, second).get_namespaced(
            namespaced,
        ) == Some(second),
{
    lemma_table_put_twice(store.cluster, cluster, first, second);
    lemma_table_put_twice(store.namespaced, namespaced, first, second);
    lemma_table_put_get(store.cluster, cluster, second);
    lemma_table_put_get(store.namespaced, namespaced, second);
}

/// A write touches one key: every other coordinate reads what it read before,
/// and the other table is as it was.
pub proof fn lemma_write_is_local(
    store: Store,
    cluster: ClusterKey,
    namespaced: NamespaceKey,
    json: Seq<u8>,
    other_cluster: ClusterKey,
    other_namespaced: NamespaceKey,
)
    ensures
        other_cluster != cluster ==> store.put_cluster(cluster, json).get_cluster(other_cluster)
            == store.get_cluster(other_cluster),
        other_namespaced != namespaced ==> store.put_namespaced(namespaced, json).get_namespaced(
            other_namespaced,
        ) == store.get_namespaced(other_namespaced),
        store.put_cluster(cluster, json).namespaced == store.namespaced,
        store.put_namespaced(namespaced, json).cluster == store.cluster,
{
    if other_cluster != cluster {
        lemma_table_put_other(store.cluster, cluster, json, other_cluster);
    }
    if other_namespaced != namespaced {
        lemma_table_put_other(store.namespaced, namespaced, json, other_namespaced);
    }
}

/// Namespace isolation: a document written under one namespace shows in no
/// listing of another namespace, whatever the group and the resource type.
pub proof fn lemma_namespace_isolation(
    store: Store,
    key: NamespaceKey,
    json: Seq<u8>,
    group: Seq<char>,
    namespace: Seq<char>,
    resource_type: Seq<char>,
)
    requires
        key.namespace != namespace,
    ensures
        store.put_namespaced(key, json).list_namespaced(group, namespace, resource_type)
            == store.list_namespaced(group, namespace, resource_type),
{
    lemma_table_put_unwanted(
        store.namespaced,
        key,
        json,
        |k: NamespaceKey|
            k.group == group && k.namespace == namespace && k.resource_type == resource_type,
    );
}

/// A listing sees only its own resource type: a write of another group or
/// resource type leaves it as it was.
pub proof fn lemma_listing_is_per_type(
    store: Store,
    key: ClusterKey,
    json: Seq<u8>,
    group: Seq<char>,
    resource_type: Seq<char>,
)
    requires
        key.group != group || key.resource_type != resource_type,
    ensures
        store.put_cluster(key, json).list_cluster(group, resource_type) == store.list_cluster(
            group,
            resource_type,
        ),
{
    lemma_table_put_unwanted(
        store.cluster,
        key,
        json,
        |k: ClusterKey| k.group == group && k.resource_type == resource_type,
    );
}

/// A document written under a new coordinate is the last of its type's listing.
pub proof fn lemma_new_document_is_listed_last(store: Store, key: ClusterKey, json: Seq<u8>)
    requires
        store.get_cluster(key) is None,
    ensures
        store.put_cluster(key, json).list_cluster(key.group, key.resource_type)
            == store.list_cluster(key.group, key.resource_type).push(json),
{
    lemma_table_put_rows(store.cluster, key, json);
    lemma_table_scan_push(
        store.cluster,
        (key, json),
        |k: ClusterKey| k.group == key.group && k.resource_type == key.resource_type,
    );
}

/// Writes keep every key in one row only.
pub proof fn lemma_writes_keep_keys_distinct(
    store: Store,
    cluster: ClusterKey,
    namespaced: NamespaceKey,
    json: Seq<u8>,
)
    requires
        store.wf(),
    ensures
        store.put_cluster(cluster, json).wf(),
        store.put_namespaced(namespaced, json).wf(),
{
    lemma_table_put_distinct(store.cluster, cluster, json);
    lemma_table_put_distinct(store.namespaced, namespaced, json);
}

} // verus!
