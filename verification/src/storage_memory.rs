//! Storage in memory: the rows of both tables in vectors, scanned from the
//! oldest row on. It loses what it holds when it is dropped, and never fails.

use crate::models::{Group, Namespace, Resource, ResourceType};
use crate::storage::{
    document_view, documents_view, lemma_table_put_rows, table_get, table_put, table_scan,
    ClusterKey, NamespaceKey, Storage, StorageError, StorageResult, Store,
};
use vstd::prelude::*;
use vstd::slice::slice_to_vec;
use vstd::string::*;

verus! {

/// A key as a row holds it.
trait RowKey: Sized {
    /// The key as the model has it.
    type Model;

    spec fn model(&self) -> Self::Model;

    /// Whether a key of the model lies in the scope that another names: it
    /// agrees with it in all but the name of the instance.
    spec fn within(key: Self::Model, scope: Self::Model) -> bool;

    fn same(&self, other: &Self) -> (r: bool)
        ensures
            r == (self.model() == other.model()),
    ;

    fn in_scope(&self, scope: &Self) -> (r: bool)
        ensures
            r == Self::within(self.model(), scope.model()),
    ;
}

struct ClusterName {
    group: String,
    resource_type: String,
    resource: String,
}

struct NamespaceName {
    group: String,
    namespace: String,
    resource_type: String,
    resource: String,
}

impl RowKey for ClusterName {
    type Model = ClusterKey;

    spec fn model(&self) -> ClusterKey {
        ClusterKey {
            group: self.group@,
            resource_type: self.resource_type@,
            resource: self.resource@,
        }
    }

    spec fn within(key: ClusterKey, scope: ClusterKey) -> bool {
        key.group == scope.group && key.resource_type == scope.resource_type
    }

    fn same(&self, other: &ClusterName) -> (r: bool) {
        self.group == other.group && self.resource_type == other.resource_type && self.resource
            == other.resource
    }

    fn in_scope(&self, scope: &ClusterName) -> (r: bool) {
        self.group == scope.group && self.resource_type == scope.resource_type
    }
}

impl RowKey for NamespaceName {
    type Model = NamespaceKey;

    spec fn model(&self) -> NamespaceKey {
        NamespaceKey {
            group: self.group@,
            namespace: self.namespace@,
            resource_type: self.resource_type@,
            resource: self.resource@,
        }
    }

    spec fn within(key: NamespaceKey, scope: NamespaceKey) -> bool {
        key.group == scope.group && key.namespace == scope.namespace && key.resource_type
            == scope.resource_type
    }

    fn same(&self, other: &NamespaceName) -> (r: bool) {
        self.group == other.group && self.namespace == other.namespace && self.resource_type
            == other.resource_type && self.resource == other.resource
    }

    fn in_scope(&self, scope: &NamespaceName) -> (r: bool) {
        self.group == scope.group && self.namespace == scope.namespace && self.resource_type
            == scope.resource_type
    }
}

struct Row<K> {
    key: K,
    json: Vec<u8>,
}

/// The rows of a table as the model has them.
spec fn rows_model<K: RowKey>(rows: Seq<Row<K>>) -> Seq<(K::Model, Seq<u8>)> {
    rows.map_values(|row: Row<K>| (row.key.model(), row.json@))
}

/// A write under a key whose first row is the row `at` changes that row alone.
proof fn lemma_table_put_at<K>(rows: Seq<(K, Seq<u8>)>, key: K, json: Seq<u8>, at: int)
    requires
        0 <= at < rows.len(),
        rows[at].0 == key,
        forall|i: int| 0 <= i < at ==> rows[i].0 != key,
    ensures
        table_put(rows, key, json) == rows.update(at, (key, json)),
    decreases at,
{
    if at == 0 {
        assert(table_put(rows, key, json) =~= rows.update(at, (key, json)));
    } else {
        let rest = rows.drop_first();
        assert forall|i: int| 0 <= i < at - 1 implies rest[i].0 != key by {
            assert(rest[i] == rows[i + 1]);
        }
        lemma_table_put_at(rest, key, json, at - 1);
        assert(table_put(rows, key, json) =~= rows.update(at, (key, json)));
    }
}

/// Scans that want the same keys find the same documents.
proof fn lemma_table_scan_same<K>(
    rows: Seq<(K, Seq<u8>)>,
    wanted: spec_fn(K) -> bool,
    also: spec_fn(K) -> bool,
)
    requires
        forall|key: K| #[trigger] wanted(key) == also(key),
    ensures
        table_scan(rows, wanted) == table_scan(rows, also),
    decreases rows.len(),
{
    if rows.len() > 0 {
        lemma_table_scan_same(rows.drop_first(), wanted, also);
    }
}

/// The place of the first row with the key, if there is one.
fn find_row<K: RowKey>(rows: &Vec<Row<K>>, key: &K) -> (r: Option<usize>)
    ensures
        match r {
            Some(at) => at < rows@.len() && rows_model(rows@)[at as int].0 == key.model()
                && forall|i: int| 0 <= i < at ==> rows_model(rows@)[i].0 != key.model(),
            None => forall|i: int| 0 <= i < rows@.len() ==> rows_model(rows@)[i].0 != key.model(),
        },
{
    let mut i: usize = 0;
    while i < rows.len()
        invariant
            i <= rows@.len(),
            forall|k: int| 0 <= k < i ==> rows_model(rows@)[k].0 != key.model(),
        decreases rows@.len() - i,
    {
        if rows[i].key.same(key) {
            return Some(i);
        }
        i = i + 1;
    }
    None
}

/// The document of the first row with the key, if there is one.
fn get_row<K: RowKey>(rows: &Vec<Row<K>>, key: &K) -> (r: Option<Vec<u8>>)
    ensures
        document_view(r) == table_get(rows_model(rows@), key.model()),
{
    let ghost model = rows_model(rows@);
    match find_row(rows, key) {
        Some(at) => {
            proof {
                lemma_table_get_at(model, key.model(), at as int);
            }
            Some(slice_to_vec(rows[at].json.as_slice()))
        },
        None => {
            proof {
                lemma_table_put_rows(model, key.model(), Seq::empty());
            }
            None
        },
    }
}

/// A key whose first row is the row `at` reads the document of that row.
proof fn lemma_table_get_at<K>(rows: Seq<(K, Seq<u8>)>, key: K, at: int)
    requires
        0 <= at < rows.len(),
        rows[at].0 == key,
        forall|i: int| 0 <= i < at ==> rows[i].0 != key,
    ensures
        table_get(rows, key) == Some(rows[at].1),
    decreases at,
{
    if at > 0 {
        let rest = rows.drop_first();
        assert forall|i: int| 0 <= i < at - 1 implies rest[i].0 != key by {
            assert(rest[i] == rows[i + 1]);
        }
        lemma_table_get_at(rest, key, at - 1);
    }
}

/// Writes a document under a key.
fn put_row<K: RowKey>(rows: &mut Vec<Row<K>>, key: K, json: &[u8])
    ensures
        rows_model(final(rows)@) == table_put(rows_model(old(rows)@), key.model(), json@),
{
    let ghost before = rows_model(rows@);
    match find_row(rows, &key) {
        Some(at) => {
            proof {
                lemma_table_put_at(before, key.model(), json@, at as int);
            }
            rows.set(at, Row { key, json: slice_to_vec(json) });
            assert(rows_model(rows@) =~= before.update(at as int, (key.model(), json@)));
        },
        None => {
            proof {
                lemma_table_put_rows(before, key.model(), json@);
            }
            rows.push(Row { key, json: slice_to_vec(json) });
            assert(rows_model(rows@) =~= before.push((key.model(), json@)));
        },
    }
}

/// The documents of the rows in a scope, oldest row first.
fn scan_rows<K: RowKey>(rows: &Vec<Row<K>>, scope: &K) -> (r: Vec<Vec<u8>>)
    ensures
        documents_view(r@) == table_scan(
            rows_model(rows@),
            |key: K::Model| K::within(key, scope.model()),
        ),
{
    let ghost model = rows_model(rows@);
    let ghost wanted = |key: K::Model| K::within(key, scope.model());
    let mut found: Vec<Vec<u8>> = Vec::new();
    let mut i: usize = 0;
    assert(model.skip(0) =~= model);
    assert(documents_view(found@) + table_scan(model.skip(0), wanted) =~= table_scan(
        model,
        wanted,
    ));
    while i < rows.len()
        invariant
            i <= rows@.len(),
            model == rows_model(rows@),
            wanted == |key: K::Model| K::within(key, scope.model()),
            table_scan(model, wanted) == documents_view(found@) + table_scan(
                model.skip(i as int),
                wanted,
            ),
        decreases rows@.len() - i,
    {
        proof {
            assert(model.skip(i as int).drop_first() =~= model.skip(i + 1));
            assert(model.skip(i as int)[0] == model[i as int]);
        }
        if rows[i].key.in_scope(scope) {
            let ghost before = found@;
            found.push(slice_to_vec(rows[i].json.as_slice()));
            assert(documents_view(found@) =~= documents_view(before).push(rows@[i as int].json@));
            assert(documents_view(found@) + table_scan(model.skip(i + 1), wanted) =~= table_scan(
                model,
                wanted,
            ));
        }
        i = i + 1;
    }
    assert(documents_view(found@) + table_scan(model.skip(rows@.len() as int), wanted)
        =~= documents_view(found@));
    found
}

/// Storage in memory.
pub struct MemoryStorage {
    cluster: Vec<Row<ClusterName>>,
    namespaced: Vec<Row<NamespaceName>>,
}

fn cluster_name<U: Group + ResourceType>(key: &U, resource: &str) -> (r: ClusterName)
    ensures
        r.model() == (ClusterKey {
            group: key.group_view(),
            resource_type: key.resource_type_view(),
            resource: resource@,
        }),
{
    ClusterName {
        group: String::from_str(key.group()),
        resource_type: String::from_str(key.resource_type()),
        resource: String::from_str(resource),
    }
}

fn namespace_name<U: Group + Namespace + ResourceType>(key: &U, resource: &str) -> (r:
    NamespaceName)
    ensures
        r.model() == (NamespaceKey {
            group: key.group_view(),
            namespace: key.namespace_view(),
            resource_type: key.resource_type_view(),
            resource: resource@,
        }),
{
    NamespaceName {
        group: String::from_str(key.group()),
        namespace: String::from_str(key.namespace()),
        resource_type: String::from_str(key.resource_type()),
        resource: String::from_str(resource),
    }
}

impl MemoryStorage {
    /// A storage that holds nothing.
    pub fn new() -> (r: MemoryStorage)
        ensures
            r.store() == Store::empty(),
    {
        let storage = MemoryStorage { cluster: Vec::new(), namespaced: Vec::new() };
        assert(storage.store().cluster =~= Store::empty().cluster);
        assert(storage.store().namespaced =~= Store::empty().namespaced);
        storage
    }
}

impl Storage for MemoryStorage {
    closed spec fn store(&self) -> Store {
        Store { cluster: rows_model(self.cluster@), namespaced: rows_model(self.namespaced@) }
    }

    open spec fn reliable(&self) -> bool {
        true
    }

    fn get_cluster_resource<U: Group + ResourceType + Resource>(&self, key: &U) -> (r:
        StorageResult<Vec<u8>>)
    {
        Ok(get_row(&self.cluster, &cluster_name(key, key.resource())))
    }

    fn list_cluster_resources<U: Group + ResourceType>(&self, key: &U) -> (r: Result<
        Vec<Vec<u8>>,
        StorageError,
    >)
    {
        let scope = cluster_name(key, "");
        let found = scan_rows(&self.cluster, &scope);
        proof {
            lemma_table_scan_same(
                rows_model(self.cluster@),
                |k: ClusterKey| ClusterName::within(k, scope.model()),
                |k: ClusterKey|
                    k.group == key.group_view() && k.resource_type == key.resource_type_view(),
            );
        }
        Ok(found)
    }

    fn create_cluster_resource<T: Group + ResourceType + Resource>(
        &mut self,
        key: &T,
        obj: &[u8],
    ) -> (r: StorageResult<()>)
    {
        put_row(&mut self.cluster, cluster_name(key, key.resource()), obj);
        Ok(Some(()))
    }

    fn get_namespace_resource<U: Group + Namespace + ResourceType + Resource>(
        &self,
        key: &U,
    ) -> (r: StorageResult<Vec<u8>>)
    {
        Ok(get_row(&self.namespaced, &namespace_name(key, key.resource())))
    }

    fn list_namespace_resources<U: Group + Namespace + ResourceType>(&self, key: &U) -> (r:
        StorageResult<Vec<Vec<u8>>>)
    {
        let scope = namespace_name(key, "");
        let found = scan_rows(&self.namespaced, &scope);
        proof {
            lemma_table_scan_same(
                rows_model(self.namespaced@),
                |k: NamespaceKey| NamespaceName::within(k, scope.model()),
                |k: NamespaceKey|
                    k.group == key.group_view() && k.namespace == key.namespace_view()
                        && k.resource_type == key.resource_type_view(),
            );
        }
        Ok(Some(found))
    }

    fn create_namespace_resource<T: Group + Namespace + ResourceType + Resource>(
        &mut self,
        key: &T,
        obj: &[u8],
    ) -> (r: StorageResult<()>)
    {
        put_row(&mut self.namespaced, namespace_name(key, key.resource()), obj);
        Ok(Some(()))
    }
}

} // verus!
