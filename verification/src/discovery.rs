//! Discovery documents: which API versions, groups and resource types the
//! server offers, computed from the registered schema definitions.

use crate::loading::{load_schemas, schema_documents};
use crate::models::{group_version_text, join_group_version};
use crate::schema::{
    definitions_view, schemas_of_json, SchemaDefinition, SchemaDefinitionView, Scope,
};
use crate::storage::{Storage, StorageError};
use crate::text::{
    contains_text, copy_optional_texts, optional_strings_view, same_text, strings_view,
};
use vstd::prelude::*;
use vstd::string::*;

verus! {

/// One version of a group, under both of its spellings.
#[derive(Debug)]
pub struct GroupVersionForDiscovery {
    /// The group and the version, joined by a slash.
    pub group_version: String,
    pub version: String,
}

/// One version of a group as plain values.
pub struct GroupVersionView {
    pub group_version: Seq<char>,
    pub version: Seq<char>,
}

impl View for GroupVersionForDiscovery {
    type V = GroupVersionView;

    open spec fn view(&self) -> GroupVersionView {
        GroupVersionView { group_version: self.group_version@, version: self.version@ }
    }
}

/// An API group and the versions it is served in.
#[derive(Debug)]
pub struct ApiGroup {
    pub name: String,
    pub preferred_version: Option<GroupVersionForDiscovery>,
    pub versions: Vec<GroupVersionForDiscovery>,
}

/// An API group as plain values.
pub struct ApiGroupView {
    pub name: Seq<char>,
    pub preferred_version: Option<GroupVersionView>,
    pub versions: Seq<GroupVersionView>,
}

impl View for ApiGroup {
    type V = ApiGroupView;

    open spec fn view(&self) -> ApiGroupView {
        ApiGroupView {
            name: self.name@,
            preferred_version: match self.preferred_version {
                Some(preferred) => Some(preferred@),
                None => None,
            },
            versions: self.versions@.map_values(|v: GroupVersionForDiscovery| v@),
        }
    }
}

/// The answer to a request for all API groups.
#[derive(Debug)]
pub struct ApiGroupList {
    pub groups: Vec<ApiGroup>,
}

impl View for ApiGroupList {
    type V = Seq<ApiGroupView>;

    open spec fn view(&self) -> Seq<ApiGroupView> {
        self.groups@.map_values(|group: ApiGroup| group@)
    }
}

/// One resource type, as discovery describes it.
#[derive(Debug)]
pub struct ApiResource {
    pub categories: Option<Vec<String>>,
    pub kind: String,
    /// The plural name.
    pub name: String,
    pub namespaced: bool,
    pub short_names: Option<Vec<String>>,
    pub singular_name: String,
    pub verbs: Vec<String>,
}

/// One resource type as plain values.
pub struct ApiResourceView {
    pub categories: Option<Seq<Seq<char>>>,
    pub kind: Seq<char>,
    pub name: Seq<char>,
    pub namespaced: bool,
    pub short_names: Option<Seq<Seq<char>>>,
    pub singular_name: Seq<char>,
    pub verbs: Seq<Seq<char>>,
}

impl View for ApiResource {
    type V = ApiResourceView;

    open spec fn view(&self) -> ApiResourceView {
        ApiResourceView {
            categories: optional_strings_view(self.categories),
            kind: self.kind@,
            name: self.name@,
            namespaced: self.namespaced,
            short_names: optional_strings_view(self.short_names),
            singular_name: self.singular_name@,
            verbs: strings_view(self.verbs@),
        }
    }
}

/// The answer to a request for the resource types of one group and version.
#[derive(Debug)]
pub struct ApiResourceList {
    pub group_version: String,
    pub resources: Vec<ApiResource>,
}

/// The resource types of a list as plain values.
pub open spec fn resources_view(resources: Seq<ApiResource>) -> Seq<ApiResourceView> {
    resources.map_values(|resource: ApiResource| resource@)
}

/// Which server address a client of an address range should use.
#[derive(Debug)]
pub struct ServerAddressByClientCidr {
    pub client_cidr: String,
    pub server_address: String,
}

/// The versions of the core API.
#[derive(Debug)]
pub struct ApiVersions {
    pub server_address_by_client_cidrs: Vec<ServerAddressByClientCidr>,
    pub versions: Vec<String>,
}

/// The document of the core API's versions: version `v1`, served to every
/// client at the local address.
pub fn get_api_versions() -> (r: ApiVersions)
    ensures
        strings_view(r.versions@) == seq!["v1"@],
        r.server_address_by_client_cidrs@.len() == 1,
        r.server_address_by_client_cidrs@[0].client_cidr@ == "0.0.0.0/0"@,
        r.server_address_by_client_cidrs@[0].server_address@ == "127.0.0.1:8080"@,
{
    let mut addresses: Vec<ServerAddressByClientCidr> = Vec::new();
    addresses.push(
        ServerAddressByClientCidr {
            client_cidr: String::from_str("0.0.0.0/0"),
            server_address: String::from_str("127.0.0.1:8080"),
        },
    );
    let mut versions: Vec<String> = Vec::new();
    versions.push(String::from_str("v1"));
    assert(strings_view(versions@) =~= seq!["v1"@]);
    ApiVersions { server_address_by_client_cidrs: addresses, versions }
}

/// `seen`, followed by the items of `more` that it lacks, each once and in the
/// order of `more`.
pub open spec fn merged<T>(seen: Seq<T>, more: Seq<T>) -> Seq<T>
    decreases more.len(),
{
    if more.len() == 0 {
        seen
    } else {
        let before = merged(seen, more.drop_last());
        if before.contains(more.last()) {
            before
        } else {
            before.push(more.last())
        }
    }
}

/// The groups that the definitions name, each once, in the order in which the
/// definitions first name them.
pub open spec fn group_names(schemas: Seq<SchemaDefinitionView>) -> Seq<Seq<char>>
    decreases schemas.len(),
{
    if schemas.len() == 0 {
        Seq::empty()
    } else {
        merged(group_names(schemas.drop_last()), seq![schemas.last().group])
    }
}

/// The versions that the definitions of `group` declare, each once: those of the
/// group's first definition in the order of their declaration, then what each
/// later definition adds.
pub open spec fn group_versions(schemas: Seq<SchemaDefinitionView>, group: Seq<char>) -> Seq<
    Seq<char>,
>
    decreases schemas.len(),
{
    if schemas.len() == 0 {
        Seq::empty()
    } else if schemas.last().group == group {
        merged(group_versions(schemas.drop_last(), group), schemas.last().versions)
    } else {
        group_versions(schemas.drop_last(), group)
    }
}

/// A version of a group, as discovery prints it.
pub open spec fn discovery_version(group: Seq<char>, version: Seq<char>) -> GroupVersionView {
    GroupVersionView { group_version: group_version_text(group, version), version }
}

/// The versions of a group, as discovery prints them.
pub open spec fn discovery_versions(group: Seq<char>, versions: Seq<Seq<char>>) -> Seq<
    GroupVersionView,
> {
    versions.map_values(|version: Seq<char>| discovery_version(group, version))
}

/// The entry of one group: its versions, the first of them preferred.
pub open spec fn api_group(schemas: Seq<SchemaDefinitionView>, group: Seq<char>) -> ApiGroupView {
    let versions = group_versions(schemas, group);
    ApiGroupView {
        name: group,
        preferred_version: if versions.len() > 0 {
            Some(discovery_version(group, versions[0]))
        } else {
            None
        },
        versions: discovery_versions(group, versions),
    }
}

/// The entries of all groups, in the order in which the definitions first name
/// them.
pub open spec fn api_groups(schemas: Seq<SchemaDefinitionView>) -> Seq<ApiGroupView> {
    group_names(schemas).map_values(|group: Seq<char>| api_group(schemas, group))
}

/// The verbs that discovery advertises for every resource type.
pub open spec fn advertised_verbs() -> Seq<Seq<char>> {
    seq![
        "delete"@,
        "deletecollection"@,
        "get"@,
        "list"@,
        "patch"@,
        "create"@,
        "update"@,
        "watch"@,
    ]
}

/// What discovery says of the resource type that a definition describes.
pub open spec fn api_resource(schema: SchemaDefinitionView) -> ApiResourceView {
    ApiResourceView {
        categories: schema.categories,
        kind: schema.kind,
        name: schema.plural_name,
        namespaced: schema.scope == Scope::Namespaced,
        short_names: schema.short_names,
        singular_name: schema.singular_name,
        verbs: advertised_verbs(),
    }
}

/// The resource types of `group` that are served in `version`, in the order of
/// their definitions.
pub open spec fn resource_types(
    schemas: Seq<SchemaDefinitionView>,
    group: Seq<char>,
    version: Seq<char>,
) -> Seq<ApiResourceView> {
    schemas.filter(|schema: SchemaDefinitionView| schema.group == group && schema.serves(version))
        .map_values(|schema: SchemaDefinitionView| api_resource(schema))
}

/// Adds to `seen` the texts of `more` that it lacks.
fn merge_texts(seen: &mut Vec<String>, more: &Vec<String>)
    ensures
        strings_view(final(seen)@) == merged(strings_view(old(seen)@), strings_view(more@)),
{
    let ghost start = strings_view(seen@);
    let ghost all = strings_view(more@);
    let mut k: usize = 0;
    while k < more.len()
        invariant
            k <= more@.len(),
            all == strings_view(more@),
            strings_view(seen@) == merged(start, all.take(k as int)),
        decreases more@.len() - k,
    {
        proof {
            assert(all.take(k + 1).drop_last() =~= all.take(k as int));
            assert(all.take(k + 1).last() == more@[k as int]@);
        }
        if !contains_text(seen, more[k].as_str()) {
            let ghost before = seen@;
            seen.push(more[k].clone());
            assert(strings_view(seen@) =~= strings_view(before).push(more@[k as int]@));
        }
        k = k + 1;
    }
    assert(all.take(more@.len() as int) =~= all);
}

/// The groups that the definitions name, each once, first named first.
fn group_names_of(schemas: &Vec<SchemaDefinition>) -> (r: Vec<String>)
    ensures
        strings_view(r@) == group_names(definitions_view(schemas@)),
{
    let ghost views = definitions_view(schemas@);
    let mut names: Vec<String> = Vec::new();
    let mut i: usize = 0;
    assert(strings_view(names@) =~= group_names(views.take(0)));
    while i < schemas.len()
        invariant
            i <= schemas@.len(),
            views == definitions_view(schemas@),
            strings_view(names@) == group_names(views.take(i as int)),
        decreases schemas@.len() - i,
    {
        let group = schemas[i].group();
        proof {
            let next = views.take(i + 1);
            assert(next.drop_last() =~= views.take(i as int));
            assert(next.last().group == group@);
            reveal_with_fuel(merged, 2);
            assert(seq![group@].drop_last() =~= Seq::<Seq<char>>::empty());
        }
        if !contains_text(&names, group) {
            let ghost before = names@;
            names.push(String::from_str(group));
            assert(strings_view(names@) =~= strings_view(before).push(group@));
        }
        i = i + 1;
    }
    assert(views.take(schemas@.len() as int) =~= views);
    names
}

/// The versions that the definitions of `group` declare, each once.
fn group_versions_of(schemas: &Vec<SchemaDefinition>, group: &str) -> (r: Vec<String>)
    ensures
        strings_view(r@) == group_versions(definitions_view(schemas@), group@),
{
    let ghost views = definitions_view(schemas@);
    let mut versions: Vec<String> = Vec::new();
    let mut i: usize = 0;
    assert(strings_view(versions@) =~= group_versions(views.take(0), group@));
    while i < schemas.len()
        invariant
            i <= schemas@.len(),
            views == definitions_view(schemas@),
            strings_view(versions@) == group_versions(views.take(i as int), group@),
        decreases schemas@.len() - i,
    {
        proof {
            let next = views.take(i + 1);
            assert(next.drop_last() =~= views.take(i as int));
            assert(next.last() == schemas@[i as int]@);
        }
        if same_text(schemas[i].group(), group) {
            merge_texts(&mut versions, schemas[i].versions());
        }
        i = i + 1;
    }
    assert(views.take(schemas@.len() as int) =~= views);
    versions
}

/// One version of a group, as discovery prints it.
fn discovery_version_of(group: &str, version: &str) -> (r: GroupVersionForDiscovery)
    ensures
        r@ == discovery_version(group@, version@),
{
    GroupVersionForDiscovery {
        group_version: join_group_version(group, version),
        version: String::from_str(version),
    }
}

/// The entry of one group.
fn api_group_of(schemas: &Vec<SchemaDefinition>, group: &str) -> (r: ApiGroup)
    ensures
        r@ == api_group(definitions_view(schemas@), group@),
{
    let versions = group_versions_of(schemas, group);
    let ghost names = strings_view(versions@);
    let mut listed: Vec<GroupVersionForDiscovery> = Vec::new();
    let mut k: usize = 0;
    while k < versions.len()
        invariant
            k <= versions@.len(),
            names == strings_view(versions@),
            listed@.len() == k,
            forall|n: int|
                0 <= n < k ==> (#[trigger] listed@[n])@ == discovery_version(group@, names[n]),
        decreases versions@.len() - k,
    {
        listed.push(discovery_version_of(group, versions[k].as_str()));
        k = k + 1;
    }
    assert(listed@.map_values(|v: GroupVersionForDiscovery| v@) =~= discovery_versions(
        group@,
        names,
    ));
    let preferred_version = if versions.len() > 0 {
        Some(discovery_version_of(group, versions[0].as_str()))
    } else {
        None
    };
    ApiGroup { name: String::from_str(group), preferred_version, versions: listed }
}

/// The discovery entries of all groups that the definitions name.
pub fn build_api_groups(schemas: &Vec<SchemaDefinition>) -> (r: ApiGroupList)
    ensures
        r@ == api_groups(definitions_view(schemas@)),
{
    let ghost views = definitions_view(schemas@);
    let names = group_names_of(schemas);
    let mut groups: Vec<ApiGroup> = Vec::new();
    let mut j: usize = 0;
    while j < names.len()
        invariant
            j <= names@.len(),
            views == definitions_view(schemas@),
            groups@.len() == j,
            forall|n: int| 0 <= n < j ==> (#[trigger] groups@[n])@ == api_group(views, names@[n]@),
        decreases names@.len() - j,
    {
        groups.push(api_group_of(schemas, names[j].as_str()));
        j = j + 1;
    }
    let list = ApiGroupList { groups };
    assert(list@ =~= api_groups(views));
    list
}

/// The verbs that discovery advertises.
fn verbs() -> (r: Vec<String>)
    ensures
        strings_view(r@) == advertised_verbs(),
{
    let mut verbs: Vec<String> = Vec::new();
    verbs.push(String::from_str("delete"));
    verbs.push(String::from_str("deletecollection"));
    verbs.push(String::from_str("get"));
    verbs.push(String::from_str("list"));
    verbs.push(String::from_str("patch"));
    verbs.push(String::from_str("create"));
    verbs.push(String::from_str("update"));
    verbs.push(String::from_str("watch"));
    assert(strings_view(verbs@) =~= advertised_verbs());
    verbs
}

/// What discovery says of one definition's resource type.
fn api_resource_of(schema: &SchemaDefinition) -> (r: ApiResource)
    ensures
        r@ == api_resource(schema@),
{
    ApiResource {
        categories: copy_optional_texts(schema.categories()),
        kind: String::from_str(schema.kind()),
        name: String::from_str(schema.plural_name()),
        namespaced: schema.scope() == Scope::Namespaced,
        short_names: copy_optional_texts(schema.short_names()),
        singular_name: String::from_str(schema.singular_name()),
        verbs: verbs(),
    }
}

/// The discovery document of one group and version: the resource types of the
/// group that are served in the version.
pub fn build_resource_types(group: &str, version: &str, schemas: &Vec<SchemaDefinition>) -> (r:
    ApiResourceList)
    ensures
        r.group_version@ == group_version_text(group@, version@),
        resources_view(r.resources@) == resource_types(
            definitions_view(schemas@),
            group@,
            version@,
        ),
{
    let ghost views = definitions_view(schemas@);
    let ghost wanted = |schema: SchemaDefinitionView|
        schema.group == group@ && schema.serves(version@);
    let ghost describe = |schema: SchemaDefinitionView| api_resource(schema);
    let mut resources: Vec<ApiResource> = Vec::new();
    let mut i: usize = 0;
    proof {
        reveal(Seq::filter);
        assert(resources_view(resources@) =~= views.take(0).filter(wanted).map_values(describe));
    }
    while i < schemas.len()
        invariant
            i <= schemas@.len(),
            views == definitions_view(schemas@),
            wanted == |schema: SchemaDefinitionView|
                schema.group == group@ && schema.serves(version@),
            describe == |schema: SchemaDefinitionView| api_resource(schema),
            resources_view(resources@) == views.take(i as int).filter(wanted).map_values(describe),
        decreases schemas@.len() - i,
    {
        let schema = &schemas[i];
        proof {
            reveal(Seq::filter);
            let next = views.take(i + 1);
            assert(next.drop_last() =~= views.take(i as int));
            assert(next.last() == schema@);
        }
        if same_text(schema.group(), group) && contains_text(schema.versions(), version) {
            let ghost before = resources@;
            let ghost kept = views.take(i as int).filter(wanted);
            resources.push(api_resource_of(schema));
            assert(resources_view(resources@) =~= resources_view(before).push(api_resource(schema@)));
            assert(kept.push(schema@).map_values(describe) =~= kept.map_values(describe).push(
                api_resource(schema@),
            ));
        }
        i = i + 1;
    }
    assert(views.take(schemas@.len() as int) =~= views);
    ApiResourceList { group_version: join_group_version(group, version), resources }
}

/// Merging keeps what was seen in its place, adds nothing twice, and holds
/// exactly what either side holds.
pub proof fn lemma_merged<T>(seen: Seq<T>, more: Seq<T>)
    ensures
        seen.len() <= merged(seen, more).len(),
        forall|i: int| 0 <= i < seen.len() ==> merged(seen, more)[i] == seen[i],
        forall|x: T| merged(seen, more).contains(x) <==> seen.contains(x) || more.contains(x),
        seen.no_duplicates() ==> merged(seen, more).no_duplicates(),
    decreases more.len(),
{
    let all = merged(seen, more);
    if more.len() > 0 {
        let before = merged(seen, more.drop_last());
        let last = more.last();
        lemma_merged(seen, more.drop_last());
        assert forall|x: T| all.contains(x) <==> seen.contains(x) || more.contains(x) by {
            if all.contains(x) {
                let i = choose|i: int| 0 <= i < all.len() && all[i] == x;
                if i < before.len() {
                    assert(before.contains(x));
                    if !seen.contains(x) {
                        let k = choose|k: int|
                            0 <= k < more.drop_last().len() && more.drop_last()[k] == x;
                        assert(more[k] == x);
                    }
                } else {
                    assert(x == last);
                    assert(more[more.len() - 1] == x);
                }
            }
            if seen.contains(x) {
                assert(before.contains(x));
                let i = choose|i: int| 0 <= i < before.len() && before[i] == x;
                assert(all[i] == x);
            }
            if more.contains(x) {
                let k = choose|k: int| 0 <= k < more.len() && more[k] == x;
                if k < more.len() - 1 {
                    assert(more.drop_last()[k] == x);
                    assert(before.contains(x));
                    let i = choose|i: int| 0 <= i < before.len() && before[i] == x;
                    assert(all[i] == x);
                } else if before.contains(x) {
                    let i = choose|i: int| 0 <= i < before.len() && before[i] == x;
                    assert(all[i] == x);
                } else {
                    assert(all[before.len() as int] == x);
                }
            }
        }
        if seen.no_duplicates() && !before.contains(last) {
            assert forall|i: int, j: int| 0 <= i < all.len() && 0 <= j < all.len() && i != j implies all[i]
                != all[j] by {
                if i < before.len() && j < before.len() {
                    assert(before[i] != before[j]);
                } else if i < before.len() {
                    assert(before.contains(before[i]));
                } else {
                    assert(before.contains(before[j]));
                }
            }
        }
    }
}

/// Merging into nothing a list without repetitions gives that list.
pub proof fn lemma_merged_distinct<T>(more: Seq<T>)
    requires
        more.no_duplicates(),
    ensures
        merged(Seq::<T>::empty(), more) == more,
    decreases more.len(),
{
    if more.len() > 0 {
        let rest = more.drop_last();
        lemma_merged_distinct(rest);
        if rest.contains(more.last()) {
            let i = choose|i: int| 0 <= i < rest.len() && rest[i] == more.last();
            assert(more[i] == more[more.len() - 1]);
        }
        assert(rest.push(more.last()) =~= more);
    } else {
        assert(more =~= Seq::<T>::empty());
    }
}

/// Every group that a definition names has one entry, and every entry is the
/// group of a definition.
pub proof fn lemma_group_names(schemas: Seq<SchemaDefinitionView>)
    ensures
        group_names(schemas).no_duplicates(),
        forall|group: Seq<char>|
            group_names(schemas).contains(group) <==> exists|i: int|
                0 <= i < schemas.len() && (#[trigger] schemas[i]).group == group,
    decreases schemas.len(),
{
    if schemas.len() > 0 {
        let rest = schemas.drop_last();
        let added = seq![schemas.last().group];
        lemma_group_names(rest);
        lemma_merged(group_names(rest), added);
        assert forall|group: Seq<char>|
            group_names(schemas).contains(group) <==> exists|i: int|
                0 <= i < schemas.len() && (#[trigger] schemas[i]).group == group by {
            if group_names(rest).contains(group) {
                let i = choose|i: int| 0 <= i < rest.len() && (#[trigger] rest[i]).group == group;
                assert(schemas[i].group == group);
            }
            if added.contains(group) {
                assert(schemas[schemas.len() - 1].group == group);
            }
            if exists|i: int| 0 <= i < schemas.len() && (#[trigger] schemas[i]).group == group {
                let i = choose|i: int|
                    0 <= i < schemas.len() && (#[trigger] schemas[i]).group == group;
                if i < rest.len() {
                    assert(rest[i].group == group);
                } else {
                    assert(added[0] == group);
                }
            }
        }
    }
}

/// The versions of a group's entry are, each once, those that the definitions
/// of the group declare.
pub proof fn lemma_group_versions(schemas: Seq<SchemaDefinitionView>, group: Seq<char>)
    ensures
        group_versions(schemas, group).no_duplicates(),
        forall|version: Seq<char>|
            group_versions(schemas, group).contains(version) <==> exists|i: int|
                0 <= i < schemas.len() && (#[trigger] schemas[i]).group == group
                    && schemas[i].versions.contains(version),
    decreases schemas.len(),
{
    if schemas.len() > 0 {
        let rest = schemas.drop_last();
        let last = schemas.last();
        lemma_group_versions(rest, group);
        lemma_merged(group_versions(rest, group), last.versions);
        assert forall|version: Seq<char>|
            group_versions(schemas, group).contains(version) <==> exists|i: int|
                0 <= i < schemas.len() && (#[trigger] schemas[i]).group == group
                    && schemas[i].versions.contains(version) by {
            if group_versions(rest, group).contains(version) {
                let i = choose|i: int|
                    0 <= i < rest.len() && (#[trigger] rest[i]).group == group
                        && rest[i].versions.contains(version);
                assert(schemas[i].group == group && schemas[i].versions.contains(version));
            }
            if last.group == group && last.versions.contains(version) {
                assert(schemas[schemas.len() - 1].group == group);
            }
            if exists|i: int|
                0 <= i < schemas.len() && (#[trigger] schemas[i]).group == group
                    && schemas[i].versions.contains(version) {
                let i = choose|i: int|
                    0 <= i < schemas.len() && (#[trigger] schemas[i]).group == group
                        && schemas[i].versions.contains(version);
                if i < rest.len() {
                    assert(rest[i].group == group && rest[i].versions.contains(version));
                }
            }
        }
    }
}

/// The preferred version of a group is the first version of the first
/// definition that names the group.
pub proof fn lemma_preferred_version(
    schemas: Seq<SchemaDefinitionView>,
    group: Seq<char>,
    first: int,
)
    requires
        0 <= first < schemas.len(),
        schemas[first].group == group,
        schemas[first].wf(),
        forall|i: int| 0 <= i < first ==> (#[trigger] schemas[i]).group != group,
    ensures
        api_group(schemas, group).preferred_version == Some(
            discovery_version(group, schemas[first].preferred_version()),
        ),
        group_versions(schemas, group).len() > 0,
        group_versions(schemas, group)[0] == schemas[first].versions[0],
    decreases schemas.len(),
{
    let rest = schemas.drop_last();
    let last = schemas.last();
    if first < rest.len() {
        assert(rest[first] == schemas[first]);
        assert forall|i: int| 0 <= i < first implies (#[trigger] rest[i]).group != group by {
            assert(rest[i] == schemas[i]);
        }
        lemma_preferred_version(rest, group, first);
        lemma_merged(group_versions(rest, group), last.versions);
    } else {
        lemma_group_versions(rest, group);
        let before = group_versions(rest, group);
        if before.len() > 0 {
            assert(before.contains(before[0]));
            let i = choose|i: int|
                0 <= i < rest.len() && (#[trigger] rest[i]).group == group
                    && rest[i].versions.contains(before[0]);
            assert(schemas[i].group == group);
        }
        assert(before =~= Seq::<Seq<char>>::empty());
        lemma_merged_distinct(last.versions);
    }
}

/// One registered definition gives one group entry: its versions are those of
/// the definition, in their order, and the first of them is preferred.
pub proof fn lemma_single_definition(schema: SchemaDefinitionView)
    requires
        schema.wf(),
    ensures
        api_groups(seq![schema]) == seq![
            ApiGroupView {
                name: schema.group,
                preferred_version: Some(discovery_version(schema.group, schema.versions[0])),
                versions: discovery_versions(schema.group, schema.versions),
            },
        ],
{
    let schemas = seq![schema];
    assert(schemas.drop_last() =~= Seq::<SchemaDefinitionView>::empty());
    reveal_with_fuel(group_names, 2);
    reveal_with_fuel(group_versions, 2);
    reveal_with_fuel(merged, 2);
    assert(seq![schema.group].drop_last() =~= Seq::<Seq<char>>::empty());
    assert(group_names(schemas) =~= seq![schema.group]);
    lemma_merged_distinct(schema.versions);
    assert(group_versions(schemas, schema.group) == schema.versions);
    assert(api_groups(schemas) =~= seq![api_group(schemas, schema.group)]);
}

/// A registered definition with the single version `version` gives one group
/// entry, whose preferred version and only version is `version`.
pub proof fn lemma_single_version(schema: SchemaDefinitionView, version: Seq<char>)
    requires
        schema.wf(),
        schema.versions == seq![version],
    ensures
        api_groups(seq![schema]) == seq![
            ApiGroupView {
                name: schema.group,
                preferred_version: Some(discovery_version(schema.group, version)),
                versions: seq![discovery_version(schema.group, version)],
            },
        ],
{
    lemma_single_definition(schema);
    assert(discovery_versions(schema.group, schema.versions) =~= seq![
        discovery_version(schema.group, version),
    ]);
}

/// The discovery of all API groups, from what is stored. Where a stored schema
/// definition does not decode, the answer is a `ModelError`.
pub fn list_api_groups<S: Storage>(storage: &S) -> (r: Result<ApiGroupList, StorageError>)
    ensures
        match r {
            Ok(list) => schemas_of_json(schema_documents(storage.store())) matches Some(schemas)
                && list@ == api_groups(schemas),
            Err(StorageError::ModelError(_)) => schemas_of_json(
                schema_documents(storage.store()),
            ) is None,
            Err(StorageError::DatabaseError { .. }) => !storage.reliable(),
        },
{
    match load_schemas(storage) {
        Ok(schemas) => Ok(build_api_groups(&schemas)),
        Err(error) => Err(error),
    }
}

/// The discovery of the resource types of one group and version, from what is
/// stored. Where a stored schema definition does not decode, the answer is a
/// `ModelError`.
pub fn list_resource_types<S: Storage>(group: &str, version: &str, storage: &S) -> (r: Result<
    ApiResourceList,
    StorageError,
>)
    ensures
        match r {
            Ok(list) => schemas_of_json(schema_documents(storage.store())) matches Some(schemas)
                && list.group_version@ == group_version_text(group@, version@) && resources_view(
                list.resources@,
            ) == resource_types(schemas, group@, version@),
            Err(StorageError::ModelError(_)) => schemas_of_json(
                schema_documents(storage.store()),
            ) is None,
            Err(StorageError::DatabaseError { .. }) => !storage.reliable(),
        },
{
    match load_schemas(storage) {
        Ok(schemas) => Ok(build_resource_types(group, version, &schemas)),
        Err(error) => Err(error),
    }
}

} // verus!
