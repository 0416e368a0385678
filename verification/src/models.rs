//! Resource coordinates: the values that name a resource type or one instance
//! of it. A coordinate is checked once, when it is built: its group and its
//! resource type are never empty, nor is its namespace where it has one.

use vstd::prelude::*;
use vstd::std_specs::cmp::PartialEqSpecImpl;
use vstd::std_specs::convert::FromSpecImpl;
use vstd::string::*;

verus! {

/// Has an API group.
pub trait Group {
    spec fn group_view(&self) -> Seq<char>;

    fn group(&self) -> (r: &str)
        ensures
            r@ == self.group_view(),
    ;
}

/// Has a namespace.
pub trait Namespace {
    spec fn namespace_view(&self) -> Seq<char>;

    fn namespace(&self) -> (r: &str)
        ensures
            r@ == self.namespace_view(),
    ;
}

/// Has a version, as a request names it.
pub trait Version {
    spec fn version_view(&self) -> Seq<char>;

    fn version(&self) -> (r: &str)
        ensures
            r@ == self.version_view(),
    ;
}

/// Has a resource type: the plural name under which a kind is served.
pub trait ResourceType {
    spec fn resource_type_view(&self) -> Seq<char>;

    fn resource_type(&self) -> (r: &str)
        ensures
            r@ == self.resource_type_view(),
    ;
}

/// Has the name of one instance.
pub trait Resource {
    spec fn resource_view(&self) -> Seq<char>;

    fn resource(&self) -> (r: &str)
        ensures
            r@ == self.resource_view(),
    ;
}

/// Why a coordinate could not be built.
#[derive(Debug, Clone, Copy, PartialEq, Eq, Structural)]
pub enum CoordinateError {
    EmptyGroup,
    EmptyNamespace,
    EmptyResourceType,
}

/// The first empty part of a coordinate, looking at the group, then the
/// namespace if there is one, then the resource type.
pub open spec fn coordinate_error(
    group: Seq<char>,
    namespace: Option<Seq<char>>,
    resource_type: Seq<char>,
) -> Option<CoordinateError> {
    if group.len() == 0 {
        Some(CoordinateError::EmptyGroup)
    } else if namespace matches Some(n) && n.len() == 0 {
        Some(CoordinateError::EmptyNamespace)
    } else if resource_type.len() == 0 {
        Some(CoordinateError::EmptyResourceType)
    } else {
        None
    }
}

fn check_coordinate(group: &str, namespace: Option<&str>, resource_type: &str) -> (r: Option<
    CoordinateError,
>)
    ensures
        r == coordinate_error(
            group@,
            match namespace {
                Some(n) => Some(n@),
                None => None,
            },
            resource_type@,
        ),
{
    if group.is_empty() {
        return Some(CoordinateError::EmptyGroup);
    }
    if let Some(n) = namespace {
        if n.is_empty() {
            return Some(CoordinateError::EmptyNamespace);
        }
    }
    if resource_type.is_empty() {
        Some(CoordinateError::EmptyResourceType)
    } else {
        None
    }
}

/// A group and a version as one text: the group, a slash, the version.
pub open spec fn group_version_text(group: Seq<char>, version: Seq<char>) -> Seq<char> {
    group + seq!['/'] + version
}

/// Writes a group and a version as one text.
pub fn join_group_version(group: &str, version: &str) -> (r: String)
    ensures
        r@ == group_version_text(group@, version@),
{
    let mut text = String::from_str(group);
    text.append("/");
    text.append(version);
    proof {
        reveal_strlit("/");
    }
    text
}

/// A resource type: an API group and the plural name served under it.
#[derive(Debug, Hash)]
pub struct GroupResourceType {
    group: String,
    resource_type: String,
}

impl GroupResourceType {
    #[verifier::type_invariant]
    spec fn valid(&self) -> bool {
        coordinate_error(self.group@, None, self.resource_type@) is None
    }

    /// Builds the coordinate, or says which part was empty.
    pub fn new(
        group: String,
        resource_type: String,
    ) -> (r: Result<GroupResourceType, CoordinateError>)
        ensures
            match coordinate_error(group@, None, resource_type@) {
                Some(e) => r == Err::<GroupResourceType, CoordinateError>(e),
                None => {
                    &&& r matches Ok(c)
                    &&& c.group_view() == group@
                    &&& c.resource_type_view() == resource_type@
                },
            },
    {
        match check_coordinate(group.as_str(), None, resource_type.as_str()) {
            Some(e) => Err(e),
            None => Ok(GroupResourceType { group, resource_type }),
        }
    }
}

impl Group for GroupResourceType {
    closed spec fn group_view(&self) -> Seq<char> {
        self.group@
    }

    fn group(&self) -> (r: &str) {
        self.group.as_str()
    }
}

impl ResourceType for GroupResourceType {
    closed spec fn resource_type_view(&self) -> Seq<char> {
        self.resource_type@
    }

    fn resource_type(&self) -> (r: &str) {
        self.resource_type.as_str()
    }
}

impl PartialEq for GroupResourceType {
    fn eq(&self, other: &GroupResourceType) -> (r: bool) {
        self.group == other.group
            && self.resource_type == other.resource_type
    }
}

impl Eq for GroupResourceType {
}

impl PartialEqSpecImpl for GroupResourceType {
    open spec fn obeys_eq_spec() -> bool {
        true
    }

    open spec fn eq_spec(&self, other: &GroupResourceType) -> bool {
        &&& self.group_view() == other.group_view()
        &&& self.resource_type_view() == other.resource_type_view()
    }
}

/// One cluster-scoped instance: a resource type and the instance's name.
#[derive(Debug, Hash)]
pub struct GroupResourceTypeResource {
    group: String,
    resource_type: String,
    resource: String,
}

impl GroupResourceTypeResource {
    #[verifier::type_invariant]
    spec fn valid(&self) -> bool {
        coordinate_error(self.group@, None, self.resource_type@) is None
    }

    /// Builds the coordinate, or says which part was empty.
    pub fn new(
        group: String,
        resource_type: String,
        resource: String,
    ) -> (r: Result<GroupResourceTypeResource, CoordinateError>)
        ensures
            match coordinate_error(group@, None, resource_type@) {
                Some(e) => r == Err::<GroupResourceTypeResource, CoordinateError>(e),
                None => {
                    &&& r matches Ok(c)
                    &&& c.group_view() == group@
                    &&& c.resource_type_view() == resource_type@
                    &&& c.resource_view() == resource@
                },
            },
    {
        match check_coordinate(group.as_str(), None, resource_type.as_str()) {
            Some(e) => Err(e),
            None => Ok(GroupResourceTypeResource { group, resource_type, resource }),
        }
    }
}

impl Group for GroupResourceTypeResource {
    closed spec fn group_view(&self) -> Seq<char> {
        self.group@
    }

    fn group(&self) -> (r: &str) {
        self.group.as_str()
    }
}

impl ResourceType for GroupResourceTypeResource {
    closed spec fn resource_type_view(&self) -> Seq<char> {
        self.resource_type@
    }

    fn resource_type(&self) -> (r: &str) {
        self.resource_type.as_str()
    }
}

impl Resource for GroupResourceTypeResource {
    closed spec fn resource_view(&self) -> Seq<char> {
        self.resource@
    }

    fn resource(&self) -> (r: &str) {
        self.resource.as_str()
    }
}

impl PartialEq for GroupResourceTypeResource {
    fn eq(&self, other: &GroupResourceTypeResource) -> (r: bool) {
        self.group == other.group
            && self.resource_type == other.resource_type
            && self.resource == other.resource
    }
}

impl Eq for GroupResourceTypeResource {
}

impl PartialEqSpecImpl for GroupResourceTypeResource {
    open spec fn obeys_eq_spec() -> bool {
        true
    }

    open spec fn eq_spec(&self, other: &GroupResourceTypeResource) -> bool {
        &&& self.group_view() == other.group_view()
        &&& self.resource_type_view() == other.resource_type_view()
        &&& self.resource_view() == other.resource_view()
    }
}

/// A resource type within one namespace.
#[derive(Debug, Hash)]
pub struct GroupNamespaceResourceType {
    group: String,
    namespace: String,
    resource_type: String,
}

impl GroupNamespaceResourceType {
    #[verifier::type_invariant]
    spec fn valid(&self) -> bool {
        coordinate_error(self.group@, Some(self.namespace@), self.resource_type@) is None
    }

    /// Builds the coordinate, or says which part was empty.
    pub fn new(
        group: String,
        namespace: String,
        resource_type: String,
    ) -> (r: Result<GroupNamespaceResourceType, CoordinateError>)
        ensures
            match coordinate_error(group@, Some(namespace@), resource_type@) {
                Some(e) => r == Err::<GroupNamespaceResourceType, CoordinateError>(e),
                None => {
                    &&& r matches Ok(c)
                    &&& c.group_view() == group@
                    &&& c.namespace_view() == namespace@
                    &&& c.resource_type_view() == resource_type@
                },
            },
    {
        match check_coordinate(group.as_str(), Some(namespace.as_str()), resource_type.as_str()) {
            Some(e) => Err(e),
            None => Ok(GroupNamespaceResourceType { group, namespace, resource_type }),
        }
    }
}

impl Group for GroupNamespaceResourceType {
    closed spec fn group_view(&self) -> Seq<char> {
        self.group@
    }

    fn group(&self) -> (r: &str) {
        self.group.as_str()
    }
}

impl Namespace for GroupNamespaceResourceType {
    closed spec fn namespace_view(&self) -> Seq<char> {
        self.namespace@
    }

    fn namespace(&self) -> (r: &str) {
        self.namespace.as_str()
    }
}

impl ResourceType for GroupNamespaceResourceType {
    closed spec fn resource_type_view(&self) -> Seq<char> {
        self.resource_type@
    }

    fn resource_type(&self) -> (r: &str) {
        self.resource_type.as_str()
    }
}

impl PartialEq for GroupNamespaceResourceType {
    fn eq(&self, other: &GroupNamespaceResourceType) -> (r: bool) {
        self.group == other.group
            && self.namespace == other.namespace
            && self.resource_type == other.resource_type
    }
}

impl Eq for GroupNamespaceResourceType {
}

impl PartialEqSpecImpl for GroupNamespaceResourceType {
    open spec fn obeys_eq_spec() -> bool {
        true
    }

    open spec fn eq_spec(&self, other: &GroupNamespaceResourceType) -> bool {
        &&& self.group_view() == other.group_view()
        &&& self.namespace_view() == other.namespace_view()
        &&& self.resource_type_view() == other.resource_type_view()
    }
}

/// A resource type as a request names it, with the version asked for.
#[derive(Debug, Hash)]
pub struct GroupVersionResourceType {
    group: String,
    version: String,
    resource_type: String,
}

impl GroupVersionResourceType {
    #[verifier::type_invariant]
    spec fn valid(&self) -> bool {
        coordinate_error(self.group@, None, self.resource_type@) is None
    }

    /// Builds the coordinate, or says which part was empty.
    pub fn new(
        group: String,
        version: String,
        resource_type: String,
    ) -> (r: Result<GroupVersionResourceType, CoordinateError>)
        ensures
            match coordinate_error(group@, None, resource_type@) {
                Some(e) => r == Err::<GroupVersionResourceType, CoordinateError>(e),
                None => {
                    &&& r matches Ok(c)
                    &&& c.group_view() == group@
                    &&& c.version_view() == version@
                    &&& c.resource_type_view() == resource_type@
                },
            },
    {
        match check_coordinate(group.as_str(), None, resource_type.as_str()) {
            Some(e) => Err(e),
            None => Ok(GroupVersionResourceType { group, version, resource_type }),
        }
    }

    /// The group and the version, joined by a slash, as discovery documents
    /// and list envelopes print them.
    pub fn group_version(&self) -> (r: String)
        ensures
            r@ == group_version_text(self.group_view(), self.version_view()),
    {
        join_group_version(self.group.as_str(), self.version.as_str())
    }
}

impl Group for GroupVersionResourceType {
    closed spec fn group_view(&self) -> Seq<char> {
        self.group@
    }

    fn group(&self) -> (r: &str) {
        self.group.as_str()
    }
}

impl Version for GroupVersionResourceType {
    closed spec fn version_view(&self) -> Seq<char> {
        self.version@
    }

    fn version(&self) -> (r: &str) {
        self.version.as_str()
    }
}

impl ResourceType for GroupVersionResourceType {
    closed spec fn resource_type_view(&self) -> Seq<char> {
        self.resource_type@
    }

    fn resource_type(&self) -> (r: &str) {
        self.resource_type.as_str()
    }
}

impl PartialEq for GroupVersionResourceType {
    fn eq(&self, other: &GroupVersionResourceType) -> (r: bool) {
        self.group == other.group
            && self.version == other.version
            && self.resource_type == other.resource_type
    }
}

impl Eq for GroupVersionResourceType {
}

impl PartialEqSpecImpl for GroupVersionResourceType {
    open spec fn obeys_eq_spec() -> bool {
        true
    }

    open spec fn eq_spec(&self, other: &GroupVersionResourceType) -> bool {
        &&& self.group_view() == other.group_view()
        &&& self.version_view() == other.version_view()
        &&& self.resource_type_view() == other.resource_type_view()
    }
}

/// One namespace-scoped instance.
#[derive(Debug, Hash)]
pub struct GroupNamespaceResourceTypeResource {
    group: String,
    namespace: String,
    resource_type: String,
    resource: String,
}

impl GroupNamespaceResourceTypeResource {
    #[verifier::type_invariant]
    spec fn valid(&self) -> bool {
        coordinate_error(self.group@, Some(self.namespace@), self.resource_type@) is None
    }

    /// Builds the coordinate, or says which part was empty.
    pub fn new(
        group: String,
        namespace: String,
        resource_type: String,
        resource: String,
    ) -> (r: Result<GroupNamespaceResourceTypeResource, CoordinateError>)
        ensures
            match coordinate_error(group@, Some(namespace@), resource_type@) {
                Some(e) => r == Err::<GroupNamespaceResourceTypeResource, CoordinateError>(e),
                None => {
                    &&& r matches Ok(c)
                    &&& c.group_view() == group@
                    &&& c.namespace_view() == namespace@
                    &&& c.resource_type_view() == resource_type@
                    &&& c.resource_view() == resource@
                },
            },
    {
        match check_coordinate(group.as_str(), Some(namespace.as_str()), resource_type.as_str()) {
            Some(e) => Err(e),
            None => Ok(GroupNamespaceResourceTypeResource { group, namespace, resource_type, resource }),
        }
    }
}

impl Group for GroupNamespaceResourceTypeResource {
    closed spec fn group_view(&self) -> Seq<char> {
        self.group@
    }

    fn group(&self) -> (r: &str) {
        self.group.as_str()
    }
}

impl Namespace for GroupNamespaceResourceTypeResource {
    closed spec fn namespace_view(&self) -> Seq<char> {
        self.namespace@
    }

    fn namespace(&self) -> (r: &str) {
        self.namespace.as_str()
    }
}

impl ResourceType for GroupNamespaceResourceTypeResource {
    closed spec fn resource_type_view(&self) -> Seq<char> {
        self.resource_type@
    }

    fn resource_type(&self) -> (r: &str) {
        self.resource_type.as_str()
    }
}

impl Resource for GroupNamespaceResourceTypeResource {
    closed spec fn resource_view(&self) -> Seq<char> {
        self.resource@
    }

    fn resource(&self) -> (r: &str) {
        self.resource.as_str()
    }
}

impl PartialEq for GroupNamespaceResourceTypeResource {
    fn eq(&self, other: &GroupNamespaceResourceTypeResource) -> (r: bool) {
        self.group == other.group
            && self.namespace == other.namespace
            && self.resource_type == other.resource_type
            && self.resource == other.resource
    }
}

impl Eq for GroupNamespaceResourceTypeResource {
}

impl PartialEqSpecImpl for GroupNamespaceResourceTypeResource {
    open spec fn obeys_eq_spec() -> bool {
        true
    }

    open spec fn eq_spec(&self, other: &GroupNamespaceResourceTypeResource) -> bool {
        &&& self.group_view() == other.group_view()
        &&& self.namespace_view() == other.namespace_view()
        &&& self.resource_type_view() == other.resource_type_view()
        &&& self.resource_view() == other.resource_view()
    }
}

/// A namespaced resource type as a request names it, with the version asked for.
#[derive(Debug, Hash)]
pub struct GroupVersionNamespaceResourceType {
    group: String,
    version: String,
    namespace: String,
    resource_type: String,
}

impl GroupVersionNamespaceResourceType {
    #[verifier::type_invariant]
    spec fn valid(&self) -> bool {
        coordinate_error(self.group@, Some(self.namespace@), self.resource_type@) is None
    }

    /// Builds the coordinate, or says which part was empty.
    pub fn new(
        group: String,
        version: String,
        namespace: String,
        resource_type: String,
    ) -> (r: Result<GroupVersionNamespaceResourceType, CoordinateError>)
        ensures
            match coordinate_error(group@, Some(namespace@), resource_type@) {
                Some(e) => r == Err::<GroupVersionNamespaceResourceType, CoordinateError>(e),
                None => {
                    &&& r matches Ok(c)
                    &&& c.group_view() == group@
                    &&& c.version_view() == version@
                    &&& c.namespace_view() == namespace@
                    &&& c.resource_type_view() == resource_type@
                },
            },
    {
        match check_coordinate(group.as_str(), Some(namespace.as_str()), resource_type.as_str()) {
            Some(e) => Err(e),
            None => Ok(GroupVersionNamespaceResourceType { group, version, namespace, resource_type }),
        }
    }

    /// The group and the version, joined by a slash, as discovery documents
    /// and list envelopes print them.
    pub fn group_version(&self) -> (r: String)
        ensures
            r@ == group_version_text(self.group_view(), self.version_view()),
    {
        join_group_version(self.group.as_str(), self.version.as_str())
    }
}

impl Group for GroupVersionNamespaceResourceType {
    closed spec fn group_view(&self) -> Seq<char> {
        self.group@
    }

    fn group(&self) -> (r: &str) {
        self.group.as_str()
    }
}

impl Version for GroupVersionNamespaceResourceType {
    closed spec fn version_view(&self) -> Seq<char> {
        self.version@
    }

    fn version(&self) -> (r: &str) {
        self.version.as_str()
    }
}

impl Namespace for GroupVersionNamespaceResourceType {
    closed spec fn namespace_view(&self) -> Seq<char> {
        self.namespace@
    }

    fn namespace(&self) -> (r: &str) {
        self.namespace.as_str()
    }
}

impl ResourceType for GroupVersionNamespaceResourceType {
    closed spec fn resource_type_view(&self) -> Seq<char> {
        self.resource_type@
    }

    fn resource_type(&self) -> (r: &str) {
        self.resource_type.as_str()
    }
}

impl PartialEq for GroupVersionNamespaceResourceType {
    fn eq(&self, other: &GroupVersionNamespaceResourceType) -> (r: bool) {
        self.group == other.group
            && self.version == other.version
            && self.namespace == other.namespace
            && self.resource_type == other.resource_type
    }
}

impl Eq for GroupVersionNamespaceResourceType {
}

impl PartialEqSpecImpl for GroupVersionNamespaceResourceType {
    open spec fn obeys_eq_spec() -> bool {
        true
    }

    open spec fn eq_spec(&self, other: &GroupVersionNamespaceResourceType) -> bool {
        &&& self.group_view() == other.group_view()
        &&& self.version_view() == other.version_view()
        &&& self.namespace_view() == other.namespace_view()
        &&& self.resource_type_view() == other.resource_type_view()
    }
}

/// One cluster-scoped instance as a request names it, with the version asked for.
#[derive(Debug, Hash)]
pub struct GroupVersionResourceTypeResource {
    group: String,
    version: String,
    resource_type: String,
    resource: String,
}

impl GroupVersionResourceTypeResource {
    #[verifier::type_invariant]
    spec fn valid(&self) -> bool {
        coordinate_error(self.group@, None, self.resource_type@) is None
    }

    /// Builds the coordinate, or says which part was empty.
    pub fn new(
        group: String,
        version: String,
        resource_type: String,
        resource: String,
    ) -> (r: Result<GroupVersionResourceTypeResource, CoordinateError>)
        ensures
            match coordinate_error(group@, None, resource_type@) {
                Some(e) => r == Err::<GroupVersionResourceTypeResource, CoordinateError>(e),
                None => {
                    &&& r matches Ok(c)
                    &&& c.group_view() == group@
                    &&& c.version_view() == version@
                    &&& c.resource_type_view() == resource_type@
                    &&& c.resource_view() == resource@
                },
            },
    {
        match check_coordinate(group.as_str(), None, resource_type.as_str()) {
            Some(e) => Err(e),
            None => Ok(GroupVersionResourceTypeResource { group, version, resource_type, resource }),
        }
    }

    /// The group and the version, joined by a slash, as discovery documents
    /// and list envelopes print them.
    pub fn group_version(&self) -> (r: String)
        ensures
            r@ == group_version_text(self.group_view(), self.version_view()),
    {
        join_group_version(self.group.as_str(), self.version.as_str())
    }
}

impl Group for GroupVersionResourceTypeResource {
    closed spec fn group_view(&self) -> Seq<char> {
        self.group@
    }

    fn group(&self) -> (r: &str) {
        self.group.as_str()
    }
}

impl Version for GroupVersionResourceTypeResource {
    closed spec fn version_view(&self) -> Seq<char> {
        self.version@
    }

    fn version(&self) -> (r: &str) {
        self.version.as_str()
    }
}

impl ResourceType for GroupVersionResourceTypeResource {
    closed spec fn resource_type_view(&self) -> Seq<char> {
        self.resource_type@
    }

    fn resource_type(&self) -> (r: &str) {
        self.resource_type.as_str()
    }
}

impl Resource for GroupVersionResourceTypeResource {
    closed spec fn resource_view(&self) -> Seq<char> {
        self.resource@
    }

    fn resource(&self) -> (r: &str) {
        self.resource.as_str()
    }
}

impl PartialEq for GroupVersionResourceTypeResource {
    fn eq(&self, other: &GroupVersionResourceTypeResource) -> (r: bool) {
        self.group == other.group
            && self.version == other.version
            && self.resource_type == other.resource_type
            && self.resource == other.resource
    }
}

impl Eq for GroupVersionResourceTypeResource {
}

impl PartialEqSpecImpl for GroupVersionResourceTypeResource {
    open spec fn obeys_eq_spec() -> bool {
        true
    }

    open spec fn eq_spec(&self, other: &GroupVersionResourceTypeResource) -> bool {
        &&& self.group_view() == other.group_view()
        &&& self.version_view() == other.version_view()
        &&& self.resource_type_view() == other.resource_type_view()
        &&& self.resource_view() == other.resource_view()
    }
}

/// One namespace-scoped instance as a request names it, with the version asked for.
#[derive(Debug, Hash)]
pub struct GroupVersionNamespaceResourceTypeResource {
    group: String,
    version: String,
    namespace: String,
    resource_type: String,
    resource: String,
}

impl GroupVersionNamespaceResourceTypeResource {
    #[verifier::type_invariant]
    spec fn valid(&self) -> bool {
        coordinate_error(self.group@, Some(self.namespace@), self.resource_type@) is None
    }

    /// Builds the coordinate, or says which part was empty.
    pub fn new(
        group: String,
        version: String,
        namespace: String,
        resource_type: String,
        resource: String,
    ) -> (r: Result<GroupVersionNamespaceResourceTypeResource, CoordinateError>)
        ensures
            match coordinate_error(group@, Some(namespace@), resource_type@) {
                Some(e) => r == Err::<GroupVersionNamespaceResourceTypeResource, CoordinateError>(e),
                None => {
                    &&& r matches Ok(c)
                    &&& c.group_view() == group@
                    &&& c.version_view() == version@
                    &&& c.namespace_view() == namespace@
                    &&& c.resource_type_view() == resource_type@
                    &&& c.resource_view() == resource@
                },
            },
    {
        match check_coordinate(group.as_str(), Some(namespace.as_str()), resource_type.as_str()) {
            Some(e) => Err(e),
            None => Ok(GroupVersionNamespaceResourceTypeResource { group, version, namespace, resource_type, resource }),
        }
    }

    /// The group and the version, joined by a slash, as discovery documents
    /// and list envelopes print them.
    pub fn group_version(&self) -> (r: String)
        ensures
            r@ == group_version_text(self.group_view(), self.version_view()),
    {
        join_group_version(self.group.as_str(), self.version.as_str())
    }
}

impl Group for GroupVersionNamespaceResourceTypeResource {
    closed spec fn group_view(&self) -> Seq<char> {
        self.group@
    }

    fn group(&self) -> (r: &str) {
        self.group.as_str()
    }
}

impl Version for GroupVersionNamespaceResourceTypeResource {
    closed spec fn version_view(&self) -> Seq<char> {
        self.version@
    }

    fn version(&self) -> (r: &str) {
        self.version.as_str()
    }
}

impl Namespace for GroupVersionNamespaceResourceTypeResource {
    closed spec fn namespace_view(&self) -> Seq<char> {
        self.namespace@
    }

    fn namespace(&self) -> (r: &str) {
        self.namespace.as_str()
    }
}

impl ResourceType for GroupVersionNamespaceResourceTypeResource {
    closed spec fn resource_type_view(&self) -> Seq<char> {
        self.resource_type@
    }

    fn resource_type(&self) -> (r: &str) {
        self.resource_type.as_str()
    }
}

impl Resource for GroupVersionNamespaceResourceTypeResource {
    closed spec fn resource_view(&self) -> Seq<char> {
        self.resource@
    }

    fn resource(&self) -> (r: &str) {
        self.resource.as_str()
    }
}

impl PartialEq for GroupVersionNamespaceResourceTypeResource {
    fn eq(&self, other: &GroupVersionNamespaceResourceTypeResource) -> (r: bool) {
        self.group == other.group
            && self.version == other.version
            && self.namespace == other.namespace
            && self.resource_type == other.resource_type
            && self.resource == other.resource
    }
}

impl Eq for GroupVersionNamespaceResourceTypeResource {
}

impl PartialEqSpecImpl for GroupVersionNamespaceResourceTypeResource {
    open spec fn obeys_eq_spec() -> bool {
        true
    }

    open spec fn eq_spec(&self, other: &GroupVersionNamespaceResourceTypeResource) -> bool {
        &&& self.group_view() == other.group_view()
        &&& self.version_view() == other.version_view()
        &&& self.namespace_view() == other.namespace_view()
        &&& self.resource_type_view() == other.resource_type_view()
        &&& self.resource_view() == other.resource_view()
    }
}

impl GroupVersionResourceType {
    /// The resource type that the request names, its version left out.
    pub fn group_resource_type(&self) -> (r: GroupResourceType)
        ensures
            r.group_view() == self.group_view(),
            r.resource_type_view() == self.resource_type_view(),
    {
        proof {
            use_type_invariant(self);
        }
        GroupResourceType { group: self.group.clone(), resource_type: self.resource_type.clone() }
    }

    /// The coordinate of the instance of this resource type that is called
    /// `resource`.
    pub fn instance(&self, resource: &str) -> (r: GroupResourceTypeResource)
        ensures
            r.group_view() == self.group_view(),
            r.resource_type_view() == self.resource_type_view(),
            r.resource_view() == resource@,
    {
        proof {
            use_type_invariant(self);
        }
        GroupResourceTypeResource {
            group: self.group.clone(),
            resource_type: self.resource_type.clone(),
            resource: String::from_str(resource),
        }
    }
}

impl GroupVersionNamespaceResourceType {
    /// The resource type that the request names, version and namespace left out.
    pub fn group_resource_type(&self) -> (r: GroupResourceType)
        ensures
            r.group_view() == self.group_view(),
            r.resource_type_view() == self.resource_type_view(),
    {
        proof {
            use_type_invariant(self);
        }
        GroupResourceType { group: self.group.clone(), resource_type: self.resource_type.clone() }
    }

    /// The coordinate of the instance of this resource type that is called
    /// `resource`, in the namespace of the request.
    pub fn instance(&self, resource: &str) -> (r: GroupNamespaceResourceTypeResource)
        ensures
            r.group_view() == self.group_view(),
            r.namespace_view() == self.namespace_view(),
            r.resource_type_view() == self.resource_type_view(),
            r.resource_view() == resource@,
    {
        proof {
            use_type_invariant(self);
        }
        GroupNamespaceResourceTypeResource {
            group: self.group.clone(),
            namespace: self.namespace.clone(),
            resource_type: self.resource_type.clone(),
            resource: String::from_str(resource),
        }
    }
}

impl From<GroupVersionResourceType> for GroupResourceType {
    fn from(gvk: GroupVersionResourceType) -> (r: GroupResourceType) {
        proof {
            use_type_invariant(&gvk);
        }
        GroupResourceType { group: gvk.group, resource_type: gvk.resource_type }
    }
}

impl FromSpecImpl<GroupVersionResourceType> for GroupResourceType {
    open spec fn obeys_from_spec() -> bool {
        true
    }

    open spec fn from_spec(gvk: GroupVersionResourceType) -> GroupResourceType {
        resource_type_of(gvk)
    }
}

/// The resource type that a request names, its version left out.
pub closed spec fn resource_type_of(gvk: GroupVersionResourceType) -> GroupResourceType {
    GroupResourceType { group: gvk.group, resource_type: gvk.resource_type }
}

/// Leaving the version out keeps the group and the resource type.
pub proof fn lemma_resource_type_of(gvk: GroupVersionResourceType)
    ensures
        resource_type_of(gvk).group_view() == gvk.group_view(),
        resource_type_of(gvk).resource_type_view() == gvk.resource_type_view(),
{
}

} // verus!
