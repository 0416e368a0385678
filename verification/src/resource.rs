//! Resource instances and the envelopes in which they are answered.
//!
//! An instance is a JSON document whose shape only its schema knows. The library
//! reads its metadata and carries the document along as bytes.

use crate::text::optional_view;
use vstd::prelude::*;
use vstd::slice::slice_to_vec;
use vstd::string::*;

verus! {

/// What the library reads of an instance's metadata.
#[derive(Debug)]
pub struct ObjectMeta {
    pub name: Option<String>,
    pub namespace: Option<String>,
}

/// Metadata as plain values.
pub struct ObjectMetaView {
    pub name: Option<Seq<char>>,
    pub namespace: Option<Seq<char>>,
}

impl View for ObjectMeta {
    type V = ObjectMetaView;

    open spec fn view(&self) -> ObjectMetaView {
        ObjectMetaView { name: optional_view(self.name), namespace: optional_view(self.namespace) }
    }
}

/// Metadata that may have been decoded, as plain values.
pub open spec fn metadata_view(metadata: Option<ObjectMeta>) -> Option<ObjectMetaView> {
    match metadata {
        Some(m) => Some(m@),
        None => None,
    }
}

/// A JSON value of `serde_json`.
#[verifier::external_type_specification]
#[verifier::external_body]
pub struct ExValue(serde_json::Value);

/// A JSON object of `serde_json`: its members by their keys.
#[verifier::external_type_specification]
#[verifier::external_body]
#[verifier::reject_recursive_types(K)]
#[verifier::reject_recursive_types(V)]
pub struct ExMap<K, V>(serde_json::Map<K, V>);

/// What decoding the bytes as a JSON object gives: `None` where they are no
/// JSON text, or one of another kind than an object.
pub uninterp spec fn parsed_object(body: Seq<u8>) -> Option<
    serde_json::Map<String, serde_json::Value>,
>;

/// The member that a JSON object holds under a key, if it holds one.
pub uninterp spec fn member_of(
    object: serde_json::Map<String, serde_json::Value>,
    key: Seq<char>,
) -> Option<serde_json::Value>;

/// What decoding a JSON value as metadata gives: `None` where the value has
/// not the shape of metadata.
pub uninterp spec fn metadata_of_value(value: serde_json::Value) -> Option<ObjectMetaView>;

/// Decodes bytes as a JSON object. The call is `serde_json::from_slice`, at
/// the type `serde_json::Map`. Trusted: that the result is a function of the
/// bytes alone, which `parsed_object` names.
#[verifier::external_body]
fn parse_object(body: &[u8]) -> (r: Option<serde_json::Map<String, serde_json::Value>>)
    ensures
        r == parsed_object(body@),
{
    serde_json::from_slice(body).ok()
}

/// Takes the member under a key out of a JSON object. The call is
/// `serde_json::Map::remove`. Trusted: that the result is a function of the
/// object and the key alone, which `member_of` names.
#[verifier::external_body]
fn take_member(object: serde_json::Map<String, serde_json::Value>, key: &str) -> (r: Option<
    serde_json::Value,
>)
    ensures
        r == member_of(object, key@),
{
    let mut object = object;
    object.remove(key)
}

/// Decodes a JSON value as metadata. The call is `serde_json::from_value`, at
/// the type `ObjectMeta` of `k8s_openapi`, of which name and namespace are
/// moved out. Trusted: that the result is a function of the value alone, which
/// `metadata_of_value` names.
#[verifier::external_body]
fn decode_object_meta(value: serde_json::Value) -> (r: Option<ObjectMeta>)
    ensures
        metadata_view(r) == metadata_of_value(value),
{
    let metadata: k8s_openapi::apimachinery::pkg::apis::meta::v1::ObjectMeta =
        serde_json::from_value(value).ok()?;
    Some(ObjectMeta { name: metadata.name, namespace: metadata.namespace })
}

/// What decoding the bytes as a resource document gives of its metadata: that
/// of the member `metadata` of the JSON object that the bytes hold. `None`
/// where they hold no JSON object, or the object no such member, or the member
/// has not the shape of metadata.
pub open spec fn decoded_metadata(body: Seq<u8>) -> Option<ObjectMetaView> {
    match parsed_object(body) {
        None => None,
        Some(object) => match member_of(object, "metadata"@) {
            None => None,
            Some(value) => metadata_of_value(value),
        },
    }
}

/// Decodes the metadata of a resource document.
fn decode_metadata(body: &[u8]) -> (r: Option<ObjectMeta>)
    ensures
        metadata_view(r) == decoded_metadata(body@),
{
    match parse_object(body) {
        None => None,
        Some(object) => match take_member(object, "metadata") {
            None => None,
            Some(value) => decode_object_meta(value),
        },
    }
}

/// A resource instance: its metadata, and the whole document as it was received.
#[derive(Debug)]
pub struct BaseResource {
    pub metadata: ObjectMeta,
    pub document: Vec<u8>,
}

/// A resource instance as plain values.
pub struct BaseResourceView {
    pub metadata: ObjectMetaView,
    pub document: Seq<u8>,
}

impl View for BaseResource {
    type V = BaseResourceView;

    open spec fn view(&self) -> BaseResourceView {
        BaseResourceView { metadata: self.metadata@, document: self.document@ }
    }
}

/// An instance that may have been decoded, as plain values.
pub open spec fn resource_view(resource: Option<BaseResource>) -> Option<BaseResourceView> {
    match resource {
        Some(r) => Some(r@),
        None => None,
    }
}

/// Instances as plain values.
pub open spec fn resources_view(resources: Seq<BaseResource>) -> Seq<BaseResourceView> {
    resources.map_values(|resource: BaseResource| resource@)
}

/// The instances that documents stand for, if each of them decodes.
pub open spec fn resources_of_json(documents: Seq<Seq<u8>>) -> Option<Seq<BaseResourceView>> {
    if forall|i: int| 0 <= i < documents.len() ==> resource_of_json(#[trigger] documents[i]) is Some {
        Some(documents.map_values(|json: Seq<u8>| resource_of_json(json).unwrap()))
    } else {
        None
    }
}

/// The instance that the bytes of a document stand for, if they decode.
pub open spec fn resource_of_json(body: Seq<u8>) -> Option<BaseResourceView> {
    match decoded_metadata(body) {
        Some(metadata) => Some(BaseResourceView { metadata, document: body }),
        None => None,
    }
}

/// The name under which an instance may be stored: the one in its metadata,
/// unless it is missing or empty.
pub open spec fn storable_name(metadata: ObjectMetaView) -> Option<Seq<char>> {
    match metadata.name {
        Some(name) => if name.len() > 0 {
            Some(name)
        } else {
            None
        },
        None => None,
    }
}

fn copy_optional(text: &Option<String>) -> (r: Option<String>)
    ensures
        optional_view(r) == optional_view(*text),
{
    match text {
        Some(t) => Some(t.clone()),
        None => None,
    }
}

impl Clone for ObjectMeta {
    fn clone(&self) -> (r: ObjectMeta)
        ensures
            r@ == self@,
    {
        ObjectMeta { name: copy_optional(&self.name), namespace: copy_optional(&self.namespace) }
    }
}

impl Clone for BaseResource {
    fn clone(&self) -> (r: BaseResource)
        ensures
            r@ == self@,
    {
        BaseResource::new(self.metadata.clone(), self.document.as_slice())
    }
}

impl ObjectMeta {
    /// The name under which the instance may be stored, if it has one.
    pub fn storable_name(&self) -> (r: Option<&str>)
        ensures
            match r {
                Some(name) => storable_name(self@) == Some(name@),
                None => storable_name(self@) is None,
            },
    {
        match &self.name {
            Some(name) => if name.as_str().is_empty() {
                None
            } else {
                Some(name.as_str())
            },
            None => None,
        }
    }
}

impl BaseResource {
    /// The instance with the given metadata and document.
    pub fn new(metadata: ObjectMeta, document: &[u8]) -> (r: BaseResource)
        ensures
            r@ == (BaseResourceView { metadata: metadata@, document: document@ }),
    {
        BaseResource { metadata, document: slice_to_vec(document) }
    }

    /// Decodes a document.
    pub fn from_json(body: &[u8]) -> (r: Option<BaseResource>)
        ensures
            resource_view(r) == resource_of_json(body@),
    {
        match decode_metadata(body) {
            Some(metadata) => Some(BaseResource::new(metadata, body)),
            None => None,
        }
    }
}

/// Has metadata.
pub trait Metadata {
    spec fn metadata_spec(&self) -> ObjectMeta;

    /// The metadata of this value.
    fn metadata(&self) -> (r: &ObjectMeta)
        ensures
            *r == self.metadata_spec(),
    ;

    /// The metadata of this value, to be changed in place: the value then has
    /// the metadata that the borrow is left with.
    fn metadata_mut(&mut self) -> (r: &mut ObjectMeta)
        ensures
            *r == old(self).metadata_spec(),
            final(self).metadata_spec() == *final(r),
    ;
}

impl Metadata for BaseResource {
    open spec fn metadata_spec(&self) -> ObjectMeta {
        self.metadata
    }

    fn metadata(&self) -> (r: &ObjectMeta) {
        &self.metadata
    }

    fn metadata_mut(&mut self) -> (r: &mut ObjectMeta)
        ensures
            final(self).document == old(self).document,
    {
        &mut self.metadata
    }
}

/// The metadata of a list, none of which this server fills in.
#[derive(Debug)]
pub struct ListMeta {
    pub continue_: Option<String>,
    pub remaining_item_count: Option<i64>,
    pub resource_version: Option<String>,
    pub self_link: Option<String>,
}

/// The metadata of a list as plain values.
pub struct ListMetaView {
    pub continue_: Option<Seq<char>>,
    pub remaining_item_count: Option<i64>,
    pub resource_version: Option<Seq<char>>,
    pub self_link: Option<Seq<char>>,
}

impl ListMetaView {
    /// The metadata that says nothing.
    pub open spec fn empty() -> ListMetaView {
        ListMetaView {
            continue_: None,
            remaining_item_count: None,
            resource_version: None,
            self_link: None,
        }
    }
}

impl View for ListMeta {
    type V = ListMetaView;

    open spec fn view(&self) -> ListMetaView {
        ListMetaView {
            continue_: optional_view(self.continue_),
            remaining_item_count: self.remaining_item_count,
            resource_version: optional_view(self.resource_version),
            self_link: optional_view(self.self_link),
        }
    }
}

impl Default for ListMeta {
    fn default() -> (r: ListMeta)
        ensures
            r@ == ListMetaView::empty(),
    {
        ListMeta {
            continue_: None,
            remaining_item_count: None,
            resource_version: None,
            self_link: None,
        }
    }
}

/// The envelope in which a listing is answered.
#[derive(Debug)]
pub struct List<T> {
    /// The group and version that were asked for, joined by a slash.
    pub api_version: String,
    pub items: Vec<T>,
    /// The kind of the items, as their schema definition names it.
    pub kind: String,
    pub metadata: ListMeta,
}

/// A list envelope as plain values.
pub struct ListView<V> {
    pub api_version: Seq<char>,
    pub items: Seq<V>,
    pub kind: Seq<char>,
    pub metadata: ListMetaView,
}

impl<T: View> View for List<T> {
    type V = ListView<T::V>;

    open spec fn view(&self) -> ListView<T::V> {
        ListView {
            api_version: self.api_version@,
            items: self.items@.map_values(|item: T| item@),
            kind: self.kind@,
            metadata: self.metadata@,
        }
    }
}

/// What a request for a listing may ask for besides.
#[derive(Debug, Clone, Copy)]
pub struct ListOptions {
    /// Whether a change feed is wanted in place of the listing.
    pub watch: Option<bool>,
}

impl ListOptions {
    /// Whether the request asks for a change feed: only where `watch` is given
    /// and true.
    pub fn wants_watch(&self) -> (r: bool)
        ensures
            r == (self.watch == Some(true)),
    {
        match self.watch {
            Some(watch) => watch,
            None => false,
        }
    }
}

} // verus!
