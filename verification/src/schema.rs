//! Schema definitions: the registered descriptions of resource types.
//!
//! A definition arrives as a JSON document. Decoding is left to `serde_json`
//! and to the document type of `k8s_openapi`; what the document must say for the
//! definition to be accepted is checked here.

use crate::text::{all_distinct, joined, optional_strings_view, optional_view, same_text, strings_view};
use k8s_openapi::apiextensions_apiserver::pkg::apis::apiextensions::v1::CustomResourceDefinition;
use vstd::prelude::*;
use vstd::string::*;

verus! {

/// Whether instances live cluster-wide or inside namespaces.
#[derive(Debug, Clone, Copy, PartialEq, Eq, Structural)]
pub enum Scope {
    Cluster,
    Namespaced,
}

/// What a schema document says, decoded and not yet checked.
#[derive(Debug)]
pub struct SchemaDocument {
    pub group: String,
    pub kind: String,
    pub plural: String,
    pub singular: Option<String>,
    pub short_names: Option<Vec<String>>,
    pub categories: Option<Vec<String>>,
    pub scope: String,
    /// The names of the versions, in the order of their declaration.
    pub versions: Vec<String>,
}

/// A schema document as plain values.
pub struct SchemaDocumentView {
    pub group: Seq<char>,
    pub kind: Seq<char>,
    pub plural: Seq<char>,
    pub singular: Option<Seq<char>>,
    pub short_names: Option<Seq<Seq<char>>>,
    pub categories: Option<Seq<Seq<char>>>,
    pub scope: Seq<char>,
    pub versions: Seq<Seq<char>>,
}

impl View for SchemaDocument {
    type V = SchemaDocumentView;

    open spec fn view(&self) -> SchemaDocumentView {
        SchemaDocumentView {
            group: self.group@,
            kind: self.kind@,
            plural: self.plural@,
            singular: optional_view(self.singular),
            short_names: optional_strings_view(self.short_names),
            categories: optional_strings_view(self.categories),
            scope: self.scope@,
            versions: strings_view(self.versions@),
        }
    }
}

/// A document that may have been decoded, as plain values.
pub open spec fn decoded_view(document: Option<SchemaDocument>) -> Option<SchemaDocumentView> {
    match document {
        Some(d) => Some(d@),
        None => None,
    }
}

/// What decoding the bytes as a schema document gives: `None` where they are no
/// JSON text of that shape.
pub uninterp spec fn decoded_schema(body: Seq<u8>) -> Option<SchemaDocumentView>;

/// Decodes a schema document. The call is `serde_json::from_slice`, at the type
/// `CustomResourceDefinition` of `k8s_openapi`; the fields that this library reads
/// are moved out of the result, the versions by their names. Trusted: that the
/// result is a function of the bytes alone, which `decoded_schema` names.
#[verifier::external_body]
fn decode_schema_document(body: &[u8]) -> (r: Option<SchemaDocument>)
    ensures
        decoded_view(r) == decoded_schema(body@),
{
    let crd: CustomResourceDefinition = serde_json::from_slice(body).ok()?;
    Some(SchemaDocument {
        group: crd.spec.group,
        kind: crd.spec.names.kind,
        plural: crd.spec.names.plural,
        singular: crd.spec.names.singular,
        short_names: crd.spec.names.short_names,
        categories: crd.spec.names.categories,
        scope: crd.spec.scope,
        versions: crd.spec.versions.into_iter().map(|version| version.name).collect(),
    })
}

/// Why a schema document is not accepted.
#[derive(Debug, Clone, Copy, PartialEq, Eq, Structural)]
pub enum SchemaError {
    /// The bytes are no schema document.
    Malformed,
    EmptyGroup,
    EmptyKind,
    EmptyPluralName,
    /// The scope is neither `Cluster` nor `Namespaced`.
    UnknownScope,
    NoVersions,
    /// Two versions have one name.
    DuplicateVersion,
}

/// The scope that a document's text names, if it names one.
pub open spec fn scope_of(text: Seq<char>) -> Option<Scope> {
    if text == "Cluster"@ {
        Some(Scope::Cluster)
    } else if text == "Namespaced"@ {
        Some(Scope::Namespaced)
    } else {
        None
    }
}

/// The first rule that a document breaks, in the order: group, kind and plural
/// name are not empty; the scope is known; there is a version; no two versions
/// share a name.
pub open spec fn schema_error(document: SchemaDocumentView) -> Option<SchemaError> {
    if document.group.len() == 0 {
        Some(SchemaError::EmptyGroup)
    } else if document.kind.len() == 0 {
        Some(SchemaError::EmptyKind)
    } else if document.plural.len() == 0 {
        Some(SchemaError::EmptyPluralName)
    } else if scope_of(document.scope) is None {
        Some(SchemaError::UnknownScope)
    } else if document.versions.len() == 0 {
        Some(SchemaError::NoVersions)
    } else if !document.versions.no_duplicates() {
        Some(SchemaError::DuplicateVersion)
    } else {
        None
    }
}

/// A schema definition as plain values.
pub struct SchemaDefinitionView {
    pub group: Seq<char>,
    pub kind: Seq<char>,
    pub plural_name: Seq<char>,
    pub singular_name: Seq<char>,
    /// The short names, where the document gives any.
    pub short_names: Option<Seq<Seq<char>>>,
    /// The categories, where the document gives any.
    pub categories: Option<Seq<Seq<char>>>,
    pub scope: Scope,
    pub versions: Seq<Seq<char>>,
}

impl SchemaDefinitionView {
    /// What every definition meets: group, kind and plural name are not empty,
    /// and the versions are one or more, each named once.
    pub open spec fn wf(self) -> bool {
        &&& self.group.len() > 0
        &&& self.kind.len() > 0
        &&& self.plural_name.len() > 0
        &&& self.versions.len() > 0
        &&& self.versions.no_duplicates()
    }

    /// The name under which the definition is stored: the plural name, a dot,
    /// the group.
    pub open spec fn storage_name(self) -> Seq<char> {
        joined(self.plural_name, "."@, self.group)
    }

    /// The version that discovery prefers: the first one declared.
    pub open spec fn preferred_version(self) -> Seq<char> {
        self.versions[0]
    }

    /// Whether the definition serves `version`.
    pub open spec fn serves(self, version: Seq<char>) -> bool {
        self.versions.contains(version)
    }
}

/// The definition that an accepted document describes. A singular name that
/// the document leaves out is empty; a list that it leaves out stays left out.
pub open spec fn definition_of(document: SchemaDocumentView) -> SchemaDefinitionView {
    SchemaDefinitionView {
        group: document.group,
        kind: document.kind,
        plural_name: document.plural,
        singular_name: match document.singular {
            Some(singular) => singular,
            None => Seq::empty(),
        },
        short_names: document.short_names,
        categories: document.categories,
        scope: scope_of(document.scope).unwrap(),
        versions: document.versions,
    }
}

/// What the bytes of a schema document stand for: the definition, or the first
/// reason to refuse them.
pub open spec fn schema_of_json(body: Seq<u8>) -> Result<SchemaDefinitionView, SchemaError> {
    match decoded_schema(body) {
        None => Err(SchemaError::Malformed),
        Some(document) => match schema_error(document) {
            Some(e) => Err(e),
            None => Ok(definition_of(document)),
        },
    }
}

/// The definitions that documents stand for, if each of them is accepted.
pub open spec fn schemas_of_json(documents: Seq<Seq<u8>>) -> Option<Seq<SchemaDefinitionView>> {
    if forall|i: int| 0 <= i < documents.len() ==> schema_of_json(#[trigger] documents[i]) is Ok {
        Some(documents.map_values(|json: Seq<u8>| schema_of_json(json).unwrap()))
    } else {
        None
    }
}

/// A registered description of a resource type.
#[derive(Debug)]
pub struct SchemaDefinition {
    group: String,
    kind: String,
    plural_name: String,
    singular_name: String,
    short_names: Option<Vec<String>>,
    categories: Option<Vec<String>>,
    scope: Scope,
    versions: Vec<String>,
}

impl View for SchemaDefinition {
    type V = SchemaDefinitionView;

    closed spec fn view(&self) -> SchemaDefinitionView {
        SchemaDefinitionView {
            group: self.group@,
            kind: self.kind@,
            plural_name: self.plural_name@,
            singular_name: self.singular_name@,
            short_names: optional_strings_view(self.short_names),
            categories: optional_strings_view(self.categories),
            scope: self.scope,
            versions: strings_view(self.versions@),
        }
    }
}

/// Definitions as plain values.
pub open spec fn definitions_view(definitions: Seq<SchemaDefinition>) -> Seq<SchemaDefinitionView> {
    definitions.map_values(|definition: SchemaDefinition| definition@)
}

fn parse_scope(text: &str) -> (r: Option<Scope>)
    ensures
        r == scope_of(text@),
{
    if same_text(text, "Cluster") {
        Some(Scope::Cluster)
    } else if same_text(text, "Namespaced") {
        Some(Scope::Namespaced)
    } else {
        None
    }
}

impl SchemaDefinition {
    #[verifier::type_invariant]
    pub open spec fn valid(&self) -> bool {
        self@.wf()
    }

    /// Checks a decoded document and turns it into a definition.
    pub fn validate(document: SchemaDocument) -> (r: Result<SchemaDefinition, SchemaError>)
        ensures
            match schema_error(document@) {
                Some(e) => r == Err::<SchemaDefinition, SchemaError>(e),
                None => r matches Ok(definition) && definition@ == definition_of(document@),
            },
    {
        if document.group.as_str().is_empty() {
            return Err(SchemaError::EmptyGroup);
        }
        if document.kind.as_str().is_empty() {
            return Err(SchemaError::EmptyKind);
        }
        if document.plural.as_str().is_empty() {
            return Err(SchemaError::EmptyPluralName);
        }
        let scope = match parse_scope(document.scope.as_str()) {
            Some(scope) => scope,
            None => { return Err(SchemaError::UnknownScope); },
        };
        if document.versions.len() == 0 {
            return Err(SchemaError::NoVersions);
        }
        if !all_distinct(&document.versions) {
            return Err(SchemaError::DuplicateVersion);
        }
        let singular_name = match document.singular {
            Some(singular) => singular,
            None => String::new(),
        };
        Ok(
            SchemaDefinition {
                group: document.group,
                kind: document.kind,
                plural_name: document.plural,
                singular_name,
                short_names: document.short_names,
                categories: document.categories,
                scope,
                versions: document.versions,
            },
        )
    }

    /// Decodes and checks the bytes of a schema document.
    pub fn from_json(body: &[u8]) -> (r: Result<SchemaDefinition, SchemaError>)
        ensures
            match schema_of_json(body@) {
                Ok(definition) => r matches Ok(d) && d@ == definition,
                Err(e) => r == Err::<SchemaDefinition, SchemaError>(e),
            },
    {
        match decode_schema_document(body) {
            None => Err(SchemaError::Malformed),
            Some(document) => SchemaDefinition::validate(document),
        }
    }

    pub fn group(&self) -> (r: &str)
        ensures
            r@ == self@.group,
    {
        self.group.as_str()
    }

    pub fn kind(&self) -> (r: &str)
        ensures
            r@ == self@.kind,
    {
        self.kind.as_str()
    }

    pub fn plural_name(&self) -> (r: &str)
        ensures
            r@ == self@.plural_name,
    {
        self.plural_name.as_str()
    }

    pub fn singular_name(&self) -> (r: &str)
        ensures
            r@ == self@.singular_name,
    {
        self.singular_name.as_str()
    }

    pub fn short_names(&self) -> (r: &Option<Vec<String>>)
        ensures
            optional_strings_view(*r) == self@.short_names,
    {
        &self.short_names
    }

    pub fn categories(&self) -> (r: &Option<Vec<String>>)
        ensures
            optional_strings_view(*r) == self@.categories,
    {
        &self.categories
    }

    pub fn scope(&self) -> (r: Scope)
        ensures
            r == self@.scope,
    {
        self.scope
    }

    /// The names of the versions, the preferred one first.
    pub fn versions(&self) -> (r: &Vec<String>)
        ensures
            strings_view(r@) == self@.versions,
            r@.len() > 0,
    {
        proof {
            use_type_invariant(self);
        }
        &self.versions
    }
}

} // verus!
