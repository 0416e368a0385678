use orchestrator::schema::{SchemaDefinition, SchemaDocument, SchemaError, Scope};

fn widgets() -> &'static [u8] {
    br#"{"apiVersion":"apiextensions.k8s.io/v1","kind":"CustomResourceDefinition","metadata":{"name":"widgets.example.com"},"spec":{"group":"example.com","names":{"kind":"Widget","plural":"widgets","singular":"widget","shortNames":["wd","wdg"],"categories":["all"]},"scope":"Cluster","versions":[{"name":"v1","served":true,"storage":true},{"name":"v2beta1","served":true,"storage":false}]}}"#
}

fn document(scope: &str, versions: &[&str]) -> SchemaDocument {
    SchemaDocument {
        group: "example.com".to_string(),
        kind: "Widget".to_string(),
        plural: "widgets".to_string(),
        singular: None,
        short_names: None,
        categories: None,
        scope: scope.to_string(),
        versions: versions.iter().map(|v| v.to_string()).collect(),
    }
}

#[test]
fn a_schema_document_decodes_to_its_fields() {
    let schema = SchemaDefinition::from_json(widgets()).unwrap();
    assert_eq!(schema.group(), "example.com");
    assert_eq!(schema.kind(), "Widget");
    assert_eq!(schema.plural_name(), "widgets");
    assert_eq!(schema.singular_name(), "widget");
    assert_eq!(schema.short_names(), &Some(vec!["wd".to_string(), "wdg".to_string()]));
    assert_eq!(schema.categories(), &Some(vec!["all".to_string()]));
    assert_eq!(schema.scope(), Scope::Cluster);
    assert_eq!(schema.versions(), &vec!["v1".to_string(), "v2beta1".to_string()]);
}

#[test]
fn a_namespaced_schema_decodes_with_its_scope() {
    let body = br#"{"metadata":{"name":"gadgets.example.com"},"spec":{"group":"example.com","names":{"kind":"Gadget","plural":"gadgets"},"scope":"Namespaced","versions":[{"name":"v1","served":true,"storage":true}]}}"#;
    let schema = SchemaDefinition::from_json(body).unwrap();
    assert_eq!(schema.scope(), Scope::Namespaced);
    assert_eq!(schema.singular_name(), "");
    assert!(schema.short_names().is_none());
    assert!(schema.categories().is_none());
}

#[test]
fn bytes_that_are_no_json_are_malformed() {
    assert_eq!(SchemaDefinition::from_json(b"{not json").err(), Some(SchemaError::Malformed));
    assert_eq!(SchemaDefinition::from_json(b"").err(), Some(SchemaError::Malformed));
    assert_eq!(SchemaDefinition::from_json(b"[1,2]").err(), Some(SchemaError::Malformed));
}

#[test]
fn a_document_of_another_kind_is_malformed() {
    let body = br#"{"apiVersion":"v1","kind":"Pod","metadata":{"name":"p"},"spec":{}}"#;
    assert_eq!(SchemaDefinition::from_json(body).err(), Some(SchemaError::Malformed));
}

#[test]
fn a_document_without_a_group_is_refused() {
    let body = br#"{"metadata":{"name":"widgets."},"spec":{"names":{"kind":"Widget","plural":"widgets"},"scope":"Cluster","versions":[{"name":"v1","served":true,"storage":true}]}}"#;
    assert_eq!(SchemaDefinition::from_json(body).err(), Some(SchemaError::EmptyGroup));
}

#[test]
fn an_empty_document_breaks_the_first_rule() {
    assert_eq!(SchemaDefinition::from_json(b"{}").err(), Some(SchemaError::EmptyGroup));
}

#[test]
fn validation_names_the_first_broken_rule() {
    let mut d = document("Cluster", &["v1"]);
    d.kind = String::new();
    assert_eq!(SchemaDefinition::validate(d).err(), Some(SchemaError::EmptyKind));

    let mut d = document("Cluster", &["v1"]);
    d.plural = String::new();
    assert_eq!(SchemaDefinition::validate(d).err(), Some(SchemaError::EmptyPluralName));

    let mut d = document("Cluster", &[]);
    d.kind = String::new();
    d.plural = String::new();
    assert_eq!(SchemaDefinition::validate(d).err(), Some(SchemaError::EmptyKind));
}

#[test]
fn an_unknown_scope_is_refused() {
    assert_eq!(
        SchemaDefinition::validate(document("cluster", &["v1"])).err(),
        Some(SchemaError::UnknownScope)
    );
    assert_eq!(
        SchemaDefinition::validate(document("", &["v1"])).err(),
        Some(SchemaError::UnknownScope)
    );
}

#[test]
fn a_schema_needs_a_version() {
    assert_eq!(
        SchemaDefinition::validate(document("Cluster", &[])).err(),
        Some(SchemaError::NoVersions)
    );
}

#[test]
fn versions_are_named_once() {
    assert_eq!(
        SchemaDefinition::validate(document("Cluster", &["v1", "v2", "v1"])).err(),
        Some(SchemaError::DuplicateVersion)
    );
    assert!(SchemaDefinition::validate(document("Cluster", &["v1", "v2", "v3"])).is_ok());
}

#[test]
fn the_first_version_is_the_preferred_one() {
    let schema = SchemaDefinition::validate(document("Namespaced", &["v2", "v1"])).unwrap();
    assert_eq!(schema.versions()[0], "v2");
    assert_eq!(schema.scope(), Scope::Namespaced);
}

#[test]
fn an_empty_list_is_kept_apart_from_a_missing_one() {
    let body = br#"{"metadata":{"name":"gadgets.example.com"},"spec":{"group":"example.com","names":{"kind":"Gadget","plural":"gadgets","shortNames":[]},"scope":"Namespaced","versions":[{"name":"v1","served":true,"storage":true}]}}"#;
    let schema = SchemaDefinition::from_json(body).unwrap();
    assert_eq!(schema.short_names(), &Some(Vec::new()));
    assert_eq!(schema.categories(), &None);
}
