use query_planner::federation::{get_federation_metadata, resolve, FederationError, FederationMetadata};
use query_planner::model::{
    Argument, ArgumentValue, Directive, FieldDef, ObjectTypeDef, SchemaRef, TypeDef,
};

fn bare_directive(name: &str) -> Directive {
    Directive { name: name.to_string(), arguments: vec![] }
}

fn fields_directive(name: &str, fields: &str) -> Directive {
    Directive {
        name: name.to_string(),
        arguments: vec![Argument {
            name: "fields".to_string(),
            value: ArgumentValue::Text(fields.to_string()),
        }],
    }
}

fn non_string_fields_directive(name: &str) -> Directive {
    Directive {
        name: name.to_string(),
        arguments: vec![Argument { name: "fields".to_string(), value: ArgumentValue::NonText }],
    }
}

fn object_type(directives: Vec<Directive>, service: Option<&str>) -> ObjectTypeDef {
    ObjectTypeDef {
        name: "Product".to_string(),
        directives,
        service: service.map(|s| s.to_string()),
    }
}

fn field(directives: Vec<Directive>, parent_service: Option<&str>) -> FieldDef {
    FieldDef {
        name: "weight".to_string(),
        directives,
        parent_service: parent_service.map(|s| s.to_string()),
    }
}

fn resolved(r: Result<Option<FederationMetadata>, FederationError>) -> FederationMetadata {
    r.expect("resolution should succeed").expect("element should be federated")
}

#[test]
fn unannotated_object_type_is_absent() {
    let t = object_type(vec![], Some("products"));
    let r = get_federation_metadata(&t);
    assert_eq!(r, Ok(None));
}

#[test]
fn unrecognized_directives_are_inert() {
    let t = object_type(vec![bare_directive("deprecated")], Some("products"));
    let r = get_federation_metadata(SchemaRef::from_object_type(&t));
    assert_eq!(r, Ok(None));

    let f = field(vec![fields_directive("custom", "a b")], Some("products"));
    let r = get_federation_metadata(SchemaRef::from_field(&f));
    assert_eq!(r, Ok(None));
}

#[test]
fn unannotated_field_is_absent() {
    let f = field(vec![], Some("products"));
    let r = get_federation_metadata(SchemaRef::from_field(&f));
    assert_eq!(r, Ok(None));
}

#[test]
fn single_key_makes_an_entity() {
    let t = object_type(vec![fields_directive("key", "id")], Some("products"));
    let m = resolved(get_federation_metadata(&t));
    assert_eq!(m.key_fields, vec!["id".to_string()]);
    assert!(!m.is_value_type());
    assert_eq!(m.owning_service, Some("products".to_string()));
}

#[test]
fn two_keys_keep_declaration_order() {
    let t = object_type(
        vec![fields_directive("key", "id"), fields_directive("key", "sku region")],
        Some("products"),
    );
    let m = resolved(get_federation_metadata(SchemaRef::from_object_type(&t)));
    assert_eq!(m.key_fields, vec!["id".to_string(), "sku region".to_string()]);
    assert!(!m.is_value_type());
}

#[test]
fn external_field_owned_by_declaring_service() {
    let f = field(vec![bare_directive("external")], Some("inventory"));
    let m = resolved(get_federation_metadata(&f));
    assert!(m.is_external);
    assert_eq!(m.owning_service, Some("inventory".to_string()));
    assert!(m.key_fields.is_empty());
    assert!(!m.is_value_type());
}

#[test]
fn requires_fields_are_split_on_whitespace() {
    let f = field(vec![fields_directive("requires", "weight size")], Some("shipping"));
    let m = resolved(get_federation_metadata(SchemaRef::from_field(&f)));
    assert_eq!(m.requires_fields.len(), 2);
    assert!(m.requires_fields.contains(&"weight".to_string()));
    assert!(m.requires_fields.contains(&"size".to_string()));
    assert!(m.provides_fields.is_empty());
    assert!(!m.is_external);
}

#[test]
fn provides_fields_are_collected() {
    let f = field(vec![fields_directive("provides", "name price")], Some("reviews"));
    let m = resolved(get_federation_metadata(SchemaRef::from_field(&f)));
    assert_eq!(m.provides_fields, vec!["name".to_string(), "price".to_string()]);
    assert!(m.requires_fields.is_empty());
}

#[test]
fn multiple_requires_directives_concatenate_in_order() {
    let f = field(
        vec![fields_directive("requires", "a b"), fields_directive("requires", "c")],
        None,
    );
    let m = resolved(get_federation_metadata(SchemaRef::from_field(&f)));
    assert_eq!(m.requires_fields, vec!["a".to_string(), "b".to_string(), "c".to_string()]);
}

#[test]
fn commas_separate_like_whitespace() {
    let f = field(vec![fields_directive("requires", "a, b")], None);
    let m = resolved(get_federation_metadata(SchemaRef::from_field(&f)));
    assert_eq!(m.requires_fields, vec!["a".to_string(), "b".to_string()]);
}

#[test]
fn nested_braces_stay_one_item() {
    let f = field(vec![fields_directive("requires", "a { b c } d")], None);
    let m = resolved(get_federation_metadata(SchemaRef::from_field(&f)));
    assert_eq!(
        m.requires_fields,
        vec!["a".to_string(), "{ b c }".to_string(), "d".to_string()]
    );
}

#[test]
fn resolution_is_idempotent() {
    let t = object_type(
        vec![fields_directive("key", "id"), bare_directive("extends")],
        Some("products"),
    );
    let first = resolve(SchemaRef::from_object_type(&t));
    let second = resolve(SchemaRef::from_object_type(&t));
    assert_eq!(first, second);

    let f = field(
        vec![bare_directive("external"), fields_directive("requires", "weight size")],
        Some("shipping"),
    );
    let first = resolve(SchemaRef::from_field(&f));
    let second = resolve(SchemaRef::from_field(&f));
    assert_eq!(first, second);
}

#[test]
fn non_string_key_argument_is_malformed() {
    let t = object_type(vec![non_string_fields_directive("key")], Some("products"));
    let r = get_federation_metadata(SchemaRef::from_object_type(&t));
    assert_eq!(r, Err(FederationError::MalformedDirective));
}

#[test]
fn missing_fields_argument_is_malformed() {
    let t = object_type(vec![bare_directive("key")], Some("products"));
    let r = get_federation_metadata(SchemaRef::from_object_type(&t));
    assert_eq!(r, Err(FederationError::MalformedDirective));

    let f = field(vec![bare_directive("requires")], None);
    let r = get_federation_metadata(SchemaRef::from_field(&f));
    assert_eq!(r, Err(FederationError::MalformedDirective));
}

#[test]
fn unbalanced_braces_are_malformed() {
    let t = object_type(vec![fields_directive("key", "a {")], None);
    let r = get_federation_metadata(SchemaRef::from_object_type(&t));
    assert_eq!(r, Err(FederationError::MalformedDirective));

    let f = field(vec![fields_directive("requires", "a } b")], None);
    let r = get_federation_metadata(SchemaRef::from_field(&f));
    assert_eq!(r, Err(FederationError::MalformedDirective));
}

#[test]
fn malformed_requires_poisons_external_field() {
    let f = field(
        vec![bare_directive("external"), non_string_fields_directive("requires")],
        Some("shipping"),
    );
    let r = get_federation_metadata(SchemaRef::from_field(&f));
    assert_eq!(r, Err(FederationError::MalformedDirective));
}

#[test]
fn extends_marks_an_extension_not_a_value_type() {
    let t = TypeDef {
        name: "User".to_string(),
        directives: vec![bare_directive("extends")],
        service: Some("reviews".to_string()),
    };
    let m = resolved(get_federation_metadata(SchemaRef::from_type(&t)));
    assert!(m.is_extension);
    assert!(m.key_fields.is_empty());
    assert!(!m.is_value_type());
    assert_eq!(m.owning_service, Some("reviews".to_string()));
}

#[test]
fn product_schema_scenario() {
    // type Product @key(fields: "upc") { upc: String! weight: Int @external }
    let product = ObjectTypeDef {
        name: "Product".to_string(),
        directives: vec![fields_directive("key", "upc")],
        service: Some("products".to_string()),
    };
    let weight = FieldDef {
        name: "weight".to_string(),
        directives: vec![bare_directive("external")],
        parent_service: Some("products".to_string()),
    };

    let m = resolved(get_federation_metadata(SchemaRef::from_object_type(&product)));
    assert_eq!(m.key_fields, vec!["upc".to_string()]);
    assert!(!m.is_value_type());

    let m = resolved(get_federation_metadata(SchemaRef::from_field(&weight)));
    assert!(m.is_external);
    assert_eq!(m.owning_service, Some("products".to_string()));
}

#[test]
fn empty_selection_yields_no_items() {
    let f = field(vec![fields_directive("requires", "   ")], None);
    let m = resolved(get_federation_metadata(SchemaRef::from_field(&f)));
    assert!(m.requires_fields.is_empty());
}

#[test]
fn later_fields_arguments_do_not_shadow_the_first() {
    let d = Directive {
        name: "key".to_string(),
        arguments: vec![
            Argument { name: "label".to_string(), value: ArgumentValue::NonText },
            Argument {
                name: "fields".to_string(),
                value: ArgumentValue::Text("id".to_string()),
            },
            Argument { name: "fields".to_string(), value: ArgumentValue::NonText },
        ],
    };
    let t = object_type(vec![d], None);
    let m = resolved(get_federation_metadata(SchemaRef::from_object_type(&t)));
    assert_eq!(m.key_fields, vec!["id".to_string()]);
}

#[test]
fn deeply_nested_braces_balance() {
    let f = field(vec![fields_directive("requires", "a { b { c d } } e")], None);
    let m = resolved(get_federation_metadata(SchemaRef::from_field(&f)));
    assert_eq!(m.requires_fields, vec!["a".to_string(), "{ b { c d } }".to_string(), "e".to_string()]);
}

#[test]
fn split_selection_splits_and_rejects_directly() {
    assert_eq!(
        query_planner::selection::split_selection("upc weight"),
        Some(vec!["upc".to_string(), "weight".to_string()])
    );
    assert_eq!(query_planner::selection::split_selection(""), Some(vec![]));
    assert_eq!(query_planner::selection::split_selection("a { b"), None);
    assert_eq!(query_planner::selection::split_selection("a } b"), None);
}
