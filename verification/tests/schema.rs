use result_codec::registry::Registry;
use result_codec::result_value::ResultValue;
use result_codec::schema::{MetaSchema, SchemaRef};
use result_codec::types::ApiType;

fn integer_schema() -> MetaSchema {
    let mut schema = MetaSchema::any();
    schema.ty = "integer".to_string();
    schema
}

fn unwrap_inline(r: &SchemaRef) -> &MetaSchema {
    match r {
        SchemaRef::Inline(s) => s,
        SchemaRef::Reference(name) => {
            panic!("expected an inline schema, got a reference to {}", name)
        }
    }
}

#[test]
fn union_has_two_alternatives_and_no_discriminator() {
    let top = ResultValue::<i64, String>::schema_ref();
    let schema = unwrap_inline(&top);
    assert_eq!(schema.ty, "object");
    assert_eq!(schema.discriminator, None);
    assert_eq!(schema.any_of.len(), 2);
    assert!(schema.all_of.is_empty());
    assert!(schema.properties.is_empty());
    assert!(schema.required.is_empty());

    let ok_alt = unwrap_inline(&schema.any_of[0]);
    assert_eq!(ok_alt.ty, "integer");
    assert_eq!(ok_alt.required, vec!["ok".to_string()]);
    assert_eq!(ok_alt.properties.len(), 1);
    assert_eq!(ok_alt.properties[0].0, "ok");
    assert_eq!(unwrap_inline(&ok_alt.properties[0].1).ty, "integer");

    let err_alt = unwrap_inline(&schema.any_of[1]);
    assert_eq!(err_alt.ty, "string");
    assert_eq!(err_alt.required, vec!["err".to_string()]);
    assert_eq!(err_alt.properties.len(), 1);
    assert_eq!(err_alt.properties[0].0, "err");
    assert_eq!(unwrap_inline(&err_alt.properties[0].1).ty, "string");
}

#[test]
fn registry_insert_is_idempotent() {
    let mut registry = Registry::new();
    let name = "integer".to_string();
    assert!(!registry.contains_name(&name));
    assert_eq!(registry.get(&name), None);

    registry.insert_if_absent("integer".to_string(), integer_schema());
    assert!(registry.contains_name(&name));
    assert_eq!(registry.get(&name), Some(&integer_schema()));

    let mut other = MetaSchema::any();
    other.ty = "something else".to_string();
    registry.insert_if_absent("integer".to_string(), other);
    assert_eq!(registry.get(&name), Some(&integer_schema()));
}

#[test]
fn register_delegates_to_payload_types() {
    let mut registry = Registry::new();
    ResultValue::<i64, String>::register(&mut registry);
    // The two-variant value's descriptor is always inline and the primitive
    // payloads have no named schemas, so nothing ends up registered.
    assert!(!registry.contains_name(&"integer".to_string()));
    assert!(!registry.contains_name(&"string".to_string()));
    assert!(!registry.contains_name(&"result<integer, string>".to_string()));
}
