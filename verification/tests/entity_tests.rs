use schema_compiler::decl::{EntityDecl, FieldDecl};
use schema_compiler::entity::{field_index, Entity};
use schema_compiler::introspect::compile;
use schema_compiler::schema::EntitySchema;
use schema_compiler::tristate::Null;
use schema_compiler::value::Value;

fn field(name: &str, ty: &str, attrs: &[&str]) -> FieldDecl {
    FieldDecl {
        name: name.to_string(),
        ty: ty.to_string(),
        attrs: attrs.iter().map(|a| a.to_string()).collect(),
    }
}

fn user_schema() -> EntitySchema {
    let decl = EntityDecl {
        name: "User".to_string(),
        attrs: vec!["table(rename = \"users\")".to_string()],
        fields: vec![
            field("id", "Null<String>", &["column"]),
            field("name", "Null<String>", &["column"]),
            field("email", "Null<String>", &["column"]),
        ],
    };
    compile(&decl, &"column".to_string()).unwrap()
}

#[test]
fn fresh_entity_is_empty() {
    let schema = user_schema();
    let e = Entity::empty(&schema);
    assert!(e.is_empty());
    assert_eq!(e.get(0), None);
    assert_eq!(e.get(1), None);
    assert_eq!(e.get(2), None);
}

#[test]
fn set_then_get_returns_value() {
    let schema = user_schema();
    let e = Entity::empty(&schema).set(1, Value::Text("Ann".to_string()));
    assert_eq!(e.get(1), Some(Value::Text("Ann".to_string())));
    assert!(!e.is_empty());
}

#[test]
fn text_list_setter_drops_empty_entries() {
    let decl = EntityDecl {
        name: "Post".to_string(),
        attrs: vec![],
        fields: vec![field("tags", "Null<Vec<String>>", &["column"])],
    };
    let schema = compile(&decl, &"column".to_string()).unwrap();
    let list = Value::TextList(vec!["a".to_string(), "".to_string(), "b".to_string()]);
    let e = Entity::empty(&schema).set(0, list);
    assert_eq!(
        e.get(0),
        Some(Value::TextList(vec!["a".to_string(), "b".to_string()]))
    );
}

#[test]
fn optional_setter_keeps_field_on_absent_input() {
    let schema = user_schema();
    let e = Entity::empty(&schema).set(1, Value::Text("Ann".to_string()));
    let e = e.set_opt(1, &None);
    assert_eq!(e.get(1), Some(Value::Text("Ann".to_string())));
    let e = e.set_opt(1, &Some(Value::Text("Bea".to_string())));
    assert_eq!(e.get(1), Some(Value::Text("Bea".to_string())));
}

#[test]
fn clear_then_get_is_unset() {
    let schema = user_schema();
    let e = Entity::empty(&schema).set(1, Value::Text("Ann".to_string()));
    let e = e.clear(&schema, 1);
    assert_eq!(e.get(1), None);
    assert!(e.is_empty());
}

#[test]
fn clear_all_resets_valueless_slots() {
    let schema = user_schema();
    let e = Entity::empty(&schema)
        .set(1, Value::Text("Ann".to_string()))
        .with_slot(2, Null::Absent);
    let e = e.clear_all(&schema);
    assert_eq!(e.get(1), Some(Value::Text("Ann".to_string())));
    assert_eq!(e.slots[2], Null::Undefined);
}

#[test]
fn with_slot_replaces_wrapper_state() {
    let schema = user_schema();
    let e = Entity::empty(&schema).with_slot(2, Null::Value(Value::Text("a@b".to_string())));
    assert_eq!(e.get(2), Some(Value::Text("a@b".to_string())));
    let e = e.with_slot(2, Null::Absent);
    assert_eq!(e.get(2), None);
    assert_eq!(e.slots[2], Null::Absent);
}

#[test]
fn getter_default_for_unset_text() {
    let schema = user_schema();
    let e = Entity::empty(&schema);
    assert_eq!(e.get_or_default(&schema, 1), Value::Text(String::new()));
}

#[test]
fn getter_default_for_unset_int_and_flag() {
    let decl = EntityDecl {
        name: "Counter".to_string(),
        attrs: vec![],
        fields: vec![
            field("hits", "Null<i64>", &["column"]),
            field("active", "Null<bool>", &["column"]),
        ],
    };
    let schema = compile(&decl, &"column".to_string()).unwrap();
    let e = Entity::empty(&schema);
    assert_eq!(e.get_or_default(&schema, 0), Value::Int(0));
    assert_eq!(e.get_or_default(&schema, 1), Value::Flag(false));
}

#[test]
fn insert_id_assigns_only_when_absent() {
    let schema = user_schema();
    let ix = field_index(&schema, &"id".to_string()).unwrap();
    assert_eq!(ix, 0);
    let e = Entity::empty(&schema).set_insert_id(&schema, &"sm".to_string());
    let id = match e.get(ix) {
        Some(Value::Text(t)) => t,
        other => panic!("expected a text identifier, got {:?}", other),
    };
    assert_eq!(id.chars().count(), 8);
}

#[test]
fn insert_id_twice_keeps_first_identifier() {
    let schema = user_schema();
    let e1 = Entity::empty(&schema).set_insert_id(&schema, &"sm".to_string());
    let first = e1.get(0);
    let e2 = e1.set_insert_id(&schema, &"sm".to_string());
    assert_eq!(e2.get(0), first);
}

#[test]
fn insert_id_keeps_existing_identifier() {
    let schema = user_schema();
    let e = Entity::empty(&schema).set(0, Value::Text("fixed".to_string()));
    let e = e.set_insert_id(&schema, &"lg".to_string());
    assert_eq!(e.get(0), Some(Value::Text("fixed".to_string())));
}

#[test]
fn insert_id_size_classes() {
    let schema = user_schema();
    let lens = [("sm", 8), ("MD", 16), ("lg", 32), ("anything", 64)];
    for (word, want) in lens {
        let e = Entity::empty(&schema).set_insert_id(&schema, &word.to_string());
        match e.get(0) {
            Some(Value::Text(t)) => assert_eq!(t.chars().count(), want, "size {}", word),
            other => panic!("expected a text identifier, got {:?}", other),
        }
    }
}

#[test]
fn insert_id_without_id_field_changes_nothing() {
    let decl = EntityDecl {
        name: "Tag".to_string(),
        attrs: vec![],
        fields: vec![field("label", "Null<String>", &["column"])],
    };
    let schema = compile(&decl, &"column".to_string()).unwrap();
    let e = Entity::empty(&schema).set_insert_id(&schema, &"sm".to_string());
    assert!(e.is_empty());
}
