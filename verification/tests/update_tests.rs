use schema_compiler::decl::{EntityDecl, FieldDecl};
use schema_compiler::entity::Entity;
use schema_compiler::introspect::compile;
use schema_compiler::row::{parse_result, Column, Row};
use schema_compiler::schema::EntitySchema;
use schema_compiler::update::build_update;
use schema_compiler::value::Value;

fn field(name: &str, ty: &str, attrs: &[&str]) -> FieldDecl {
    FieldDecl {
        name: name.to_string(),
        ty: ty.to_string(),
        attrs: attrs.iter().map(|a| a.to_string()).collect(),
    }
}

fn user_schema() -> EntitySchema {
    let decl = EntityDecl {
        name: "User".to_string(),
        attrs: vec!["table(rename = \"users\")".to_string()],
        fields: vec![
            field("id", "Null<String>", &["column"]),
            field("name", "Null<String>", &["column"]),
            field("email", "Null<String>", &["column"]),
        ],
    };
    compile(&decl, &"column".to_string()).unwrap()
}

#[test]
fn update_binds_all_fields_in_order_id_last() {
    let schema = user_schema();
    let e = Entity::empty(&schema)
        .set(0, Value::Text("u1".to_string()))
        .set(1, Value::Text("Ann".to_string()));
    let u = build_update(&schema, &e);
    assert_eq!(
        u.sql,
        "UPDATE users SET name = $1, email = $2 WHERE id = $3 RETURNING \
         users.id AS users_id, users.name AS users_name, users.email AS users_email"
    );
    assert_eq!(
        u.binds,
        vec![
            Some(Value::Text("Ann".to_string())),
            None,
            Some(Value::Text("u1".to_string())),
        ]
    );
}

#[test]
fn update_includes_unset_fields() {
    let schema = user_schema();
    let e = Entity::empty(&schema);
    let u = build_update(&schema, &e);
    assert_eq!(u.binds, vec![None, None, None]);
    assert!(u.sql.contains("SET name = $1, email = $2"));
}

#[test]
fn update_identifier_not_in_set_clause() {
    let schema = user_schema();
    let e = Entity::empty(&schema).set(0, Value::Text("u1".to_string()));
    let u = build_update(&schema, &e);
    assert!(!u.sql.contains("id = $1"));
    assert!(u.sql.contains("WHERE id = $3"));
    assert_eq!(u.binds[2], Some(Value::Text("u1".to_string())));
}

#[test]
fn update_skips_unattributed_fields() {
    let decl = EntityDecl {
        name: "Post".to_string(),
        attrs: vec![],
        fields: vec![
            field("id", "Null<String>", &["column"]),
            field("title", "Null<String>", &["column"]),
            field("scratch", "Null<String>", &[]),
        ],
    };
    let schema = compile(&decl, &"column".to_string()).unwrap();
    let e = Entity::empty(&schema).set(1, Value::Text("t".to_string()));
    let u = build_update(&schema, &e);
    assert_eq!(
        u.sql,
        "UPDATE post SET title = $1 WHERE id = $2 RETURNING \
         post.id AS post_id, post.title AS post_title"
    );
    assert_eq!(u.binds.len(), 2);
}

#[test]
fn returned_row_parses_through_base_projection() {
    let schema = user_schema();
    let e = Entity::empty(&schema)
        .set(0, Value::Text("u1".to_string()))
        .set(1, Value::Text("Ann".to_string()));
    let u = build_update(&schema, &e);
    assert_eq!(u.binds.len(), 3);
    let returned = Row {
        columns: vec![
            Column { name: "users_id".to_string(), value: Value::Text("u1".to_string()) },
            Column { name: "users_name".to_string(), value: Value::Text("Ann".to_string()) },
        ],
    };
    let parsed = parse_result(&schema, Ok(returned)).unwrap();
    assert_eq!(parsed.get(0), Some(Value::Text("u1".to_string())));
    assert_eq!(parsed.get(1), Some(Value::Text("Ann".to_string())));
    assert_eq!(parsed.get(2), None);
}
