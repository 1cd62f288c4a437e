use schema_compiler::decl::{EntityDecl, FieldDecl};
use schema_compiler::introspect::compile;
use schema_compiler::row::{
    parse,
    parse_alias,
    parse_result,
    parse_result_alias,
    relational,
    relational_alias,
    Column,
    QueryError,
    Row,
};
use schema_compiler::schema::EntitySchema;
use schema_compiler::tristate::Null;
use schema_compiler::value::Value;

fn field(name: &str, ty: &str, attrs: &[&str]) -> FieldDecl {
    FieldDecl {
        name: name.to_string(),
        ty: ty.to_string(),
        attrs: attrs.iter().map(|a| a.to_string()).collect(),
    }
}

fn user_schema() -> EntitySchema {
    let decl = EntityDecl {
        name: "User".to_string(),
        attrs: vec!["table(rename = \"users\", alias = \"owner\")".to_string()],
        fields: vec![
            field("id", "Null<String>", &["column"]),
            field("name", "Null<String>", &["column"]),
            field("email", "Null<String>", &["column"]),
        ],
    };
    compile(&decl, &"column".to_string()).unwrap()
}

fn col(name: &str, value: Value) -> Column {
    Column { name: name.to_string(), value }
}

fn user_row() -> Row {
    Row {
        columns: vec![
            col("users_id", Value::Text("u1".to_string())),
            col("users_name", Value::Text("Ann".to_string())),
            col("users_email", Value::Text("ann@example.com".to_string())),
        ],
    }
}

#[test]
fn parse_round_trip_through_getters() {
    let schema = user_schema();
    let e = parse(&schema, &user_row());
    assert_eq!(e.get(0), Some(Value::Text("u1".to_string())));
    assert_eq!(e.get(1), Some(Value::Text("Ann".to_string())));
    assert_eq!(e.get(2), Some(Value::Text("ann@example.com".to_string())));
}

#[test]
fn parse_missing_column_leaves_field_unset() {
    let schema = user_schema();
    let row = Row {
        columns: vec![col("users_name", Value::Text("Ann".to_string()))],
    };
    let e = parse(&schema, &row);
    assert_eq!(e.get(0), None);
    assert_eq!(e.get(1), Some(Value::Text("Ann".to_string())));
    assert_eq!(e.get(2), None);
}

#[test]
fn parse_kind_mismatch_leaves_field_unset() {
    let decl = EntityDecl {
        name: "Counter".to_string(),
        attrs: vec![],
        fields: vec![field("hits", "Null<i64>", &["column"])],
    };
    let schema = compile(&decl, &"column".to_string()).unwrap();
    let row = Row {
        columns: vec![col("counter_hits", Value::Text("nine".to_string()))],
    };
    let e = parse(&schema, &row);
    assert_eq!(e.get(0), None);
    let typed = Row {
        columns: vec![col("counter_hits", Value::Int(9))],
    };
    assert_eq!(parse(&schema, &typed).get(0), Some(Value::Int(9)));
}

#[test]
fn parse_takes_first_matching_column() {
    let schema = user_schema();
    let row = Row {
        columns: vec![
            col("users_name", Value::Text("first".to_string())),
            col("users_name", Value::Text("second".to_string())),
        ],
    };
    assert_eq!(parse(&schema, &row).get(1), Some(Value::Text("first".to_string())));
}

#[test]
fn alias_parse_uses_alias_keys() {
    let schema = user_schema();
    let g = schema.group_index(&"owner".to_string()).unwrap();
    let row = Row {
        columns: vec![col("owner_name", Value::Text("Ann".to_string()))],
    };
    let base = parse(&schema, &row);
    assert!(base.is_empty());
    let scoped = parse_alias(&schema, g, &row);
    assert_eq!(scoped.get(1), Some(Value::Text("Ann".to_string())));
}

#[test]
fn result_maps_fetch_error_to_query_failure() {
    let schema = user_schema();
    let r = parse_result(&schema, Err("connection reset".to_string()));
    assert_eq!(r.unwrap_err(), QueryError::Query("connection reset".to_string()));
}

#[test]
fn result_treats_empty_parse_as_not_found() {
    let schema = user_schema();
    let row = Row {
        columns: vec![col("unrelated", Value::Text("x".to_string()))],
    };
    let r = parse_result(&schema, Ok(row));
    assert_eq!(
        r.unwrap_err(),
        QueryError::NotFound("No matching record(s) found in users table".to_string())
    );
}

#[test]
fn result_hands_parsed_entity_back() {
    let schema = user_schema();
    let e = parse_result(&schema, Ok(user_row())).unwrap();
    assert_eq!(e.get(1), Some(Value::Text("Ann".to_string())));
}

#[test]
fn alias_result_uses_alias_keys() {
    let schema = user_schema();
    let g = schema.group_index(&"owner".to_string()).unwrap();
    let row = Row {
        columns: vec![col("owner_email", Value::Text("a@b".to_string()))],
    };
    let r = parse_result_alias(&schema, g, Ok(row));
    assert_eq!(r.unwrap().get(2), Some(Value::Text("a@b".to_string())));
    let empty = Row { columns: vec![] };
    assert!(parse_result_alias(&schema, g, Ok(empty)).is_err());
}

#[test]
fn relational_wraps_parse_in_presence() {
    let schema = user_schema();
    match relational(&schema, &user_row()) {
        Null::Value(e) => assert_eq!(e.get(1), Some(Value::Text("Ann".to_string()))),
        other => panic!("expected a present entity, got {:?}", other),
    }
    let empty = Row { columns: vec![] };
    assert_eq!(relational(&schema, &empty), Null::Undefined);
}

#[test]
fn alias_relational_uses_alias_keys() {
    let schema = user_schema();
    let g = schema.group_index(&"owner".to_string()).unwrap();
    let row = Row {
        columns: vec![col("owner_id", Value::Text("u1".to_string()))],
    };
    match relational_alias(&schema, g, &row) {
        Null::Value(e) => assert_eq!(e.get(0), Some(Value::Text("u1".to_string()))),
        other => panic!("expected a present entity, got {:?}", other),
    }
    assert_eq!(relational(&schema, &row), Null::Undefined);
}
