use schema_compiler::decl::{attr_name_of, parse_pairs, EntityDecl, FieldDecl};
use schema_compiler::decl::{is_attributed_field, is_attributed_struct, struct_attrs};
use schema_compiler::introspect::{parse_inner_type, type_text, valid_type_exec};
use schema_compiler::text::{
    ascii_lower,
    dec_string,
    has_prefix,
    join,
    replace_char,
    snake_case,
    split_char,
};

fn field(name: &str, ty: &str, attrs: &[&str]) -> FieldDecl {
    FieldDecl {
        name: name.to_string(),
        ty: ty.to_string(),
        attrs: attrs.iter().map(|a| a.to_string()).collect(),
    }
}

#[test]
fn snake_case_conversions() {
    assert_eq!(snake_case(&"MyVariable".to_string()), "my_variable");
    assert_eq!(snake_case(&"CamelCaseExample".to_string()), "camel_case_example");
    assert_eq!(snake_case(&"Some Function Name".to_string()), "some_function_name");
    assert_eq!(snake_case(&"name".to_string()), "name");
    assert_eq!(snake_case(&"".to_string()), "");
}

#[test]
fn join_with_separator() {
    let parts = vec!["a".to_string(), "b".to_string(), "c".to_string()];
    assert_eq!(join(&parts, ", "), "a, b, c");
    assert_eq!(join(&vec!["solo".to_string()], ", "), "solo");
    assert_eq!(join(&Vec::new(), ", "), "");
}

#[test]
fn decimal_rendering() {
    assert_eq!(dec_string(0), "0");
    assert_eq!(dec_string(7), "7");
    assert_eq!(dec_string(10), "10");
    assert_eq!(dec_string(12345), "12345");
}

#[test]
fn ascii_case_folding() {
    assert_eq!(ascii_lower(&"AbC".to_string()), "abc");
    assert_eq!(ascii_lower(&"SM".to_string()), "sm");
    assert_eq!(ascii_lower(&"a_b9".to_string()), "a_b9");
}

#[test]
fn splitting_and_replacing() {
    let parts = split_char(&"a;b;;c".to_string(), ';');
    assert_eq!(parts, vec!["a", "b", "", "c"]);
    assert_eq!(split_char(&"".to_string(), ';'), vec![""]);
    assert_eq!(replace_char(&"a,b,c".to_string(), ',', ';'), "a;b;c");
}

#[test]
fn prefix_test() {
    assert!(has_prefix(&"null<String>".to_string(), "null<"));
    assert!(!has_prefix(&"Option<String>".to_string(), "null<"));
    assert!(!has_prefix(&"nul".to_string(), "null<"));
}

#[test]
fn generated_identifier_is_alphanumeric() {
    let decl = EntityDecl {
        name: "User".to_string(),
        attrs: vec![],
        fields: vec![field("id", "Null<String>", &["column"])],
    };
    let schema = schema_compiler::introspect::compile(&decl, &"column".to_string()).unwrap();
    let e = schema_compiler::entity::Entity::empty(&schema)
        .set_insert_id(&schema, &"md".to_string());
    match e.get(0) {
        Some(schema_compiler::value::Value::Text(id)) => {
            assert_eq!(id.chars().count(), 16);
            assert!(id.chars().all(|c| c.is_ascii_alphanumeric()));
        }
        other => panic!("expected a text identifier, got {:?}", other),
    }
}

#[test]
fn type_rendering_and_inner_types() {
    assert_eq!(type_text(&"Null < String >".to_string()), "Null<String>");
    assert_eq!(parse_inner_type(&"Null<String>".to_string()), Some("String".to_string()));
    assert_eq!(parse_inner_type(&"String".to_string()), Some("String".to_string()));
    assert_eq!(
        parse_inner_type(&"Null<Vec<String>>".to_string()),
        Some("Vec<String>".to_string())
    );
    assert_eq!(parse_inner_type(&"Null<".to_string()), None);
    assert_eq!(parse_inner_type(&"Null<>".to_string()), Some("Null<>".to_string()));
    assert_eq!(parse_inner_type(&"Null x".to_string()), None);
    assert!(valid_type_exec(&"Vec<(String,i64)>".to_string()));
    assert!(!valid_type_exec(&"".to_string()));
    assert!(!valid_type_exec(&"a>b<".to_string()));
}

#[test]
fn annotation_names_and_arguments() {
    assert_eq!(attr_name_of(&"table(rename = \"users\")".to_string()), "table");
    assert_eq!(attr_name_of(&"column".to_string()), "column");
    let parsed = parse_pairs(&"a = \"1\", b = \"x, y\"".to_string(), 0).unwrap();
    assert_eq!(parsed, vec![
        ("a".to_string(), "1".to_string()),
        ("b".to_string(), "x, y".to_string()),
    ]);
    assert!(parse_pairs(&"a = 1".to_string(), 0).is_none());
    assert!(parse_pairs(&"= \"1\"".to_string(), 0).is_none());
    assert_eq!(
        parse_pairs(&"a = \"1\",".to_string(), 0),
        Some(vec![("a".to_string(), "1".to_string())])
    );
}

#[test]
fn struct_and_field_attribute_tests() {
    let decl = EntityDecl {
        name: "User".to_string(),
        attrs: vec!["table(rename = \"users\")".to_string()],
        fields: vec![
            field("id", "Null<String>", &["column"]),
            field("note", "Null<String>", &[]),
        ],
    };
    assert!(is_attributed_struct(&decl, &"table".to_string()));
    assert!(!is_attributed_struct(&decl, &"form".to_string()));
    assert!(is_attributed_field(&decl, &"id".to_string(), &"column".to_string()));
    assert!(!is_attributed_field(&decl, &"note".to_string(), &"column".to_string()));
    assert!(!is_attributed_field(&decl, &"id".to_string(), &"form".to_string()));
    let ta = struct_attrs(&decl);
    assert_eq!(ta.rename, Some("users".to_string()));
    assert_eq!(ta.alias, None);
}
