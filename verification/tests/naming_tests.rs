use schema_compiler::decl::{EntityDecl, FieldDecl};
use schema_compiler::introspect::compile;

fn field(name: &str, ty: &str, attrs: &[&str]) -> FieldDecl {
    FieldDecl {
        name: name.to_string(),
        ty: ty.to_string(),
        attrs: attrs.iter().map(|a| a.to_string()).collect(),
    }
}

fn user_decl() -> EntityDecl {
    EntityDecl {
        name: "User".to_string(),
        attrs: vec!["table(rename = \"users\", alias = \"owner\")".to_string()],
        fields: vec![
            field("id", "Null<String>", &["column"]),
            field("name", "Null<String>", &["column"]),
            field("email", "Null<String>", &["column"]),
        ],
    }
}

#[test]
fn user_schema_naming_tables() {
    let schema = compile(&user_decl(), &"column".to_string()).unwrap();
    assert_eq!(schema.table_name, "users");
    assert_eq!(schema.proj.plain, vec!["id", "name", "email"]);
    assert_eq!(schema.proj.tabled, vec!["users.id", "users.name", "users.email"]);
    assert_eq!(schema.proj.renamed, vec!["users_id", "users_name", "users_email"]);
    assert_eq!(
        schema.proj.aliased,
        vec![
            "users.id AS users_id",
            "users.name AS users_name",
            "users.email AS users_email"
        ]
    );
}

#[test]
fn user_schema_name_column_forms() {
    let schema = compile(&user_decl(), &"column".to_string()).unwrap();
    assert_eq!(schema.proj.plain[1], "name");
    assert_eq!(schema.proj.tabled[1], "users.name");
    assert_eq!(schema.proj.renamed[1], "users_name");
    let g = schema.group_index(&"owner".to_string()).unwrap();
    assert_eq!(schema.groups[g].proj.aliased[1], "users.name AS owner_name");
}

#[test]
fn all_columns_strings() {
    let schema = compile(&user_decl(), &"column".to_string()).unwrap();
    assert_eq!(schema.proj.plain_all, "id, name, email");
    assert_eq!(schema.proj.tabled_all, "users.id, users.name, users.email");
    assert_eq!(schema.proj.renamed_all, "users_id, users_name, users_email");
    assert_eq!(
        schema.proj.aliased_all,
        "users.id AS users_id, users.name AS users_name, users.email AS users_email"
    );
}

#[test]
fn alias_scoped_differs_from_base() {
    let schema = compile(&user_decl(), &"column".to_string()).unwrap();
    let g = schema.group_index(&"owner".to_string()).unwrap();
    for i in 0..3 {
        assert_ne!(schema.groups[g].proj.aliased[i], schema.proj.aliased[i]);
        assert_eq!(schema.groups[g].proj.tabled[i], schema.proj.tabled[i]);
    }
    assert_eq!(
        schema.groups[g].proj.aliased_all,
        "users.id AS owner_id, users.name AS owner_name, users.email AS owner_email"
    );
}

#[test]
fn several_aliases_from_one_list() {
    let mut decl = user_decl();
    decl.attrs = vec!["table(rename = \"users\", alias = \"Owner, Pet\")".to_string()];
    let schema = compile(&decl, &"column".to_string()).unwrap();
    assert_eq!(schema.groups.len(), 2);
    assert_eq!(schema.groups[0].name, "owner");
    assert_eq!(schema.groups[1].name, "pet");
    assert!(schema.group_index(&"pet".to_string()).is_some());
    assert!(schema.group_index(&"boss".to_string()).is_none());
}

#[test]
fn table_name_from_entity_name_without_rename() {
    let decl = EntityDecl {
        name: "UserProfile".to_string(),
        attrs: vec![],
        fields: vec![field("id", "Null<String>", &["column"])],
    };
    let schema = compile(&decl, &"column".to_string()).unwrap();
    assert_eq!(schema.table_name, "user_profile");
    assert!(schema.groups.is_empty());
}

#[test]
fn malformed_table_attr_defaults_whole_extraction() {
    let mut decl = user_decl();
    decl.attrs = vec!["table(rename = users)".to_string()];
    let schema = compile(&decl, &"column".to_string()).unwrap();
    assert_eq!(schema.table_name, "user");
    assert!(schema.groups.is_empty());
}

#[test]
fn unknown_table_attr_key_defaults_whole_extraction() {
    let mut decl = user_decl();
    decl.attrs = vec!["table(rename = \"users\", colour = \"red\")".to_string()];
    let schema = compile(&decl, &"column".to_string()).unwrap();
    assert_eq!(schema.table_name, "user");
}

#[test]
fn duplicate_table_attr_key_defaults_whole_extraction() {
    let mut decl = user_decl();
    decl.attrs = vec!["table(rename = \"users\", rename = \"people\")".to_string()];
    let schema = compile(&decl, &"column".to_string()).unwrap();
    assert_eq!(schema.table_name, "user");
}

#[test]
fn spaces_allowed_in_table_attr() {
    let mut decl = user_decl();
    decl.attrs = vec!["table( rename = \"users\" , alias = \"owner\" )".to_string()];
    let schema = compile(&decl, &"column".to_string()).unwrap();
    assert_eq!(schema.table_name, "users");
    assert_eq!(schema.groups.len(), 1);
}

#[test]
fn malformed_column_marker_defaults_field_only() {
    let mut decl = user_decl();
    decl.fields[2] = field("email", "Null<String>", &["column(primary)"]);
    let schema = compile(&decl, &"column".to_string()).unwrap();
    assert!(!schema.fields[2].is_attributed);
    assert!(schema.fields[0].is_attributed);
    assert_eq!(schema.proj.plain, vec!["id", "name"]);
}

#[test]
fn unmarked_field_not_in_tables() {
    let mut decl = user_decl();
    decl.fields.push(field("scratch", "Null<String>", &[]));
    let schema = compile(&decl, &"column".to_string()).unwrap();
    assert_eq!(schema.fields.len(), 4);
    assert_eq!(schema.proj.plain, vec!["id", "name", "email"]);
}

#[test]
fn invalid_type_is_fatal() {
    let mut decl = user_decl();
    decl.fields[1] = field("name", "Null<", &["column"]);
    let err = match compile(&decl, &"column".to_string()) {
        Err(e) => e,
        Ok(_) => panic!("expected a structural error"),
    };
    assert_eq!(err.field, "name");
}

#[test]
fn camel_case_field_snake_cased() {
    let mut decl = user_decl();
    decl.fields[1] = field("displayName", "Null<String>", &["column"]);
    let schema = compile(&decl, &"column".to_string()).unwrap();
    assert_eq!(schema.proj.plain[1], "display_name");
    assert_eq!(schema.proj.aliased[1], "users.display_name AS users_display_name");
}

#[test]
fn entity_without_fields_has_empty_tables() {
    let decl = EntityDecl {
        name: "Blank".to_string(),
        attrs: vec![],
        fields: vec![],
    };
    let schema = compile(&decl, &"column".to_string()).unwrap();
    assert_eq!(schema.table_name, "blank");
    assert!(schema.proj.plain.is_empty());
    assert_eq!(schema.proj.plain_all, "");
    assert_eq!(schema.proj.aliased_all, "");
}

#[test]
fn not_found_message_names_table() {
    let schema = compile(&user_decl(), &"column".to_string()).unwrap();
    assert_eq!(
        schema.not_found_message,
        "No matching record(s) found in users table"
    );
}
