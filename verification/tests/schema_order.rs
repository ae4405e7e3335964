use governance::error::{LoadError, SchemaReason};
use governance::json_text::Member;
use governance::loader::SourceFile;
use governance::schema::{load_schema_key_ordering, schema_key_order, PROPERTIES};

fn schema(text: &str) -> SourceFile {
    SourceFile { path: "schema/team.json".to_string(), content: Ok(text.to_string()) }
}

fn strings(values: &[&str]) -> Vec<String> {
    values.iter().map(|value| value.to_string()).collect()
}

#[test]
fn schema_order_is_declaration_order_not_alphabetical() {
    let order = load_schema_key_ordering(&schema("{\"properties\":{\"b\":{},\"a\":{}}}"));
    assert_eq!(order, Ok(strings(&["b", "a"])));
}

#[test]
fn schema_order_ignores_the_other_members() {
    let text = "{\"$schema\": \"x\", \"type\": \"object\",
        \"properties\": {\"name\": {\"type\": \"string\"}, \"leads\": {}, \"devs\": {}},
        \"required\": [\"leads\"]}";
    assert_eq!(load_schema_key_ordering(&schema(text)), Ok(strings(&["name", "leads", "devs"])));
}

#[test]
fn schema_with_empty_properties_declares_no_field() {
    assert_eq!(load_schema_key_ordering(&schema("{\"properties\": {}}")), Ok(Vec::new()));
}

#[test]
fn schema_without_properties_fails() {
    assert_eq!(
        load_schema_key_ordering(&schema("{\"type\": \"object\"}")),
        Err(LoadError::Schema {
            path: "schema/team.json".to_string(),
            cause: SchemaReason::MissingProperties
        })
    );
}

#[test]
fn schema_whose_properties_are_no_object_fails() {
    assert_eq!(
        load_schema_key_ordering(&schema("{\"properties\": [\"a\", \"b\"]}")),
        Err(LoadError::Schema {
            path: "schema/team.json".to_string(),
            cause: SchemaReason::PropertiesNotObject
        })
    );
}

#[test]
fn malformed_schema_fails_with_the_parser_message() {
    let error = load_schema_key_ordering(&schema("{\"properties\": ")).unwrap_err();
    assert!(matches!(
        &error,
        LoadError::Schema { path, cause: SchemaReason::Syntax(message) }
            if path == "schema/team.json" && !message.is_empty()
    ));
}

#[test]
fn unreadable_schema_fails_as_unreadable() {
    let file = SourceFile { path: "gone.json".to_string(), content: Err("not found".to_string()) };
    assert_eq!(
        load_schema_key_ordering(&file),
        Err(LoadError::Io { path: "gone.json".to_string(), message: "not found".to_string() })
    );
}

#[test]
fn schema_key_order_reads_the_first_properties_member() {
    let members = vec![
        Member { name: "title".to_string(), keys: Some(strings(&["x"])) },
        Member { name: "properties".to_string(), keys: Some(strings(&["z", "y"])) },
        Member { name: "properties".to_string(), keys: None },
    ];
    assert_eq!(schema_key_order(&members), Ok(strings(&["z", "y"])));
    assert_eq!(schema_key_order(&Vec::new()), Err(SchemaReason::MissingProperties));
    let members = vec![Member { name: "properties".to_string(), keys: None }];
    assert_eq!(schema_key_order(&members), Err(SchemaReason::PropertiesNotObject));
    assert_eq!(PROPERTIES, "properties");
}
