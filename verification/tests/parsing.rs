use governance::document::{clone_fields, clone_items, clone_strings, Field, Item};
use governance::json_text::{parse_object, Member};
use governance::model::into_text_list;
use governance::toml_text::parse_document;

fn text(value: &str) -> Item {
    Item::Text(value.to_string())
}

fn field(name: &str, value: Item) -> Field {
    Field { name: name.to_string(), value }
}

fn strings(values: &[&str]) -> Vec<String> {
    values.iter().map(|value| value.to_string()).collect()
}

#[test]
fn parse_document_gives_each_kind_of_value() {
    let fields = parse_document(
        "name = \"Ann\"\ncount = -7\nratio = 1.5\nactive = true\nsince = 2020-01-02T03:04:05Z\n",
    )
    .unwrap();
    assert_eq!(
        fields,
        vec![
            field("name", text("Ann")),
            field("count", Item::Integer(-7)),
            field("ratio", Item::Float(1.5f64.to_bits())),
            field("active", Item::Boolean(true)),
            field("since", Item::Datetime("2020-01-02T03:04:05Z".to_string())),
        ]
    );
}

#[test]
fn parse_document_gives_arrays_and_tables_in_depth() {
    let fields = parse_document(
        "tags = [\"a\", [1, 2]]\npoint = { y = 2, x = 1 }\n[links]\nsite = \"s\"\n[links.more]\nz = false\n",
    )
    .unwrap();
    assert_eq!(
        fields,
        vec![
            field(
                "tags",
                Item::Array(vec![
                    text("a"),
                    Item::Array(vec![Item::Integer(1), Item::Integer(2)])
                ])
            ),
            field(
                "point",
                Item::Table(vec![field("y", Item::Integer(2)), field("x", Item::Integer(1))])
            ),
            field(
                "links",
                Item::Table(vec![
                    field("site", text("s")),
                    field("more", Item::Table(vec![field("z", Item::Boolean(false))])),
                ])
            ),
        ]
    );
}

#[test]
fn parse_document_of_empty_text_has_no_fields() {
    assert_eq!(parse_document(""), Ok(Vec::new()));
    assert_eq!(parse_document("# only a comment\n"), Ok(Vec::new()));
}

#[test]
fn parse_document_rejects_bad_syntax_with_a_message() {
    let message = parse_document("name = [1, 2\n").unwrap_err();
    assert!(!message.is_empty());
    assert!(parse_document("a = 1\na = 2\n").is_err());
}

#[test]
fn parse_object_gives_members_in_document_order() {
    let members =
        parse_object("{\"title\": \"t\", \"properties\": {\"b\": {}, \"a\": {}}, \"n\": 3}").unwrap();
    assert_eq!(
        members,
        vec![
            Member { name: "title".to_string(), keys: None },
            Member { name: "properties".to_string(), keys: Some(strings(&["b", "a"])) },
            Member { name: "n".to_string(), keys: None },
        ]
    );
}

#[test]
fn parse_object_tells_an_empty_object_from_no_object() {
    let members = parse_object("{\"a\": {}, \"b\": [], \"c\": null}").unwrap();
    assert_eq!(
        members,
        vec![
            Member { name: "a".to_string(), keys: Some(Vec::new()) },
            Member { name: "b".to_string(), keys: None },
            Member { name: "c".to_string(), keys: None },
        ]
    );
}

#[test]
fn parse_object_rejects_what_is_no_object() {
    assert!(parse_object("[1, 2]").is_err());
    assert!(parse_object("{\"a\": ").is_err());
    assert!(!parse_object("").unwrap_err().is_empty());
}

#[test]
fn into_text_list_takes_strings_only() {
    assert_eq!(
        into_text_list(Item::Array(vec![text("a"), text("b")])),
        Some(strings(&["a", "b"]))
    );
    assert_eq!(into_text_list(Item::Array(Vec::new())), Some(Vec::new()));
    assert_eq!(into_text_list(Item::Array(vec![text("a"), Item::Integer(1)])), None);
    assert_eq!(into_text_list(text("a")), None);
    assert_eq!(into_text_list(Item::Table(Vec::new())), None);
}

#[test]
fn clones_are_equal_to_what_they_copy() {
    let item = Item::Table(vec![
        field("list", Item::Array(vec![text("a"), Item::Float(7), Item::Boolean(false)])),
        field("when", Item::Datetime("2020-01-02".to_string())),
    ]);
    assert_eq!(item.clone(), item);
    let fields = vec![field("a", Item::Integer(1)), field("b", item)];
    assert_eq!(clone_fields(&fields), fields);
    let items = vec![Item::Integer(3), text("x")];
    assert_eq!(clone_items(&items), items);
    assert_eq!(clone_strings(&strings(&["x", "y"])), strings(&["x", "y"]));
    assert_eq!(fields[0].clone(), field("a", Item::Integer(1)));
}
