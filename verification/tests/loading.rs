use governance::collection::RecordMap;
use governance::document::{Field, Item};
use governance::error::{LoadError, ParseReason};
use governance::key::EntityKey;
use governance::loader::{
    key_order_of_fields, load_contributors, load_from_dir, load_teams, record_from_document,
    record_from_text, SourceFile, CONTRIBUTORS_PATH, TEAMS_PATH,
};
use governance::model::{Contributor, HasKeyOrder, Record, Team};

fn file(path: &str, text: &str) -> SourceFile {
    SourceFile { path: path.to_string(), content: Ok(text.to_string()) }
}

fn unreadable(path: &str, message: &str) -> SourceFile {
    SourceFile { path: path.to_string(), content: Err(message.to_string()) }
}

fn text(value: &str) -> Item {
    Item::Text(value.to_string())
}

fn field(name: &str, value: Item) -> Field {
    Field { name: name.to_string(), value }
}

fn strings(values: &[&str]) -> Vec<String> {
    values.iter().map(|value| value.to_string()).collect()
}

#[test]
fn key_order_follows_the_file_not_the_alphabet() {
    let record: Contributor =
        record_from_text("zeta = 1\nalpha = \"a\"\nmiddle = true\n").unwrap();
    assert_eq!(record.key_order, strings(&["zeta", "alpha", "middle"]));
}

#[test]
fn key_order_of_a_team_follows_the_file_not_the_declaration() {
    let team: Team =
        record_from_text("devs = [\"bob\"]\nname = \"Core\"\nleads = [\"alice\"]\n").unwrap();
    assert_eq!(team.key_order, strings(&["devs", "name", "leads"]));
    assert_eq!(team.leads, strings(&["alice"]));
    assert_eq!(team.devs, strings(&["bob"]));
}

#[test]
fn key_order_counts_a_table_where_its_header_stands() {
    let record: Contributor =
        record_from_text("name = \"Ann\"\n[links]\nsite = \"x\"\n[about]\nbio = \"y\"\n").unwrap();
    assert_eq!(record.key_order, strings(&["name", "links", "about"]));
}

#[test]
fn key_order_of_fields_gives_the_names_in_order() {
    let fields = vec![field("b", Item::Integer(1)), field("a", Item::Integer(2))];
    assert_eq!(key_order_of_fields(&fields), strings(&["b", "a"]));
    assert_eq!(key_order_of_fields(&Vec::new()), Vec::<String>::new());
}

#[test]
fn contributor_keeps_every_field_with_its_value() {
    let record: Contributor = record_from_text("name = \"Ann\"\nage = 41\n").unwrap();
    assert_eq!(record.fields, vec![field("name", text("Ann")), field("age", Item::Integer(41))]);
}

#[test]
fn record_from_document_decodes_a_team() {
    let fields = vec![
        field("title", text("Core")),
        field("leads", Item::Array(vec![text("alice")])),
        field("devs", Item::Array(vec![text("bob"), text("carol")])),
    ];
    let team: Team = record_from_document(fields).unwrap();
    assert_eq!(team.leads, strings(&["alice"]));
    assert_eq!(team.devs, strings(&["bob", "carol"]));
    assert_eq!(team.extra, vec![field("title", text("Core"))]);
    assert_eq!(team.key_order, strings(&["title", "leads", "devs"]));
}

#[test]
fn decode_attaches_no_key_order() {
    let team = Team::decode(vec![
        field("leads", Item::Array(vec![])),
        field("devs", Item::Array(vec![])),
    ])
    .unwrap();
    assert_eq!(team.key_order, Vec::<String>::new());
    let contributor = Contributor::decode(vec![field("name", text("Ann"))]).unwrap();
    assert_eq!(contributor.key_order, Vec::<String>::new());
    assert_eq!(contributor.fields, vec![field("name", text("Ann"))]);
}

#[test]
fn set_key_order_replaces_the_order_only() {
    let mut team = Team {
        leads: strings(&["alice"]),
        devs: strings(&["bob"]),
        extra: vec![field("title", text("Core"))],
        key_order: strings(&["old"]),
    };
    team.set_key_order(strings(&["leads", "devs", "title"]));
    assert_eq!(team.key_order, strings(&["leads", "devs", "title"]));
    assert_eq!(team.leads, strings(&["alice"]));
    assert_eq!(team.devs, strings(&["bob"]));
    assert_eq!(team.extra, vec![field("title", text("Core"))]);
}

#[test]
fn team_without_leads_is_a_missing_field() {
    let made: Result<Team, ParseReason> = record_from_text("devs = [\"bob\"]\n");
    assert_eq!(made, Err(ParseReason::MissingField("leads".to_string())));
}

#[test]
fn team_without_devs_is_a_missing_field() {
    let made: Result<Team, ParseReason> = record_from_text("leads = [\"alice\"]\n");
    assert_eq!(made, Err(ParseReason::MissingField("devs".to_string())));
}

#[test]
fn team_with_leads_of_the_wrong_type() {
    let made: Result<Team, ParseReason> = record_from_text("leads = \"alice\"\ndevs = []\n");
    assert_eq!(made, Err(ParseReason::WrongType("leads".to_string())));
}

#[test]
fn team_with_a_number_among_its_devs() {
    let made: Result<Team, ParseReason> = record_from_text("leads = []\ndevs = [\"bob\", 3]\n");
    assert_eq!(made, Err(ParseReason::WrongType("devs".to_string())));
}

#[test]
fn leads_are_looked_at_before_devs() {
    let made: Result<Team, ParseReason> = record_from_text("devs = 1\n");
    assert_eq!(made, Err(ParseReason::MissingField("leads".to_string())));
}

#[test]
fn malformed_text_is_a_syntax_failure() {
    let made: Result<Contributor, ParseReason> = record_from_text("name = \n");
    assert!(matches!(made, Err(ParseReason::Syntax(_))));
}

#[test]
fn load_stores_each_file_under_kind_and_stem() {
    let files = vec![
        file("contributors/alice.toml", "name = \"Alice\"\n"),
        file("contributors/bob.toml", "name = \"Bob\"\n"),
    ];
    let map: RecordMap<Contributor> = load_from_dir(&files, "contributor").unwrap();
    assert_eq!(map.len(), 2);
    let alice = map.get(&EntityKey::new("contributor", "alice")).unwrap();
    assert_eq!(alice.fields, vec![field("name", text("Alice"))]);
    assert_eq!(alice.key_order, strings(&["name"]));
    let bob = map.get(&EntityKey::new("contributor", "bob")).unwrap();
    assert_eq!(bob.fields, vec![field("name", text("Bob"))]);
    assert!(map.get(&EntityKey::new("team", "alice")).is_none());
    assert!(map.get(&EntityKey::new("contributor", "alice.toml")).is_none());
}

#[test]
fn load_of_no_files_is_empty() {
    let map: RecordMap<Team> = load_from_dir(&Vec::new(), "team").unwrap();
    assert!(map.is_empty());
    assert_eq!(map.len(), 0);
}

#[test]
fn a_second_file_with_the_same_stem_replaces_the_first() {
    let files = vec![
        file("a/alice.toml", "name = \"first\"\n"),
        file("a/bob.toml", "name = \"Bob\"\n"),
        file("b/alice.toml", "name = \"second\"\n"),
    ];
    let map: RecordMap<Contributor> = load_from_dir(&files, "contributor").unwrap();
    assert_eq!(map.len(), 2);
    let alice = map.get(&EntityKey::new("contributor", "alice")).unwrap();
    assert_eq!(alice.fields, vec![field("name", text("second"))]);
    let mut with_that_key = 0;
    let mut index = 0;
    while let Some((key, _)) = map.entry(index) {
        if key.same(&EntityKey::new("contributor", "alice")) {
            with_that_key += 1;
        }
        index += 1;
    }
    assert_eq!(with_that_key, 1);
}

#[test]
fn an_unreadable_file_ends_the_load() {
    let files = vec![
        file("teams/core.toml", "leads = []\ndevs = []\n"),
        unreadable("teams/docs.toml", "permission denied"),
    ];
    let result: Result<RecordMap<Team>, LoadError> = load_from_dir(&files, "team");
    assert_eq!(
        result.unwrap_err(),
        LoadError::Io {
            path: "teams/docs.toml".to_string(),
            message: "permission denied".to_string()
        }
    );
}

#[test]
fn a_file_of_the_wrong_shape_ends_the_load_with_its_path() {
    let files = vec![
        file("teams/core.toml", "leads = []\ndevs = []\n"),
        file("teams/docs.toml", "leads = []\n"),
    ];
    let error = load_teams(&files).unwrap_err();
    assert_eq!(
        error,
        LoadError::Parse {
            path: "teams/docs.toml".to_string(),
            reason: ParseReason::MissingField("devs".to_string())
        }
    );
    assert_eq!(error.path(), "teams/docs.toml");
}

#[test]
fn the_first_failure_is_the_one_reported() {
    let files = vec![
        file("c/ann.toml", "name = \"Ann\"\n"),
        file("c/broken.toml", "= = =\n"),
        unreadable("c/gone.toml", "not found"),
    ];
    let error = load_contributors(&files).unwrap_err();
    assert!(matches!(
        &error,
        LoadError::Parse { path, reason: ParseReason::Syntax(_) } if path == "c/broken.toml"
    ));
    let files = vec![
        unreadable("c/gone.toml", "not found"),
        file("c/broken.toml", "= = =\n"),
    ];
    let error = load_contributors(&files).unwrap_err();
    assert_eq!(
        error,
        LoadError::Io { path: "c/gone.toml".to_string(), message: "not found".to_string() }
    );
}

#[test]
fn load_contributors_and_load_teams_use_their_kinds() {
    let contributors = load_contributors(&vec![file("contributors/ann.toml", "x = 1\n")]).unwrap();
    assert!(contributors.contains_key(&EntityKey::new("contributor", "ann")));
    assert!(!contributors.contains_key(&EntityKey::new("team", "ann")));
    let teams = load_teams(&vec![file("teams/core.toml", "leads = []\ndevs = []\n")]).unwrap();
    assert!(teams.contains_key(&EntityKey::new("team", "core")));
}

#[test]
fn the_fixed_patterns() {
    assert_eq!(CONTRIBUTORS_PATH, "contributors/*.toml");
    assert_eq!(TEAMS_PATH, "teams/*.toml");
}
