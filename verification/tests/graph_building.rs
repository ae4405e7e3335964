use governance::collection::RecordMap;
use governance::document::{Field, Item};
use governance::graph::{
    build_graph_data, GraphBuilder, GraphData, GraphLink, GraphNode, DEFAULT_VIEW, MEMBER_LINK,
};
use governance::key::EntityKey;
use governance::loader::{load_contributors, load_teams, SourceFile};
use governance::model::{Contributor, Team};

fn file(path: &str, text: &str) -> SourceFile {
    SourceFile { path: path.to_string(), content: Ok(text.to_string()) }
}

fn strings(values: &[&str]) -> Vec<String> {
    values.iter().map(|value| value.to_string()).collect()
}

fn team(leads: &[&str], devs: &[&str]) -> Team {
    Team { leads: strings(leads), devs: strings(devs), extra: Vec::new(), key_order: Vec::new() }
}

fn contributor(name: &str) -> Contributor {
    Contributor {
        fields: vec![Field { name: "name".to_string(), value: Item::Text(name.to_string()) }],
        key_order: strings(&["name"]),
    }
}

fn link(source: &str, target: &str) -> GraphLink {
    GraphLink {
        source: source.to_string(),
        target: target.to_string(),
        link_type: "team-member".to_string(),
    }
}

fn node_ids(data: &GraphData) -> Vec<String> {
    data.nodes.iter().map(|node| node.id().clone()).collect()
}

#[test]
fn two_contributors_and_one_team_end_to_end() {
    let contributors = load_contributors(&vec![
        file("contributors/alice.toml", "name = \"Alice\"\n"),
        file("contributors/bob.toml", "name = \"Bob\"\n"),
    ])
    .unwrap();
    let teams = load_teams(&vec![file(
        "teams/core.toml",
        "leads = [\"alice\"]\ndevs = [\"bob\"]\n",
    )])
    .unwrap();
    let document = build_graph_data(contributors, teams);
    assert_eq!(document.views.len(), 1);
    assert_eq!(document.views[0].name, "default");
    let data = &document.views[0].data;
    assert_eq!(data.nodes.len(), 3);
    assert_eq!(node_ids(data), strings(&["contributor:alice", "contributor:bob", "team:core"]));
    assert_eq!(
        data.links,
        vec![link("team:core", "contributor:alice"), link("team:core", "contributor:bob")]
    );
}

#[test]
fn nodes_carry_their_records_and_kinds() {
    let mut contributors: RecordMap<Contributor> = RecordMap::new();
    contributors.insert(EntityKey::new("contributor", "alice"), contributor("Alice"));
    let mut teams: RecordMap<Team> = RecordMap::new();
    teams.insert(EntityKey::new("team", "core"), team(&["alice"], &[]));
    let data = GraphBuilder::new(&contributors, &teams).build_contributors_teams_graph();
    assert_eq!(
        data.nodes,
        vec![
            GraphNode::Contributor {
                id: "contributor:alice".to_string(),
                inner: contributor("Alice")
            },
            GraphNode::Team { id: "team:core".to_string(), inner: team(&["alice"], &[]) },
        ]
    );
    assert_eq!(data.nodes[0].node_type(), "contributor");
    assert_eq!(data.nodes[1].node_type(), "team");
    assert_eq!(data.nodes[1].id(), "team:core");
}

#[test]
fn links_go_to_leads_first_and_then_to_devs() {
    let contributors: RecordMap<Contributor> = RecordMap::new();
    let mut teams: RecordMap<Team> = RecordMap::new();
    teams.insert(EntityKey::new("team", "core"), team(&["l1", "l2"], &["d1", "d2", "d3"]));
    teams.insert(EntityKey::new("team", "docs"), team(&[], &["d1"]));
    teams.insert(EntityKey::new("team", "empty"), team(&[], &[]));
    teams.insert(EntityKey::new("team", "web"), team(&["l2"], &[]));
    let data = GraphBuilder::new(&contributors, &teams).build_contributors_teams_graph();
    assert_eq!(
        data.links,
        vec![
            link("team:core", "contributor:l1"),
            link("team:core", "contributor:l2"),
            link("team:core", "contributor:d1"),
            link("team:core", "contributor:d2"),
            link("team:core", "contributor:d3"),
            link("team:docs", "contributor:d1"),
            link("team:web", "contributor:l2"),
        ]
    );
    assert!(data.links.iter().all(|link| link.link_type == MEMBER_LINK));
    assert_eq!(MEMBER_LINK, "team-member");
}

#[test]
fn a_member_named_twice_gets_two_links() {
    let contributors: RecordMap<Contributor> = RecordMap::new();
    let mut teams: RecordMap<Team> = RecordMap::new();
    teams.insert(EntityKey::new("team", "core"), team(&["ann"], &["ann"]));
    let data = GraphBuilder::new(&contributors, &teams).build_contributors_teams_graph();
    assert_eq!(
        data.links,
        vec![link("team:core", "contributor:ann"), link("team:core", "contributor:ann")]
    );
}

#[test]
fn a_member_without_a_record_still_gets_its_link() {
    let mut contributors: RecordMap<Contributor> = RecordMap::new();
    contributors.insert(EntityKey::new("contributor", "alice"), contributor("Alice"));
    let mut teams: RecordMap<Team> = RecordMap::new();
    teams.insert(EntityKey::new("team", "core"), team(&["alice"], &["ghost"]));
    let data = GraphBuilder::new(&contributors, &teams).build_contributors_teams_graph();
    assert_eq!(
        data.links,
        vec![link("team:core", "contributor:alice"), link("team:core", "contributor:ghost")]
    );
    assert_eq!(node_ids(&data), strings(&["contributor:alice", "team:core"]));
    assert!(!node_ids(&data).contains(&"contributor:ghost".to_string()));
}

#[test]
fn empty_collections_give_an_empty_graph_under_the_default_view() {
    let document = build_graph_data(RecordMap::new(), RecordMap::new());
    assert_eq!(document.views.len(), 1);
    assert_eq!(document.views[0].name, DEFAULT_VIEW);
    assert_eq!(DEFAULT_VIEW, "default");
    assert!(document.views[0].data.nodes.is_empty());
    assert!(document.views[0].data.links.is_empty());
}

#[test]
fn building_leaves_the_collections_as_they_were() {
    let mut contributors: RecordMap<Contributor> = RecordMap::new();
    contributors.insert(EntityKey::new("contributor", "alice"), contributor("Alice"));
    let mut teams: RecordMap<Team> = RecordMap::new();
    teams.insert(EntityKey::new("team", "core"), team(&["alice"], &["bob"]));
    let builder = GraphBuilder::new(&contributors, &teams);
    let first = builder.build_contributors_teams_graph();
    let second = builder.build_contributors_teams_graph();
    assert_eq!(first, second);
    assert_eq!(contributors.get(&EntityKey::new("contributor", "alice")), Some(&contributor("Alice")));
    assert_eq!(teams.get(&EntityKey::new("team", "core")), Some(&team(&["alice"], &["bob"])));
}
