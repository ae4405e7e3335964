//! The membership graph of contributors and teams.

use crate::collection::lemma_position;
use crate::collection::lookup;
use crate::collection::RecordMap;
use crate::key::lemma_scoped_id_same_kind;
use crate::key::scoped_id_of;
use crate::key::EntityKey;
use crate::key::KeyView;
use crate::key::CONTRIBUTOR_KIND;
use crate::key::TEAM_KIND;
use crate::model::Contributor;
use crate::model::ContributorView;
use crate::model::Team;
use crate::model::TeamView;
use vstd::prelude::*;
use vstd::string::*;

verus! {

/// Label of the link from a team to one of its members.
pub const MEMBER_LINK: &'static str = "team-member";

/// Name of the view that holds the whole graph.
pub const DEFAULT_VIEW: &'static str = "default";

/// A node of the graph: a record with its scoped identifier.
#[derive(Debug, PartialEq, Eq)]
#[allow(inconsistent_fields)]
pub enum GraphNode {
    Contributor { id: String, inner: Contributor },
    Team { id: String, inner: Team },
}

/// A directed link between two scoped identifiers.
#[derive(Debug, PartialEq, Eq)]
pub struct GraphLink {
    pub source: String,
    pub target: String,
    pub link_type: String,
}

/// The nodes and links of one view of the graph.
#[derive(Debug, PartialEq, Eq)]
pub struct GraphData {
    pub nodes: Vec<GraphNode>,
    pub links: Vec<GraphLink>,
}

/// A view of the graph under its name.
#[derive(Debug, PartialEq, Eq)]
pub struct GraphView {
    pub name: String,
    pub data: GraphData,
}

/// The graph document: its named views.
#[derive(Debug, PartialEq, Eq)]
pub struct GraphDocument {
    pub views: Vec<GraphView>,
}

/// Mathematical content of a [`GraphNode`].
#[allow(inconsistent_fields)]
pub enum NodeView {
    Contributor { id: Seq<char>, inner: ContributorView },
    Team { id: Seq<char>, inner: TeamView },
}

/// Mathematical content of a [`GraphLink`].
pub struct LinkView {
    pub source: Seq<char>,
    pub target: Seq<char>,
    pub link_type: Seq<char>,
}

/// Mathematical content of a [`GraphData`].
pub struct GraphDataView {
    pub nodes: Seq<NodeView>,
    pub links: Seq<LinkView>,
}

impl View for GraphNode {
    type V = NodeView;

    open spec fn view(&self) -> NodeView {
        match self {
            GraphNode::Contributor { id, inner } => NodeView::Contributor {
                id: id@,
                inner: inner@,
            },
            GraphNode::Team { id, inner } => NodeView::Team { id: id@, inner: inner@ },
        }
    }
}

impl View for GraphLink {
    type V = LinkView;

    open spec fn view(&self) -> LinkView {
        LinkView { source: self.source@, target: self.target@, link_type: self.link_type@ }
    }
}

impl View for GraphData {
    type V = GraphDataView;

    open spec fn view(&self) -> GraphDataView {
        GraphDataView {
            nodes: self.nodes@.map_values(|node: GraphNode| node@),
            links: self.links@.map_values(|link: GraphLink| link@),
        }
    }
}

impl View for GraphView {
    type V = (Seq<char>, GraphDataView);

    open spec fn view(&self) -> (Seq<char>, GraphDataView) {
        (self.name@, self.data@)
    }
}

impl View for GraphDocument {
    type V = Seq<(Seq<char>, GraphDataView)>;

    open spec fn view(&self) -> Seq<(Seq<char>, GraphDataView)> {
        self.views@.map_values(|view: GraphView| view@)
    }
}

/// The scoped identifier of a node.
pub open spec fn node_id(node: NodeView) -> Seq<char> {
    match node {
        NodeView::Contributor { id, .. } => id,
        NodeView::Team { id, .. } => id,
    }
}

/// The node of a contributor.
pub open spec fn contributor_node(entry: (KeyView, ContributorView)) -> NodeView {
    NodeView::Contributor { id: scoped_id_of(entry.0.0, entry.0.1), inner: entry.1 }
}

/// The node of a team.
pub open spec fn team_node(entry: (KeyView, TeamView)) -> NodeView {
    NodeView::Team { id: scoped_id_of(entry.0.0, entry.0.1), inner: entry.1 }
}

/// The link from the node `source` to the contributor called `member`.
pub open spec fn member_link(source: Seq<char>, member: Seq<char>) -> LinkView {
    LinkView {
        source,
        target: scoped_id_of(CONTRIBUTOR_KIND@, member),
        link_type: MEMBER_LINK@,
    }
}

/// The links from the node `source` to the given members, in their order.
pub open spec fn member_links(source: Seq<char>, members: Seq<Seq<char>>) -> Seq<LinkView> {
    members.map_values(|member: Seq<char>| member_link(source, member))
}

/// The members of a team: its leads, then its devs.
pub open spec fn team_members(team: TeamView) -> Seq<Seq<char>> {
    team.leads + team.devs
}

/// The links of one team: one to each of its members.
pub open spec fn team_links(entry: (KeyView, TeamView)) -> Seq<LinkView> {
    member_links(scoped_id_of(entry.0.0, entry.0.1), team_members(entry.1))
}

/// The links of the teams, team after team.
pub open spec fn graph_links(teams: Seq<(KeyView, TeamView)>) -> Seq<LinkView>
    decreases teams.len(),
{
    if teams.len() == 0 {
        Seq::empty()
    } else {
        graph_links(teams.drop_last()) + team_links(teams.last())
    }
}

/// The nodes of the graph: the contributors, then the teams.
pub open spec fn graph_nodes(
    contributors: Seq<(KeyView, ContributorView)>,
    teams: Seq<(KeyView, TeamView)>,
) -> Seq<NodeView> {
    contributors.map_values(|entry: (KeyView, ContributorView)| contributor_node(entry))
        + teams.map_values(|entry: (KeyView, TeamView)| team_node(entry))
}

/// The graph of the two collections.
pub open spec fn graph_of(
    contributors: Seq<(KeyView, ContributorView)>,
    teams: Seq<(KeyView, TeamView)>,
) -> GraphDataView {
    GraphDataView { nodes: graph_nodes(contributors, teams), links: graph_links(teams) }
}

impl GraphNode {
    /// The discriminator of the node's kind.
    pub fn node_type(&self) -> (kind: &'static str)
        ensures
            kind@ == match self {
                GraphNode::Contributor { .. } => CONTRIBUTOR_KIND@,
                GraphNode::Team { .. } => TEAM_KIND@,
            },
    {
        match self {
            GraphNode::Contributor { .. } => CONTRIBUTOR_KIND,
            GraphNode::Team { .. } => TEAM_KIND,
        }
    }

    /// The scoped identifier of the node.
    pub fn id(&self) -> (id: &String)
        ensures
            id@ == node_id(self@),
    {
        match self {
            GraphNode::Contributor { id, .. } => id,
            GraphNode::Team { id, .. } => id,
        }
    }
}

/// Adds the links from the node `source` to each of the members.
fn push_member_links(links: &mut Vec<GraphLink>, source: &String, members: &Vec<String>)
    ensures
        final(links)@.map_values(|link: GraphLink| link@) == old(links)@.map_values(
            |link: GraphLink| link@,
        ) + member_links(source@, members@.map_values(|member: String| member@)),
{
    let ghost before = links@.map_values(|link: GraphLink| link@);
    let ghost names = members@.map_values(|member: String| member@);
    let mut i: usize = 0;
    while i < members.len()
        invariant
            i <= members.len(),
            names == members@.map_values(|member: String| member@),
            links@.map_values(|link: GraphLink| link@) == before + member_links(
                source@,
                names.take(i as int),
            ),
        decreases members.len() - i,
    {
        let target = EntityKey::new(CONTRIBUTOR_KIND, members[i].as_str());
        let link = GraphLink {
            source: source.clone(),
            target: target.scoped_id(),
            link_type: String::from_str(MEMBER_LINK),
        };
        proof {
            assert(link@ == member_link(source@, names[i as int]));
            assert(names.take(i + 1) =~= names.take(i as int).push(names[i as int]));
            assert(links@.push(link).map_values(|link: GraphLink| link@) =~= links@.map_values(
                |link: GraphLink| link@,
            ).push(link@));
            assert(member_links(source@, names.take(i + 1)) =~= member_links(
                source@,
                names.take(i as int),
            ).push(link@));
            assert(links@.push(link).map_values(|link: GraphLink| link@) =~= before + member_links(
                source@,
                names.take(i + 1),
            ));
        }
        links.push(link);
        i += 1;
    }
    assert(names.take(i as int) =~= names);
}

/// Builds graphs from a collection of contributors and one of teams.
pub struct GraphBuilder<'a> {
    contributors: &'a RecordMap<Contributor>,
    teams: &'a RecordMap<Team>,
}

impl<'a> GraphBuilder<'a> {
    /// The contributors that the builder reads.
    pub closed spec fn contributors(&self) -> Seq<(KeyView, ContributorView)> {
        self.contributors@
    }

    /// The teams that the builder reads.
    pub closed spec fn teams(&self) -> Seq<(KeyView, TeamView)> {
        self.teams@
    }

    /// A builder over the two collections.
    pub fn new(contributors: &'a RecordMap<Contributor>, teams: &'a RecordMap<Team>) -> (builder:
        GraphBuilder<'a>)
        ensures
            builder.contributors() == contributors@,
            builder.teams() == teams@,
    {
        GraphBuilder { contributors, teams }
    }

    /// The graph of contributors, teams and team membership: one node for
    /// every contributor, then one for every team, and for every team one
    /// link to each of its leads and then to each of its devs. A member
    /// gets its link whether or not a contributor of that name exists.
    pub fn build_contributors_teams_graph(&self) -> (data: GraphData)
        ensures
            data@ == graph_of(self.contributors(), self.teams()),
    {
        let mut nodes: Vec<GraphNode> = Vec::new();
        let mut links: Vec<GraphLink> = Vec::new();
        let ghost contributors = self.contributors@;
        let ghost teams = self.teams@;
        let contributor_count = self.contributors.len();
        let team_count = self.teams.len();
        let mut i: usize = 0;
        loop
            invariant
                contributors == self.contributors@,
                contributors.len() == contributor_count,
                i <= contributors.len(),
                nodes@.map_values(|node: GraphNode| node@) == contributors.take(
                    i as int,
                ).map_values(|entry: (KeyView, ContributorView)| contributor_node(entry)),
            ensures
                i == contributors.len(),
            decreases contributors.len() - i,
        {
            match self.contributors.entry(i) {
                None => {
                    break ;
                },
                Some((key, contributor)) => {
                    let node = GraphNode::Contributor {
                        id: key.scoped_id(),
                        inner: contributor.clone(),
                    };
                    proof {
                        assert(node@ == contributor_node(contributors[i as int]));
                        assert(contributors.take(i + 1) =~= contributors.take(i as int).push(
                            contributors[i as int],
                        ));
                        assert(nodes@.push(node).map_values(|node: GraphNode| node@)
                            =~= nodes@.map_values(|node: GraphNode| node@).push(node@));
                        assert(nodes@.push(node).map_values(|node: GraphNode| node@)
                            =~= contributors.take(i + 1).map_values(
                            |entry: (KeyView, ContributorView)| contributor_node(entry),
                        ));
                    }
                    nodes.push(node);
                    i += 1;
                },
            }
        }
        assert(contributors.take(i as int) =~= contributors);
        let ghost contributor_nodes = nodes@.map_values(|node: GraphNode| node@);
        let mut t: usize = 0;
        loop
            invariant
                teams == self.teams@,
                teams.len() == team_count,
                t <= teams.len(),
                nodes@.map_values(|node: GraphNode| node@) == contributor_nodes + teams.take(
                    t as int,
                ).map_values(|entry: (KeyView, TeamView)| team_node(entry)),
                links@.map_values(|link: GraphLink| link@) == graph_links(teams.take(t as int)),
            ensures
                t == teams.len(),
            decreases teams.len() - t,
        {
            match self.teams.entry(t) {
                None => {
                    break ;
                },
                Some((key, team)) => {
                    let id = key.scoped_id();
                    push_member_links(&mut links, &id, &team.leads);
                    push_member_links(&mut links, &id, &team.devs);
                    let node = GraphNode::Team { id, inner: team.clone() };
                    proof {
                        let entry = teams[t as int];
                        assert(node@ == team_node(entry));
                        assert(teams.take(t + 1) =~= teams.take(t as int).push(entry));
                        assert(teams.take(t + 1).drop_last() =~= teams.take(t as int));
                        assert(nodes@.push(node).map_values(|node: GraphNode| node@)
                            =~= nodes@.map_values(|node: GraphNode| node@).push(node@));
                        assert(nodes@.push(node).map_values(|node: GraphNode| node@)
                            =~= contributor_nodes + teams.take(t + 1).map_values(
                            |entry: (KeyView, TeamView)| team_node(entry),
                        ));
                        assert(member_links(node_id(node@), entry.1.leads) + member_links(
                            node_id(node@),
                            entry.1.devs,
                        ) =~= team_links(entry));
                        assert(links@.map_values(|link: GraphLink| link@) =~= graph_links(
                            teams.take(t + 1),
                        ));
                    }
                    nodes.push(node);
                    t += 1;
                },
            }
        }
        assert(teams.take(t as int) =~= teams);
        GraphData { nodes, links }
    }
}

/// The links of two runs of teams, one after the other, are the links of
/// the first run followed by those of the second.
pub proof fn lemma_graph_links_concat(
    first: Seq<(KeyView, TeamView)>,
    second: Seq<(KeyView, TeamView)>,
)
    ensures
        graph_links(first + second) == graph_links(first) + graph_links(second),
    decreases second.len(),
{
    if second.len() == 0 {
        assert(first + second =~= first);
        assert(graph_links(first) + graph_links(second) =~= graph_links(first));
    } else {
        lemma_graph_links_concat(first, second.drop_last());
        assert((first + second).drop_last() =~= first + second.drop_last());
        assert((first + second).last() == second.last());
        assert(graph_links(first + second) =~= graph_links(first) + graph_links(second));
    }
}

/// Every team has one link for each of its leads and then one for each of
/// its devs, in that order and in one run, each from the team to the
/// contributor of that name and labelled as a membership link. Before the
/// run stand the links of the teams before it, behind it those of the teams
/// after it.
pub proof fn lemma_links_of_team(teams: Seq<(KeyView, TeamView)>, t: int)
    requires
        0 <= t < teams.len(),
    ensures
        graph_links(teams) == graph_links(teams.take(t)) + team_links(teams[t]) + graph_links(
            teams.skip(t + 1),
        ),
        team_links(teams[t]).len() == teams[t].1.leads.len() + teams[t].1.devs.len(),
        forall|j: int|
            0 <= j < teams[t].1.leads.len() ==> team_links(teams[t])[j] == member_link(
                scoped_id_of(teams[t].0.0, teams[t].0.1),
                #[trigger] teams[t].1.leads[j],
            ),
        forall|j: int|
            0 <= j < teams[t].1.devs.len() ==> team_links(teams[t])[teams[t].1.leads.len() + j]
                == member_link(
                scoped_id_of(teams[t].0.0, teams[t].0.1),
                #[trigger] teams[t].1.devs[j],
            ),
        forall|j: int|
            0 <= j < team_links(teams[t]).len() ==> (#[trigger] team_links(teams[t])[j]).link_type
                == MEMBER_LINK@,
{
    let before = teams.take(t);
    let one = seq![teams[t]];
    let after = teams.skip(t + 1);
    assert(teams =~= before + one + after);
    lemma_graph_links_concat(before + one, after);
    lemma_graph_links_concat(before, one);
    assert(one.drop_last() =~= Seq::<(KeyView, TeamView)>::empty());
    assert(graph_links(one.drop_last()) =~= Seq::<LinkView>::empty());
    assert(one.last() == teams[t]);
    assert(graph_links(one) =~= team_links(teams[t]));
}

/// The identifier of a record begins with its kind.
proof fn lemma_scoped_id_starts_with_kind(kind: Seq<char>, name: Seq<char>)
    requires
        kind.len() > 0,
    ensures
        scoped_id_of(kind, name)[0] == kind[0],
{
}

/// A member of a team without a contributor record still has its link, and
/// no node of the graph is the target of that link. This holds where every
/// key of the contributors has the contributor kind and every key of the
/// teams the team kind, as loaded collections have them.
pub proof fn lemma_dangling_member(
    contributors: Seq<(KeyView, ContributorView)>,
    teams: Seq<(KeyView, TeamView)>,
    t: int,
    j: int,
)
    requires
        forall|i: int| 0 <= i < contributors.len() ==> contributors[i].0.0 == CONTRIBUTOR_KIND@,
        forall|i: int| 0 <= i < teams.len() ==> teams[i].0.0 == TEAM_KIND@,
        0 <= t < teams.len(),
        0 <= j < team_members(teams[t].1).len(),
        lookup(contributors, (CONTRIBUTOR_KIND@, team_members(teams[t].1)[j])) is None,
    ensures
        graph_links(teams).contains(
            member_link(scoped_id_of(teams[t].0.0, teams[t].0.1), team_members(teams[t].1)[j]),
        ),
        forall|n: int|
            0 <= n < graph_nodes(contributors, teams).len() ==> node_id(
                #[trigger] graph_nodes(contributors, teams)[n],
            ) != scoped_id_of(CONTRIBUTOR_KIND@, team_members(teams[t].1)[j]),
{
    let member = team_members(teams[t].1)[j];
    let target = scoped_id_of(CONTRIBUTOR_KIND@, member);
    let link = member_link(scoped_id_of(teams[t].0.0, teams[t].0.1), member);
    lemma_links_of_team(teams, t);
    let offset = graph_links(teams.take(t)).len() as int;
    assert(team_links(teams[t])[j] == link);
    assert(graph_links(teams)[offset + j] == link);
    lemma_position(contributors, (CONTRIBUTOR_KIND@, member));
    reveal_strlit("contributor");
    reveal_strlit("team");
    assert(CONTRIBUTOR_KIND@[0] == 'c');
    assert(TEAM_KIND@[0] == 't');
    let nodes = graph_nodes(contributors, teams);
    assert forall|n: int| 0 <= n < nodes.len() implies node_id(#[trigger] nodes[n]) != target by {
        lemma_scoped_id_starts_with_kind(CONTRIBUTOR_KIND@, member);
        if n < contributors.len() {
            let key = contributors[n].0;
            assert(nodes[n] == contributor_node(contributors[n]));
            assert(key != (CONTRIBUTOR_KIND@, member));
            lemma_scoped_id_same_kind(CONTRIBUTOR_KIND@, key.1, member);
        } else {
            let key = teams[n - contributors.len()].0;
            assert(nodes[n] == team_node(teams[n - contributors.len()]));
            lemma_scoped_id_starts_with_kind(TEAM_KIND@, key.1);
        }
    }
}

/// The content of the graph document of the two collections: the whole
/// graph, under the name of the default view.
pub open spec fn document_of(
    contributors: Seq<(KeyView, ContributorView)>,
    teams: Seq<(KeyView, TeamView)>,
) -> Seq<(Seq<char>, GraphDataView)> {
    seq![(DEFAULT_VIEW@, graph_of(contributors, teams))]
}

/// The graph document of the two collections.
pub fn build_graph_data(contributors: RecordMap<Contributor>, teams: RecordMap<Team>) -> (document:
    GraphDocument)
    ensures
        document@ == document_of(contributors@, teams@),
{
    let builder = GraphBuilder::new(&contributors, &teams);
    let data = builder.build_contributors_teams_graph();
    let mut views: Vec<GraphView> = Vec::new();
    views.push(GraphView { name: String::from_str(DEFAULT_VIEW), data });
    let document = GraphDocument { views };
    assert(document@ =~= document_of(contributors@, teams@));
    document
}

} // verus!
