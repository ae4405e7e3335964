//! Identity of a loaded record.

use vstd::prelude::*;
use vstd::string::*;

verus! {

/// Kind label of every contributor record.
pub const CONTRIBUTOR_KIND: &'static str = "contributor";

/// Kind label of every team record.
pub const TEAM_KIND: &'static str = "team";

/// Composite identity of a record: its category and its file-derived name.
#[derive(Debug, PartialEq, Eq)]
pub struct EntityKey {
    pub kind: String,
    pub name: String,
}

/// Mathematical content of an [`EntityKey`]: its kind and its name.
pub type KeyView = (Seq<char>, Seq<char>);

/// The characters of the scoped identifier `kind:name`.
pub open spec fn scoped_id_of(kind: Seq<char>, name: Seq<char>) -> Seq<char> {
    kind + seq![':'] + name
}

impl View for EntityKey {
    type V = KeyView;

    open spec fn view(&self) -> KeyView {
        (self.kind@, self.name@)
    }
}

impl EntityKey {
    /// Builds a key from its two parts.
    pub fn new(kind: &str, name: &str) -> (key: EntityKey)
        ensures
            key@ == (kind@, name@),
    {
        EntityKey { kind: String::from_str(kind), name: String::from_str(name) }
    }

    /// The human-readable identifier `kind:name` used for graph nodes and links.
    pub fn scoped_id(&self) -> (id: String)
        ensures
            id@ == scoped_id_of(self.kind@, self.name@),
    {
        let mut id = self.kind.clone();
        proof {
            reveal_strlit(":");
        }
        id.append(":");
        id.append(self.name.as_str());
        assert(id@ =~= scoped_id_of(self.kind@, self.name@));
        id
    }

    /// Whether two keys name the same record.
    pub fn same(&self, other: &EntityKey) -> (eq: bool)
        ensures
            eq == (self@ == other@),
    {
        self.kind == other.kind && self.name == other.name
    }
}

impl Clone for EntityKey {
    fn clone(&self) -> (copy: EntityKey)
        ensures
            copy@ == self@,
    {
        EntityKey { kind: self.kind.clone(), name: self.name.clone() }
    }
}

/// Scoped identifiers of keys with the same kind differ exactly when the names differ.
pub proof fn lemma_scoped_id_same_kind(kind: Seq<char>, a: Seq<char>, b: Seq<char>)
    ensures
        scoped_id_of(kind, a) == scoped_id_of(kind, b) <==> a == b,
{
    if scoped_id_of(kind, a) == scoped_id_of(kind, b) {
        let p = kind + seq![':'];
        assert(scoped_id_of(kind, a).subrange(p.len() as int, scoped_id_of(kind, a).len() as int) =~= a);
        assert(scoped_id_of(kind, b).subrange(p.len() as int, scoped_id_of(kind, b).len() as int) =~= b);
    }
}

} // verus!
