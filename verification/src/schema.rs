//! The canonical field order that a schema document declares.

use crate::document::clone_strings;
use crate::document::strings_view;
use crate::error::LoadError;
use crate::error::LoadErrorView;
use crate::error::SchemaReason;
use crate::error::SchemaReasonView;
use crate::json_text::json_object;
use crate::json_text::members_view;
use crate::json_text::parse_object;
use crate::json_text::Member;
use crate::json_text::MemberView;
use crate::loader::SourceFile;
use crate::loader::SourceFileView;
use vstd::prelude::*;
use vstd::string::*;

verus! {

/// Name of the schema member that declares the fields.
pub const PROPERTIES: &'static str = "properties";

/// The first member called `name`, if there is one.
pub open spec fn first_member(members: Seq<MemberView>, name: Seq<char>) -> Option<MemberView>
    decreases members.len(),
{
    if members.len() == 0 {
        None
    } else {
        match first_member(members.drop_last(), name) {
            Some(member) => Some(member),
            None => if members.last().name == name {
                Some(members.last())
            } else {
                None
            },
        }
    }
}

/// The field order that the members of a schema declare: the member names
/// of its `properties` object, in the order in which they stand.
pub open spec fn schema_order(members: Seq<MemberView>) -> Result<
    Seq<Seq<char>>,
    SchemaReasonView,
> {
    match first_member(members, PROPERTIES@) {
        None => Err(SchemaReasonView::MissingProperties),
        Some(member) => match member.keys {
            None => Err(SchemaReasonView::PropertiesNotObject),
            Some(keys) => Ok(keys),
        },
    }
}

/// The field order that a schema file gives, or the failure that names its
/// path.
pub open spec fn schema_outcome(file: SourceFileView) -> Result<Seq<Seq<char>>, LoadErrorView> {
    match file.content {
        Err(message) => Err(LoadErrorView::Io { path: file.path, message }),
        Ok(text) => match json_object(text) {
            Err(message) => Err(
                LoadErrorView::Schema { path: file.path, cause: SchemaReasonView::Syntax(message) },
            ),
            Ok(members) => match schema_order(members) {
                Ok(order) => Ok(order),
                Err(cause) => Err(LoadErrorView::Schema { path: file.path, cause }),
            },
        },
    }
}

/// `first_member` finds a member exactly when one has the name, and then it
/// is the earliest such member.
pub proof fn lemma_first_member(members: Seq<MemberView>, name: Seq<char>)
    ensures
        first_member(members, name) is None <==> forall|i: int|
            0 <= i < members.len() ==> members[i].name != name,
        first_member(members, name) matches Some(member) ==> exists|i: int|
            {
                &&& 0 <= i < members.len()
                &&& members[i] == member
                &&& member.name == name
                &&& forall|j: int| 0 <= j < i ==> members[j].name != name
            },
    decreases members.len(),
{
    if members.len() > 0 {
        let front = members.drop_last();
        lemma_first_member(front, name);
        assert forall|j: int| 0 <= j < front.len() implies front[j] == members[j] by {}
        match first_member(front, name) {
            Some(member) => {
                let i = choose|i: int|
                    {
                        &&& 0 <= i < front.len()
                        &&& front[i] == member
                        &&& member.name == name
                        &&& forall|j: int| 0 <= j < i ==> front[j].name != name
                    };
                assert(members[i] == member);
                assert forall|j: int| 0 <= j < i implies members[j].name != name by {
                    assert(front[j] == members[j]);
                }
            },
            None => {
                if members.last().name == name {
                    assert(members[members.len() - 1] == members.last());
                }
            },
        }
    }
}

/// The field order that the members of a schema document declare.
///
/// Fails if no member is called `properties`, or if the first that is does
/// not hold an object.
pub fn schema_key_order(members: &Vec<Member>) -> (order: Result<Vec<String>, SchemaReason>)
    ensures
        match order {
            Ok(names) => schema_order(members_view(members@)) == Ok::<
                Seq<Seq<char>>,
                SchemaReasonView,
            >(strings_view(names@)),
            Err(cause) => schema_order(members_view(members@)) == Err::<
                Seq<Seq<char>>,
                SchemaReasonView,
            >(cause@),
        },
{
    let properties = String::from_str(PROPERTIES);
    let ghost all = members_view(members@);
    let mut i: usize = 0;
    while i < members.len()
        invariant
            i <= members.len(),
            all == members_view(members@),
            properties@ == PROPERTIES@,
            first_member(all.take(i as int), PROPERTIES@) is None,
        decreases members.len() - i,
    {
        proof {
            assert(all.take(i + 1).drop_last() =~= all.take(i as int));
            assert(all.take(i + 1).last() == members@[i as int]@);
        }
        if members[i].name == properties {
            proof {
                lemma_found_member_stays(all, PROPERTIES@, i + 1);
            }
            return match &members[i].keys {
                None => Err(SchemaReason::PropertiesNotObject),
                Some(keys) => Ok(clone_strings(keys)),
            };
        }
        i += 1;
    }
    assert(all.take(i as int) =~= all);
    Err(SchemaReason::MissingProperties)
}

proof fn lemma_found_member_stays(members: Seq<MemberView>, name: Seq<char>, count: int)
    requires
        0 <= count <= members.len(),
        first_member(members.take(count), name) is Some,
    ensures
        first_member(members, name) == first_member(members.take(count), name),
    decreases members.len(),
{
    if count < members.len() {
        assert(members.drop_last().take(count) =~= members.take(count));
        lemma_found_member_stays(members.drop_last(), name, count);
    } else {
        assert(members.take(count) =~= members);
    }
}

/// Reads the canonical field order from a schema file.
///
/// Fails if the file could not be read, if its text is not a JSON object,
/// or if the object declares no `properties` object.
pub fn load_schema_key_ordering(schema: &SourceFile) -> (result: Result<Vec<String>, LoadError>)
    ensures
        match result {
            Ok(names) => schema_outcome(schema@) == Ok::<Seq<Seq<char>>, LoadErrorView>(
                strings_view(names@),
            ),
            Err(error) => schema_outcome(schema@) == Err::<Seq<Seq<char>>, LoadErrorView>(error@),
        },
{
    match &schema.content {
        Err(message) => Err(LoadError::Io { path: schema.path.clone(), message: message.clone() }),
        Ok(text) => match parse_object(text.as_str()) {
            Err(message) => Err(
                LoadError::Schema { path: schema.path.clone(), cause: SchemaReason::Syntax(message) },
            ),
            Ok(members) => match schema_key_order(&members) {
                Ok(names) => Ok(names),
                Err(cause) => Err(LoadError::Schema { path: schema.path.clone(), cause }),
            },
        },
    }
}

} // verus!
