//! The record kinds and what a parsed file must hold to be one.

use crate::document::clone_fields;
use crate::document::clone_strings;
use crate::document::fields_view;
use crate::document::items_view;
use crate::document::lemma_array_view;
use crate::document::strings_view;
use crate::document::Field;
use crate::document::FieldView;
use crate::document::Item;
use crate::document::ItemView;
use crate::error::ParseReason;
use crate::error::ParseReasonView;
use vstd::prelude::*;
use vstd::string::*;

verus! {

/// Name of the field that lists a team's leads.
pub const LEADS_FIELD: &'static str = "leads";

/// Name of the field that lists a team's other members.
pub const DEVS_FIELD: &'static str = "devs";

/// A contributor: every field of its file, as written.
#[derive(Debug, PartialEq, Eq)]
pub struct Contributor {
    pub fields: Vec<Field>,
    pub key_order: Vec<String>,
}

/// A team: its two member lists, and every other field of its file.
#[derive(Debug, PartialEq, Eq)]
pub struct Team {
    pub leads: Vec<String>,
    pub devs: Vec<String>,
    pub extra: Vec<Field>,
    pub key_order: Vec<String>,
}

/// Mathematical content of a [`Contributor`].
pub struct ContributorView {
    pub fields: Seq<FieldView>,
    pub key_order: Seq<Seq<char>>,
}

/// Mathematical content of a [`Team`].
pub struct TeamView {
    pub leads: Seq<Seq<char>>,
    pub devs: Seq<Seq<char>>,
    pub extra: Seq<FieldView>,
    pub key_order: Seq<Seq<char>>,
}

impl View for Contributor {
    type V = ContributorView;

    open spec fn view(&self) -> ContributorView {
        ContributorView {
            fields: fields_view(self.fields@),
            key_order: strings_view(self.key_order@),
        }
    }
}

impl View for Team {
    type V = TeamView;

    open spec fn view(&self) -> TeamView {
        TeamView {
            leads: strings_view(self.leads@),
            devs: strings_view(self.devs@),
            extra: fields_view(self.extra@),
            key_order: strings_view(self.key_order@),
        }
    }
}

/// A record that remembers the order in which its fields were written.
pub trait HasKeyOrder: View + Sized {
    /// The key order of a record with the content `view`.
    spec fn key_order_of(view: Self::V) -> Seq<Seq<char>>;

    /// The content `view` with its key order replaced and nothing else changed.
    spec fn with_key_order(view: Self::V, key_order: Seq<Seq<char>>) -> Self::V;

    /// Attaches the order in which the record's fields stood in its file.
    fn set_key_order(&mut self, key_order: Vec<String>)
        ensures
            final(self)@ == Self::with_key_order(old(self)@, strings_view(key_order@)),
    ;

    /// The key order that was set is the key order that is held.
    proof fn lemma_key_order_set(view: Self::V, key_order: Seq<Seq<char>>)
        ensures
            Self::key_order_of(Self::with_key_order(view, key_order)) == key_order,
    ;
}

/// A record kind that can be read from the fields of a parsed file.
pub trait Record: HasKeyOrder {
    /// The content of the record that the fields decode to, with no key order
    /// attached yet, or the reason why they are no record of this kind.
    spec fn decoded(fields: Seq<FieldView>) -> Result<Self::V, ParseReasonView>;

    /// Reads a record from the top-level fields of its file.
    fn decode(fields: Vec<Field>) -> (decoded: Result<Self, ParseReason>)
        ensures
            match decoded {
                Ok(record) => Self::decoded(fields_view(fields@)) == Ok::<
                    Self::V,
                    ParseReasonView,
                >(record@),
                Err(reason) => Self::decoded(fields_view(fields@)) == Err::<
                    Self::V,
                    ParseReasonView,
                >(reason@),
            },
    ;
}

/// The value of the first field called `name`, if there is one.
pub open spec fn first_named(fields: Seq<FieldView>, name: Seq<char>) -> Option<ItemView>
    decreases fields.len(),
{
    if fields.len() == 0 {
        None
    } else {
        match first_named(fields.drop_last(), name) {
            Some(value) => Some(value),
            None => if fields.last().name == name {
                Some(fields.last().value)
            } else {
                None
            },
        }
    }
}

/// The strings of an array that holds nothing but strings.
pub open spec fn text_list(item: ItemView) -> Option<Seq<Seq<char>>> {
    match item {
        ItemView::Array(items) => if forall|i: int| 0 <= i < items.len() ==> items[i] is Text {
            Some(items.map_values(|element: ItemView| element->Text_0))
        } else {
            None
        },
        _ => None,
    }
}

/// The member list that a team file holds under `name`: the field must be
/// there, and must be an array of strings.
pub open spec fn member_list(fields: Seq<FieldView>, name: Seq<char>) -> Result<
    Seq<Seq<char>>,
    ParseReasonView,
> {
    match first_named(fields, name) {
        None => Err(ParseReasonView::MissingField(name)),
        Some(item) => match text_list(item) {
            None => Err(ParseReasonView::WrongType(name)),
            Some(members) => Ok(members),
        },
    }
}

/// Whether a field of a team file is neither of the two member lists.
pub open spec fn is_extra(field: FieldView) -> bool {
    field.name != LEADS_FIELD@ && field.name != DEVS_FIELD@
}

/// `first_named` finds a field exactly when one has the name, and then it is
/// the value of the earliest such field.
pub proof fn lemma_first_named(fields: Seq<FieldView>, name: Seq<char>)
    ensures
        first_named(fields, name) is None <==> forall|i: int|
            0 <= i < fields.len() ==> fields[i].name != name,
        first_named(fields, name) matches Some(value) ==> exists|i: int|
            {
                &&& 0 <= i < fields.len()
                &&& fields[i].name == name
                &&& fields[i].value == value
                &&& forall|j: int| 0 <= j < i ==> fields[j].name != name
            },
    decreases fields.len(),
{
    if fields.len() > 0 {
        let front = fields.drop_last();
        lemma_first_named(front, name);
        match first_named(front, name) {
            Some(value) => {
                let i = choose|i: int|
                    {
                        &&& 0 <= i < front.len()
                        &&& front[i].name == name
                        &&& front[i].value == value
                        &&& forall|j: int| 0 <= j < i ==> front[j].name != name
                    };
                assert(fields[i] == front[i]);
                assert forall|j: int| 0 <= j < i implies fields[j].name != name by {
                    assert(fields[j] == front[j]);
                }
            },
            None => {
                assert forall|j: int| 0 <= j < front.len() implies fields[j].name != name by {
                    assert(fields[j] == front[j]);
                }
                if fields.last().name == name {
                    assert(fields[fields.len() - 1] == fields.last());
                }
            },
        }
    }
}

proof fn lemma_first_named_push(fields: Seq<FieldView>, field: FieldView, name: Seq<char>)
    ensures
        first_named(fields.push(field), name) == match first_named(fields, name) {
            Some(value) => Some(value),
            None => if field.name == name {
                Some(field.value)
            } else {
                None
            },
        },
{
    assert(fields.push(field).drop_last() =~= fields);
}

/// Takes the strings out of an array that holds nothing but strings.
pub fn into_text_list(item: Item) -> (list: Option<Vec<String>>)
    ensures
        match list {
            Some(strings) => text_list(item@) == Some(strings_view(strings@)),
            None => text_list(item@) is None,
        },
{
    let ghost whole = item@;
    match item {
        Item::Array(items) => {
            proof {
                lemma_array_view(items);
            }
            let ghost all = items@;
            let mut strings: Vec<String> = Vec::new();
            for element in it: items
                invariant
                    it.seq() == all,
                    whole == item@,
                    whole == ItemView::Array(items_view(all)),
                    strings.len() == it.index(),
                    forall|j: int|
                        0 <= j < strings.len() ==> all[j]@ == ItemView::Text(strings@[j]@),
            {
                match element {
                    Item::Text(s) => {
                        strings.push(s);
                    },
                    _ => {
                        assert(!(items_view(all)[it.index() as int] is Text));
                        return None;
                    },
                }
            }
            assert(forall|i: int| 0 <= i < all.len() ==> items_view(all)[i] is Text);
            assert(items_view(all).map_values(|element: ItemView| element->Text_0) =~= strings_view(
                strings@,
            ));
            Some(strings)
        },
        _ => None,
    }
}

impl HasKeyOrder for Contributor {
    open spec fn key_order_of(view: ContributorView) -> Seq<Seq<char>> {
        view.key_order
    }

    open spec fn with_key_order(view: ContributorView, key_order: Seq<Seq<char>>) -> ContributorView {
        ContributorView { key_order, ..view }
    }

    fn set_key_order(&mut self, key_order: Vec<String>) {
        self.key_order = key_order;
    }

    proof fn lemma_key_order_set(view: ContributorView, key_order: Seq<Seq<char>>) {
    }
}

impl HasKeyOrder for Team {
    open spec fn key_order_of(view: TeamView) -> Seq<Seq<char>> {
        view.key_order
    }

    open spec fn with_key_order(view: TeamView, key_order: Seq<Seq<char>>) -> TeamView {
        TeamView { key_order, ..view }
    }

    fn set_key_order(&mut self, key_order: Vec<String>) {
        self.key_order = key_order;
    }

    proof fn lemma_key_order_set(view: TeamView, key_order: Seq<Seq<char>>) {
    }
}

/// The team that a file's fields decode to, with no key order attached yet.
pub open spec fn decoded_team(fields: Seq<FieldView>) -> Result<TeamView, ParseReasonView> {
    match member_list(fields, LEADS_FIELD@) {
        Err(reason) => Err(reason),
        Ok(leads) => match member_list(fields, DEVS_FIELD@) {
            Err(reason) => Err(reason),
            Ok(devs) => Ok(
                TeamView {
                    leads,
                    devs,
                    extra: fields.filter(|field: FieldView| is_extra(field)),
                    key_order: Seq::empty(),
                },
            ),
        },
    }
}

impl Record for Contributor {
    /// Every file that parses is a contributor, with all of its fields.
    open spec fn decoded(fields: Seq<FieldView>) -> Result<ContributorView, ParseReasonView> {
        Ok(ContributorView { fields, key_order: Seq::empty() })
    }

    fn decode(fields: Vec<Field>) -> (decoded: Result<Contributor, ParseReason>) {
        let record = Contributor { fields, key_order: Vec::new() };
        assert(strings_view(record.key_order@) =~= Seq::<Seq<char>>::empty());
        Ok(record)
    }
}

/// The two member lists go by different names.
pub proof fn lemma_member_fields_differ()
    ensures
        LEADS_FIELD@ != DEVS_FIELD@,
{
    reveal_strlit("leads");
    reveal_strlit("devs");
    assert(LEADS_FIELD@.len() == 5);
    assert(DEVS_FIELD@.len() == 4);
}

/// The member list that was found under `name`, or the reason why there is none.
fn take_member_list(found: Option<Item>, name: &str) -> (members: Result<Vec<String>, ParseReason>)
    ensures
        match members {
            Ok(list) => found matches Some(item) && text_list(item@) == Some(
                strings_view(list@),
            ),
            Err(reason) => reason@ == match found {
                None => ParseReasonView::MissingField(name@),
                Some(_) => ParseReasonView::WrongType(name@),
            } && (found matches Some(item) ==> text_list(item@) is None),
        },
{
    match found {
        None => Err(ParseReason::MissingField(String::from_str(name))),
        Some(item) => match into_text_list(item) {
            None => Err(ParseReason::WrongType(String::from_str(name))),
            Some(list) => Ok(list),
        },
    }
}

impl Record for Team {
    /// A team file must hold `leads` and `devs`, each an array of strings;
    /// `leads` is looked at first. Its other fields are kept as they are.
    open spec fn decoded(fields: Seq<FieldView>) -> Result<TeamView, ParseReasonView> {
        decoded_team(fields)
    }

    fn decode(fields: Vec<Field>) -> (decoded: Result<Team, ParseReason>) {
        let leads_name = String::from_str(LEADS_FIELD);
        let devs_name = String::from_str(DEVS_FIELD);
        let ghost all = fields@;
        let ghost content = fields_view(all);
        let mut leads: Option<Item> = None;
        let mut devs: Option<Item> = None;
        let mut extra: Vec<Field> = Vec::new();
        for field in it: fields
            invariant
                it.seq() == all,
                content == fields_view(all),
                leads_name@ == LEADS_FIELD@,
                devs_name@ == DEVS_FIELD@,
                first_named(content.take(it.index() as int), LEADS_FIELD@) == match leads {
                    Some(item) => Some(item@),
                    None => None,
                },
                first_named(content.take(it.index() as int), DEVS_FIELD@) == match devs {
                    Some(item) => Some(item@),
                    None => None,
                },
                fields_view(extra@) == content.take(it.index() as int).filter(
                    |field: FieldView| is_extra(field),
                ),
        {
            proof {
                let seen = content.take(it.index() as int);
                assert(seen.push(field@) =~= content.take(it.index() + 1));
                lemma_first_named_push(seen, field@, LEADS_FIELD@);
                lemma_first_named_push(seen, field@, DEVS_FIELD@);
                seen.lemma_filter_push(field@, |field: FieldView| is_extra(field));
                lemma_member_fields_differ();
                assert(fields_view(extra@.push(field)) =~= fields_view(extra@).push(field@));
            }
            if field.name == leads_name {
                if leads.is_none() {
                    leads = Some(field.value);
                }
            } else if field.name == devs_name {
                if devs.is_none() {
                    devs = Some(field.value);
                }
            } else {
                extra.push(field);
            }
        }
        assert(content.take(all.len() as int) =~= content);
        let leads = match take_member_list(leads, LEADS_FIELD) {
            Err(reason) => {
                return Err(reason);
            },
            Ok(list) => list,
        };
        let devs = match take_member_list(devs, DEVS_FIELD) {
            Err(reason) => {
                return Err(reason);
            },
            Ok(list) => list,
        };
        let team = Team { leads, devs, extra, key_order: Vec::new() };
        assert(strings_view(team.key_order@) =~= Seq::<Seq<char>>::empty());
        Ok(team)
    }
}

impl Clone for Contributor {
    fn clone(&self) -> (copy: Contributor)
        ensures
            copy@ == self@,
    {
        Contributor { fields: clone_fields(&self.fields), key_order: clone_strings(&self.key_order) }
    }
}

impl Clone for Team {
    fn clone(&self) -> (copy: Team)
        ensures
            copy@ == self@,
    {
        Team {
            leads: clone_strings(&self.leads),
            devs: clone_strings(&self.devs),
            extra: clone_fields(&self.extra),
            key_order: clone_strings(&self.key_order),
        }
    }
}

} // verus!
