//! Generic, order-preserving form of a parsed record file.

use vstd::prelude::*;
use vstd::string::*;

verus! {

/// One value of a record file.
#[derive(Debug, PartialEq, Eq)]
pub enum Item {
    Text(String),
    Integer(i64),
    /// A floating-point number, held as its IEEE 754 bit pattern.
    Float(u64),
    Boolean(bool),
    /// A date or time, held in its RFC 3339 rendering.
    Datetime(String),
    Array(Vec<Item>),
    Table(Vec<Field>),
}

/// A named value: one entry of a table, in the position where it was written.
#[derive(Debug, PartialEq, Eq)]
pub struct Field {
    pub name: String,
    pub value: Item,
}

/// Mathematical content of an [`Item`].
pub enum ItemView {
    Text(Seq<char>),
    Integer(int),
    Float(u64),
    Boolean(bool),
    Datetime(Seq<char>),
    Array(Seq<ItemView>),
    Table(Seq<FieldView>),
}

/// Mathematical content of a [`Field`].
pub struct FieldView {
    pub name: Seq<char>,
    pub value: ItemView,
}

/// Mathematical content of an item, by recursion on its structure.
pub open spec fn item_view(item: Item) -> ItemView
    decreases item,
{
    match item {
        Item::Text(s) => ItemView::Text(s@),
        Item::Integer(i) => ItemView::Integer(i as int),
        Item::Float(bits) => ItemView::Float(bits),
        Item::Boolean(b) => ItemView::Boolean(b),
        Item::Datetime(s) => ItemView::Datetime(s@),
        Item::Array(items) => ItemView::Array(
            Seq::new(
                items@.len(),
                |i: int|
                    if 0 <= i < items@.len() {
                        item_view(items@[i])
                    } else {
                        ItemView::Boolean(false)
                    },
            ),
        ),
        Item::Table(fields) => ItemView::Table(
            Seq::new(
                fields@.len(),
                |i: int|
                    if 0 <= i < fields@.len() {
                        FieldView { name: fields@[i].name@, value: item_view(fields@[i].value) }
                    } else {
                        FieldView { name: Seq::empty(), value: ItemView::Boolean(false) }
                    },
            ),
        ),
    }
}

impl View for Item {
    type V = ItemView;

    open spec fn view(&self) -> ItemView {
        item_view(*self)
    }
}

impl View for Field {
    type V = FieldView;

    open spec fn view(&self) -> FieldView {
        FieldView { name: self.name@, value: self.value@ }
    }
}

/// Contents of a list of strings.
pub open spec fn strings_view(strings: Seq<String>) -> Seq<Seq<char>> {
    strings.map_values(|s: String| s@)
}

/// Contents of a list of items.
pub open spec fn items_view(items: Seq<Item>) -> Seq<ItemView> {
    items.map_values(|item: Item| item@)
}

/// Contents of a list of fields.
pub open spec fn fields_view(fields: Seq<Field>) -> Seq<FieldView> {
    fields.map_values(|field: Field| field@)
}

/// The names of the fields, in the order in which the fields stand.
pub open spec fn field_names(fields: Seq<FieldView>) -> Seq<Seq<char>> {
    fields.map_values(|field: FieldView| field.name)
}

/// The content of an array item is the content of its elements.
pub proof fn lemma_array_view(items: Vec<Item>)
    ensures
        Item::Array(items)@ == ItemView::Array(items_view(items@)),
{
    assert(Item::Array(items)@->Array_0 =~= items_view(items@));
}

/// The content of a table item is the content of its fields.
pub proof fn lemma_table_view(fields: Vec<Field>)
    ensures
        Item::Table(fields)@ == ItemView::Table(fields_view(fields@)),
{
    assert(Item::Table(fields)@->Table_0 =~= fields_view(fields@));
}

/// An independent copy of a list of strings.
pub fn clone_strings(strings: &Vec<String>) -> (copy: Vec<String>)
    ensures
        strings_view(copy@) == strings_view(strings@),
{
    let mut copy: Vec<String> = Vec::new();
    let mut i: usize = 0;
    while i < strings.len()
        invariant
            i <= strings.len(),
            copy.len() == i,
            forall|j: int| 0 <= j < i ==> copy@[j]@ == strings@[j]@,
        decreases strings.len() - i,
    {
        copy.push(strings[i].clone());
        i += 1;
    }
    assert(strings_view(copy@) =~= strings_view(strings@));
    copy
}

/// An independent copy of a list of items.
pub fn clone_items(items: &Vec<Item>) -> (copy: Vec<Item>)
    ensures
        items_view(copy@) == items_view(items@),
    decreases items,
{
    let mut copy: Vec<Item> = Vec::new();
    let mut i: usize = 0;
    while i < items.len()
        invariant
            i <= items.len(),
            copy.len() == i,
            forall|j: int| 0 <= j < i ==> copy@[j]@ == items@[j]@,
        decreases items.len() - i,
    {
        copy.push(items[i].clone());
        i += 1;
    }
    assert(items_view(copy@) =~= items_view(items@));
    copy
}

/// An independent copy of a list of fields.
pub fn clone_fields(fields: &Vec<Field>) -> (copy: Vec<Field>)
    ensures
        fields_view(copy@) == fields_view(fields@),
    decreases fields,
{
    let mut copy: Vec<Field> = Vec::new();
    let mut i: usize = 0;
    while i < fields.len()
        invariant
            i <= fields.len(),
            copy.len() == i,
            forall|j: int| 0 <= j < i ==> copy@[j]@ == fields@[j]@,
        decreases fields.len() - i,
    {
        let field = &fields[i];
        copy.push(Field { name: field.name.clone(), value: field.value.clone() });
        i += 1;
    }
    assert(fields_view(copy@) =~= fields_view(fields@));
    copy
}

impl Clone for Item {
    fn clone(&self) -> (copy: Item)
        ensures
            copy@ == self@,
        decreases self,
    {
        match self {
            Item::Text(s) => Item::Text(s.clone()),
            Item::Integer(i) => Item::Integer(*i),
            Item::Float(bits) => Item::Float(*bits),
            Item::Boolean(b) => Item::Boolean(*b),
            Item::Datetime(s) => Item::Datetime(s.clone()),
            Item::Array(items) => {
                let copy = clone_items(items);
                proof {
                    lemma_array_view(copy);
                    lemma_array_view(*items);
                }
                Item::Array(copy)
            },
            Item::Table(fields) => {
                let copy = clone_fields(fields);
                proof {
                    lemma_table_view(copy);
                    lemma_table_view(*fields);
                }
                Item::Table(copy)
            },
        }
    }
}

impl Clone for Field {
    fn clone(&self) -> (copy: Field)
        ensures
            copy@ == self@,
    {
        Field { name: self.name.clone(), value: self.value.clone() }
    }
}

} // verus!
