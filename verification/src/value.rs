//! The values that parsing constructs and serialising reads.

use crate::number::Integer;
use vstd::prelude::*;

verus! {

/// A typed value.
#[derive(Debug, PartialEq)]
pub enum Value {
    String(String),
    Bool(bool),
    Integer(Integer),
    /// A floating point number, as the decimal text of its literal.
    Float(String),
    /// An enum's variant, by its position in the enum's declaration.
    Enum(usize),
    Object(Record),
    List(Vec<Value>),
    /// A map, as its entries in the order their keys first came. No key occurs
    /// twice.
    Mapping(Vec<(String, Value)>),
}

/// The value of one declaration: for each field in declaration order its value,
/// or `None` where an optional field has none.
#[derive(Debug, PartialEq)]
pub struct Record {
    pub fields: Vec<Option<Value>>,
}

/// The mathematical model of a [`Value`].
pub enum ValueView {
    String(Seq<char>),
    Bool(bool),
    Integer(int),
    Float(Seq<char>),
    Enum(nat),
    Object(RecordView),
    List(Seq<ValueView>),
    Mapping(Seq<(Seq<char>, ValueView)>),
}

/// The mathematical model of a [`Record`].
pub struct RecordView {
    pub fields: Seq<Option<ValueView>>,
}

/// The model of a value.
pub open spec fn value_view(v: Value) -> ValueView
    decreases v,
{
    match v {
        Value::String(s) => ValueView::String(s@),
        Value::Bool(b) => ValueView::Bool(b),
        Value::Integer(i) => ValueView::Integer(i@),
        Value::Float(s) => ValueView::Float(s@),
        Value::Enum(v) => ValueView::Enum(v as nat),
        Value::Object(r) => ValueView::Object(
            RecordView {
                fields: Seq::new(
                    r.fields@.len(),
                    |i: int|
                        if 0 <= i < r.fields@.len() {
                            match r.fields@[i] {
                                Some(f) => Some(value_view(f)),
                                None => None,
                            }
                        } else {
                            None
                        },
                ),
            },
        ),
        Value::List(items) => ValueView::List(
            Seq::new(
                items@.len(),
                |i: int|
                    if 0 <= i < items@.len() {
                        value_view(items@[i])
                    } else {
                        ValueView::Bool(false)
                    },
            ),
        ),
        Value::Mapping(entries) => ValueView::Mapping(
            Seq::new(
                entries@.len(),
                |i: int|
                    if 0 <= i < entries@.len() {
                        (entries@[i].0@, value_view(entries@[i].1))
                    } else {
                        (Seq::empty(), ValueView::Bool(false))
                    },
            ),
        ),
    }
}

impl View for Value {
    type V = ValueView;

    open spec fn view(&self) -> ValueView {
        value_view(*self)
    }
}

impl View for Record {
    type V = RecordView;

    open spec fn view(&self) -> RecordView {
        RecordView { fields: Seq::new(self.fields@.len(), |i: int| slot_view(self.fields@[i])) }
    }
}

/// The models of the values of a list.
pub open spec fn values_view(items: Seq<Value>) -> Seq<ValueView> {
    Seq::new(items.len(), |i: int| items[i]@)
}

/// The models of the entries of a map.
pub open spec fn entries_view(entries: Seq<(String, Value)>) -> Seq<(Seq<char>, ValueView)> {
    Seq::new(entries.len(), |i: int| (entries[i].0@, entries[i].1@))
}

/// The model of a field's value.
pub open spec fn slot_view(slot: Option<Value>) -> Option<ValueView> {
    match slot {
        Some(v) => Some(v@),
        None => None,
    }
}

/// The models of the values of a record's fields.
pub open spec fn slots_view(slots: Seq<Option<Value>>) -> Seq<Option<ValueView>> {
    Seq::new(slots.len(), |i: int| slot_view(slots[i]))
}

/// A list value's model holds the models of its items.
pub proof fn lemma_list_view(items: Vec<Value>)
    ensures
        Value::List(items)@ == ValueView::List(values_view(items@)),
{
    assert(Value::List(items)@->List_0 =~= values_view(items@));
}

/// A map value's model holds the models of its entries.
pub proof fn lemma_map_view(entries: Vec<(String, Value)>)
    ensures
        Value::Mapping(entries)@ == ValueView::Mapping(entries_view(entries@)),
{
    assert(Value::Mapping(entries)@->Mapping_0 =~= entries_view(entries@));
}

/// A record's model holds the models of its fields' values.
pub proof fn lemma_record_view(record: Record)
    ensures
        record@.fields == slots_view(record.fields@),
        Value::Object(record)@ == ValueView::Object(record@),
{
    assert(record@.fields =~= slots_view(record.fields@));
    assert(Value::Object(record)@->Object_0.fields =~= record@.fields);
}

impl Record {
    /// The value of the field at `index`, where the record has one there.
    pub fn get(&self, index: usize) -> (r: Option<&Value>)
        ensures
            match r {
                Some(v) => index < self@.fields.len() && self@.fields[index as int] == Some(v@),
                None => index >= self@.fields.len() || self@.fields[index as int] is None,
            },
    {
        proof {
            lemma_record_view(*self);
        }
        if index < self.fields.len() {
            self.fields[index].as_ref()
        } else {
            None
        }
    }
}

} // verus!
