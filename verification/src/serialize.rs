//! Serialising: from a record back to the items of a marker's argument list.

use crate::attribute::Annotation;
use crate::codec::{
    emit_element, emit_meta, emit_record, emit_scalar, emit_slot, emit_value, entry_items,
    list_item, no_gaps, slot_items,
};
use crate::field::Fields;
use crate::number::is_float_text;
use crate::registry::Registry;
use crate::search::{all_some, lemma_all_some, present};
use crate::syntax::{
    lemma_meta_list_view, nested_view, Lit, LitView, Meta, MetaList, MetaNameValue, MetaView,
    NestedMeta, NestedMetaView, Path,
};
use crate::ty::{FieldType, Type};
use crate::value::{
    entries_view, lemma_list_view, lemma_map_view, lemma_record_view, slots_view, values_view,
    Record, Value,
};
use vstd::prelude::*;

verus! {

/// The model of an optional literal.
pub open spec fn lit_option_view(lit: Option<Lit>) -> Option<LitView> {
    match lit {
        Some(l) => Some(l@),
        None => None,
    }
}

/// The model of an optional item.
pub open spec fn nested_option_view(item: Option<NestedMeta>) -> Option<NestedMetaView> {
    match item {
        Some(i) => Some(i@),
        None => None,
    }
}

/// The model of an optional list of items.
pub open spec fn nested_list_option_view(items: Option<Vec<NestedMeta>>) -> Option<
    Seq<NestedMetaView>,
> {
    match items {
        Some(i) => Some(nested_view(i@)),
        None => None,
    }
}

/// The model of an optional structured item.
pub open spec fn meta_option_view(meta: Option<Meta>) -> Option<MetaView> {
    match meta {
        Some(m) => Some(m@),
        None => None,
    }
}

/// The models of items of which some may not be there.
pub open spec fn nested_options_view(
    items: Seq<Option<NestedMeta>>,
) -> Seq<Option<NestedMetaView>> {
    Seq::new(items.len(), |i: int| nested_option_view(items[i]))
}

/// Writes a value of a scalar type as a literal.
fn emit_scalar_of(ty: &Type, registry: &Registry, value: &Value) -> (r: Option<Lit>)
    ensures
        lit_option_view(r) == emit_scalar(registry@, ty@, value@),
{
    match (ty, value) {
        (Type::String, Value::String(s)) => Some(Lit::Str(s.clone())),
        (Type::Bool, Value::Bool(b)) => Some(Lit::Bool(*b)),
        (Type::Integer(width), Value::Integer(v)) => if v.fits(*width) {
            Some(Lit::Int(v.to_decimal()))
        } else {
            None
        },
        (Type::Float(_), Value::Float(s)) => if is_float_text(s.as_str()) {
            Some(Lit::Float(s.clone()))
        } else {
            None
        },
        (Type::Enum(name), Value::Enum(variant)) => match registry.find_enum(name.as_str()) {
            Some(e) => e.to_tokens(*variant),
            None => None,
        },
        _ => None,
    }
}

/// Builds the list `key(items)`.
fn make_list_item(key: &str, items: Vec<NestedMeta>) -> (r: NestedMeta)
    ensures
        r@ == list_item(key@, nested_view(items@)),
{
    let list = MetaList { path: Path::from_ident(key), nested: items };
    proof {
        lemma_meta_list_view(list);
    }
    NestedMeta::Meta(Meta::List(list))
}

/// Writes the values of a list as bare literals.
fn emit_list_of(elem: &Type, registry: &Registry, values: &Vec<Value>) -> (r: Option<
    Vec<NestedMeta>,
>)
    ensures
        nested_list_option_view(r) == all_some(
            Seq::new(
                values@.len(),
                |k: int| emit_element(registry@, elem@, values_view(values@)[k]),
            ),
        ),
{
    let ghost views = values_view(values@);
    let ghost results = Seq::new(views.len(), |k: int| emit_element(registry@, elem@, views[k]));
    let mut items: Vec<NestedMeta> = Vec::new();
    let mut i: usize = 0;
    while i < values.len()
        invariant
            i <= values@.len(),
            items@.len() == i,
            views == values_view(values@),
            results == Seq::new(views.len(), |k: int| emit_element(registry@, elem@, views[k])),
            forall|k: int| 0 <= k < i ==> (#[trigger] results[k]) == Some(items@[k]@),
        decreases values@.len() - i,
    {
        match emit_scalar_of(elem, registry, &values[i]) {
            Some(lit) => {
                items.push(NestedMeta::Lit(lit));
            },
            None => {
                assert(results[i as int] is None);
                return None;
            },
        }
        i = i + 1;
    }
    proof {
        lemma_all_some(results, nested_view(items@));
    }
    Some(items)
}

impl Type {
    /// Writes the entries of a map, the map's values being of this type.
    fn emit_entries_of(&self, registry: &Registry, entries: &Vec<(String, Value)>) -> (r: Option<
        Vec<NestedMeta>,
    >)
        ensures
            nested_list_option_view(r) == all_some(
                entry_items(registry@, self@, entries_view(entries@)),
            ),
        decreases entries, 0nat,
    {
        let ghost views = entries_view(entries@);
        let ghost results = entry_items(registry@, self@, views);
        let mut items: Vec<NestedMeta> = Vec::new();
        let mut i: usize = 0;
        while i < entries.len()
            invariant
                i <= entries@.len(),
                items@.len() == i,
                views == entries_view(entries@),
                results == entry_items(registry@, self@, views),
                results.len() == views.len(),
                forall|k: int| 0 <= k < i ==> (#[trigger] results[k]) == Some(items@[k]@),
            decreases entries@.len() - i,
        {
            let entry: &(String, Value) = &entries[i];
            assert(results[i as int] == emit_value(
                registry@,
                self@,
                views[i as int].1,
                views[i as int].0,
                true,
            ));
            match self.to_token_token_stream(registry, &entry.1, entry.0.as_str(), true) {
                Some(item) => {
                    items.push(item);
                },
                None => {
                    assert(results[i as int] is None);
                    return None;
                },
            }
            i = i + 1;
        }
        proof {
            lemma_all_some(results, nested_view(items@));
        }
        Some(items)
    }

    /// Writes a value of this type as the item of the token stream that holds
    /// it for the field or the map entry named `value_name`. `named` says
    /// whether the field is a named one. `None` where the value is not of the
    /// type.
    pub fn to_token_token_stream(
        &self,
        registry: &Registry,
        value: &Value,
        value_name: &str,
        named: bool,
    ) -> (r: Option<NestedMeta>)
        ensures
            nested_option_view(r) == emit_value(registry@, self@, value@, value_name@, named),
        decreases value, 0nat,
    {
        if self.is_scalar() {
            match emit_scalar_of(self, registry, value) {
                Some(lit) => if named {
                    Some(
                        NestedMeta::Meta(
                            Meta::NameValue(
                                MetaNameValue { path: Path::from_ident(value_name), lit },
                            ),
                        ),
                    )
                } else {
                    Some(NestedMeta::Lit(lit))
                },
                None => None,
            }
        } else if !named {
            None
        } else {
            match (self, value) {
                (Type::List(elem), Value::List(values)) => {
                    proof {
                        lemma_list_view(*values);
                    }
                    match emit_list_of(elem, registry, values) {
                        Some(items) => Some(make_list_item(value_name, items)),
                        None => None,
                    }
                },
                (Type::Mapping(val), Value::Mapping(entries)) => {
                    proof {
                        lemma_map_view(*entries);
                    }
                    match val.emit_entries_of(registry, entries) {
                        Some(items) => Some(make_list_item(value_name, items)),
                        None => None,
                    }
                },
                (Type::Object(name), Value::Object(record)) => {
                    proof {
                        lemma_record_view(*record);
                    }
                    match registry.find_annotation(name.as_str()) {
                        Some(annotation) => match annotation.fields.get_to_token_token_stream(
                            registry,
                            record,
                        ) {
                            Some(items) => Some(make_list_item(value_name, items)),
                            None => None,
                        },
                        None => None,
                    }
                },
                _ => None,
            }
        }
    }
}

impl FieldType {
    /// Writes a value of the field's type as the item that holds it.
    pub fn to_token_token_stream(
        &self,
        registry: &Registry,
        value: &Value,
        value_name: &str,
        named: bool,
    ) -> (r: Option<NestedMeta>)
        ensures
            nested_option_view(r) == emit_value(
                registry@,
                self@.unwrap(),
                value@,
                value_name@,
                named,
            ),
        decreases value, 1nat,
    {
        self.unwrap().to_token_token_stream(registry, value, value_name, named)
    }
}

/// Whether no field that holds a value comes after one that holds none.
fn has_no_gaps(slots: &Vec<Option<Value>>) -> (b: bool)
    ensures
        b == no_gaps(slots_view(slots@)),
{
    let ghost views = slots_view(slots@);
    let mut first_none: Option<usize> = None;
    let mut k: usize = 0;
    while k < slots.len()
        invariant
            k <= slots@.len(),
            views == slots_view(slots@),
            match first_none {
                Some(j) => j < k && views[j as int] is None && (forall|m: int|
                    j < m < k ==> (#[trigger] views[m]) is None) && (forall|m: int|
                    0 <= m < j ==> (#[trigger] views[m]) is Some),
                None => forall|m: int| 0 <= m < k ==> (#[trigger] views[m]) is Some,
            },
        decreases slots@.len() - k,
    {
        match &slots[k] {
            Some(_) => {
                if let Some(j) = first_none {
                    assert(views[j as int] is None && views[k as int] is Some);
                    return false;
                }
            },
            None => {
                if first_none.is_none() {
                    first_none = Some(k);
                }
            },
        }
        k = k + 1;
    }
    assert forall|j: int, m: int|
        0 <= j < m < views.len() && (#[trigger] views[j]) is None implies (#[trigger] views[m])
        is None by {
        match first_none {
            Some(f) => {
                assert(j >= f);
            },
            None => {},
        }
    }
    true
}

impl Fields {
    /// Writes each field of a record as the item that holds it, `None` standing
    /// for a field without a value. The whole is `None` where the record has
    /// not one place for each field, a required field holds no value, or a
    /// value is not of its field's type.
    #[verifier::rlimit(40)]
    pub fn get_to_token_temp_value_token_stream(&self, registry: &Registry, record: &Record) -> (r:
        Option<Vec<Option<NestedMeta>>>)
        ensures
            match r {
                Some(items) => record@.fields.len() == self@.len() && all_some(
                    slot_items(registry@, self@, record@.fields),
                ) == Some(nested_options_view(items@)),
                None => record@.fields.len() != self@.len() || all_some(
                    slot_items(registry@, self@, record@.fields),
                ) is None,
            },
        decreases record, 0nat,
    {
        proof {
            lemma_record_view(*record);
        }
        let n: usize = self.len();
        if record.fields.len() != n {
            return None;
        }
        let ghost slots = record@.fields;
        let ghost results = slot_items(registry@, self@, slots);
        let mut items: Vec<Option<NestedMeta>> = Vec::new();
        let mut j: usize = 0;
        while j < n
            invariant
                j <= n,
                n == self@.len(),
                record.fields@.len() == n,
                items@.len() == j,
                slots == record@.fields,
                slots == slots_view(record.fields@),
                results == slot_items(registry@, self@, slots),
                results.len() == n,
                forall|k: int|
                    0 <= k < j ==> (#[trigger] results[k]) == Some(nested_option_view(items@[k])),
            decreases n - j,
        {
            assert(results[j as int] == emit_slot(registry@, self@, slots, j as int));
            match &record.fields[j] {
                None => {
                    if self.field_type(j).is_required() {
                        assert(results[j as int] is None);
                        return None;
                    }
                    items.push(None);
                },
                Some(value) => {
                    let label: String = self.label(j);
                    match self.field_type(j).to_token_token_stream(
                        registry,
                        value,
                        label.as_str(),
                        self.is_named(),
                    ) {
                        Some(item) => {
                            items.push(Some(item));
                        },
                        None => {
                            assert(results[j as int] is None);
                            return None;
                        },
                    }
                },
            }
            j = j + 1;
        }
        proof {
            lemma_all_some(results, nested_options_view(items@));
        }
        Some(items)
    }

    /// Writes a record as the token stream of arguments that hold it: for each
    /// field that holds a value the item that holds it, in declaration order.
    /// `None` where the record cannot be written: it has not one place for each
    /// field, a required field holds no value, a value is not of its field's
    /// type, or the fields are positional and one that holds a value comes
    /// after one that holds none.
    pub fn get_to_token_token_stream(&self, registry: &Registry, record: &Record) -> (r: Option<
        Vec<NestedMeta>,
    >)
        ensures
            nested_list_option_view(r) == emit_record(registry@, self@, record@),
        decreases record, 1nat,
    {
        proof {
            lemma_record_view(*record);
        }
        if record.fields.len() != self.len() {
            return None;
        }
        if !self.is_named() && !has_no_gaps(&record.fields) {
            return None;
        }
        let mut temps: Vec<Option<NestedMeta>> = match self.get_to_token_temp_value_token_stream(
            registry,
            record,
        ) {
            Some(temps) => temps,
            None => {
                return None;
            },
        };
        let ghost all = nested_options_view(temps@);
        let n: usize = temps.len();
        let mut items: Vec<NestedMeta> = Vec::new();
        let mut j: usize = 0;
        while j < n
            invariant
                j <= n,
                n == temps@.len(),
                all.len() == n,
                forall|k: int| j <= k < n ==> nested_option_view(#[trigger] temps@[k]) == all[k],
                nested_view(items@) == present(all, j as int),
            decreases n - j,
        {
            let mut taken: Option<NestedMeta> = None;
            temps.set_and_swap(j, &mut taken);
            let ghost before = nested_view(items@);
            match taken {
                Some(item) => {
                    items.push(item);
                    assert(nested_view(items@) =~= before.push(item@));
                },
                None => {},
            }
            j = j + 1;
        }
        Some(items)
    }
}

impl Annotation {
    /// Writes a record of the annotation as the structured item that holds it.
    pub fn to_tokens(&self, registry: &Registry, record: &Record) -> (r: Option<Meta>)
        ensures
            meta_option_view(r) == emit_meta(registry@, self@, record@),
    {
        match &self.fields {
            Fields::Unit => Some(Meta::Path(Path::from_ident(self.path.as_str()))),
            _ => match self.fields.get_to_token_token_stream(registry, record) {
                Some(items) => {
                    let path = Path::from_ident(self.path.as_str());
                    let list = MetaList { path, nested: items };
                    proof {
                        lemma_meta_list_view(list);
                    }
                    Some(Meta::List(list))
                },
                None => None,
            },
        }
    }
}

} // verus!
