//! The round trip: a valid record, written as arguments and parsed again, is
//! the record.

use crate::attribute::AnnotationView;
use crate::codec::{
    begins_with, emit_element, emit_meta, emit_record, emit_scalar, emit_slot, emit_value,
    entry_items, entry_results, fits_type, initial_slot, initial_slots, item_path, key_flags,
    lemma_entry_results, map_collect, map_insert, no_gaps, parse_args, parse_meta, read_element,
    read_entry, read_list, read_scalar, read_value, scan, slot_items,
};
use crate::error::DiagnosticView;
use crate::field::FieldsView;

use crate::number::lemma_integer_text_round_trip;
use crate::registry::RegistryView;
use crate::search::{all_some, lemma_collect, lemma_collect_ok, lemma_first_true, present};
use crate::syntax::{NestedMetaView, PathView};
use crate::theorems::lemma_enum_round_trip;
use crate::ty::TypeView;
use crate::value::{RecordView, ValueView};
use vstd::prelude::*;

verus! {

/// Whether a value of a scalar type can be written and read back: it is of the
/// type, an integer is a value of the type's width, and an enum's variant is
/// the first that is read from its string.
pub open spec fn valid_scalar(reg: RegistryView, ty: TypeView, value: ValueView) -> bool {
    &&& ty.is_scalar()
    &&& emit_scalar(reg, ty, value) is Some
    &&& (ty matches TypeView::Enum(name) && value matches ValueView::Enum(variant)) ==> {
        let e = reg.find_enum(ty->Enum_0)->Some_0;
        forall|k: int|
            0 <= k < value->Enum_0 ==> (#[trigger] e.items[k]).value
                != e.items[value->Enum_0 as int].value
    }
}

/// Whether no two entries of a map have one key.
pub open spec fn distinct_keys(entries: Seq<(Seq<char>, ValueView)>) -> bool {
    forall|i: int, j: int|
        0 <= i < j < entries.len() ==> (#[trigger] entries[i]).0 != (#[trigger] entries[j]).0
}

/// Whether a value is one of type `ty` that can be written and read back: a
/// scalar as `valid_scalar` says; a list of valid scalars; a map of valid
/// values without a key that occurs twice; an object whose record is valid for
/// the annotation that the registry holds under the type's name.
pub open spec fn valid_value(reg: RegistryView, ty: TypeView, value: ValueView) -> bool
    decreases value, 0nat,
{
    if ty.is_scalar() {
        valid_scalar(reg, ty, value)
    } else {
        match (ty, value) {
            (TypeView::List(elem), ValueView::List(values)) => forall|k: int|
                0 <= k < values.len() ==> valid_scalar(reg, *elem, #[trigger] values[k]),
            (TypeView::Mapping(val), ValueView::Mapping(entries)) => distinct_keys(entries)
                && valid_entries(reg, *val, entries),
            (TypeView::Object(name), ValueView::Object(record)) => match reg.find_annotation(
                name,
            ) {
                Some(annotation) => match annotation.fields {
                    FieldsView::Unit => record.fields.len() == 0,
                    _ => valid_record(reg, annotation.fields, record),
                },
                None => false,
            },
            _ => false,
        }
    }
}

/// Whether every value of a map's entries is valid.
pub open spec fn valid_entries(
    reg: RegistryView,
    val: TypeView,
    entries: Seq<(Seq<char>, ValueView)>,
) -> bool
    decreases entries, 0nat,
{
    forall|k: int|
        0 <= k < entries.len() ==> valid_value(reg, val, (#[trigger] entries[k]).1)
}

/// Whether `slot` is valid as what the field at `j` holds: a value of the
/// field's type, which is a scalar where the fields are positional; or
/// nothing, where the field is optional and has no default.
pub open spec fn valid_slot(
    reg: RegistryView,
    fields: FieldsView,
    j: int,
    slot: Option<ValueView>,
) -> bool
    decreases slot, 0nat,
{
    match slot {
        None => !fields.field_type(j).is_required() && fields.default(j) is None,
        Some(value) => valid_value(reg, fields.field_type(j).unwrap(), value) && (fields.named()
            || fields.field_type(j).unwrap().is_scalar()),
    }
}

/// Whether no two named fields have one key, and every positional field has
/// its position as its index.
pub open spec fn distinct_fields(fields: FieldsView) -> bool {
    match fields {
        FieldsView::NamedFields(named) => forall|i: int, j: int|
            0 <= i < j < named.len() ==> (#[trigger] named[i]).path != (#[trigger] named[j]).path,
        FieldsView::UnnamedField(unnamed) => forall|j: int|
            0 <= j < unnamed.len() ==> (#[trigger] unnamed[j]).index == j,
        FieldsView::Unit => true,
    }
}

/// Whether a record is one of the field set that can be written and read back:
/// it has one place for each field; the fields' defaults can be coerced; the
/// fields' keys differ; what every field holds is valid; and where the fields
/// are positional, none that holds a value comes after one that holds none.
pub open spec fn valid_record(reg: RegistryView, fields: FieldsView, record: RecordView) -> bool
    decreases record, 0nat,
{
    &&& record.fields.len() == fields.len()
    &&& initial_slots(reg, fields) is Ok
    &&& distinct_fields(fields)
    &&& fields.named() || no_gaps(record.fields)
    &&& forall|j: int|
        0 <= j < record.fields.len() ==> valid_slot(reg, fields, j, #[trigger] record.fields[j])
}

/// A valid scalar is written as a literal that reads back as the scalar.
pub proof fn lemma_scalar_round_trip(
    reg: RegistryView,
    ty: TypeView,
    value: ValueView,
    label: Seq<char>,
)
    requires
        valid_scalar(reg, ty, value),
    ensures
        emit_scalar(reg, ty, value) matches Some(lit) && read_scalar(reg, ty, lit, label) == Ok::<
            ValueView,
            DiagnosticView,
        >(value),
{
    match (ty, value) {
        (TypeView::Integer(width), ValueView::Integer(v)) => {
            lemma_integer_text_round_trip(v);
        },
        (TypeView::Enum(name), ValueView::Enum(variant)) => {
            let e = reg.find_enum(name)->Some_0;
            lemma_enum_round_trip(e, variant);
        },
        _ => {},
    }
}

/// The map of pairs without a key that occurs twice is the pairs.
pub proof fn lemma_map_collect_distinct(pairs: Seq<(Seq<char>, ValueView)>, upto: int)
    requires
        0 <= upto <= pairs.len(),
        distinct_keys(pairs),
    ensures
        map_collect(pairs, upto) == pairs.take(upto),
    decreases upto,
{
    if upto > 0 {
        lemma_map_collect_distinct(pairs, upto - 1);
        let before = pairs.take(upto - 1);
        let key = pairs[upto - 1].0;
        let flags = key_flags(before, key);
        assert forall|k: int| 0 <= k < before.len() implies !flags[k] by {
            assert(before[k] == pairs[k]);
            assert(pairs[k].0 != pairs[upto - 1].0);
        }
        lemma_first_true(flags, before.len() as int);
        assert(map_insert(before, key, pairs[upto - 1].1) == before.push((key, pairs[upto - 1].1)));
        assert(before.push((key, pairs[upto - 1].1)) =~= pairs.take(upto));
    } else {
        assert(pairs.take(0) =~= Seq::empty());
    }
}

/// The items that are there among the first `m` are the first of those among
/// the first `n`.
pub proof fn lemma_present_prefix<T>(items: Seq<Option<T>>, m: int, n: int)
    requires
        0 <= m <= n <= items.len(),
    ensures
        present(items, m).len() <= present(items, n).len(),
        forall|k: int|
            0 <= k < present(items, m).len() ==> present(items, m)[k] == present(items, n)[k],
    decreases n - m,
{
    if m < n {
        lemma_present_prefix(items, m, n - 1);
    }
}

/// Where each of the first `m` items is there, they are `m`.
pub proof fn lemma_present_full<T>(items: Seq<Option<T>>, m: int)
    requires
        0 <= m <= items.len(),
        forall|k: int| 0 <= k < m ==> (#[trigger] items[k]) is Some,
    ensures
        present(items, m).len() == m,
    decreases m,
{
    if m > 0 {
        lemma_present_full(items, m - 1);
    }
}

/// What the fields hold after the items of the first `m` fields are read: the
/// record's value where one of those fields holds one, and what the field held
/// at the start everywhere else.
pub open spec fn slots_after(
    start: Seq<Option<ValueView>>,
    slots: Seq<Option<ValueView>>,
    m: int,
) -> Seq<Option<ValueView>> {
    Seq::new(
        slots.len(),
        |j: int|
            if j < m && slots[j] is Some {
                slots[j]
            } else {
                start[j]
            },
    )
}

/// A valid value is written as an item that has the shape of its type, begins
/// with its key where it is named, and reads back as the value.
#[verifier::rlimit(40)]
pub proof fn lemma_value_round_trip(
    reg: RegistryView,
    ty: TypeView,
    value: ValueView,
    key: Seq<char>,
    named: bool,
    label: Seq<char>,
)
    requires
        valid_value(reg, ty, value),
        named || ty.is_scalar(),
    ensures
        emit_value(reg, ty, value, key, named) matches Some(item) && fits_type(ty, named, item) && (
        named ==> item_path(item) == Some(PathView::of_ident(key))) && read_value(
            reg,
            ty,
            item,
            named,
            label,
        ) == Ok::<ValueView, DiagnosticView>(value),
    decreases value, 0nat, 0nat,
{
    if ty.is_scalar() {
        lemma_scalar_round_trip(reg, ty, value, label);
    } else {
        match (ty, value) {
            (TypeView::List(elem), ValueView::List(values)) => {
                let emitted = Seq::new(values.len(), |k: int| emit_element(reg, *elem, values[k]));
                assert forall|k: int| 0 <= k < values.len() implies (#[trigger] emitted[k])
                    is Some by {
                    assert(valid_scalar(reg, *elem, values[k]));
                    lemma_scalar_round_trip(reg, *elem, values[k], label);
                }
                let items = all_some(emitted)->Some_0;
                let results = Seq::new(
                    items.len(),
                    |k: int| read_element(reg, *elem, items[k], label),
                );
                assert forall|k: int| 0 <= k < results.len() implies (#[trigger] results[k])
                    == Ok::<ValueView, DiagnosticView>(values[k]) by {
                    assert(valid_scalar(reg, *elem, values[k]));
                    lemma_scalar_round_trip(reg, *elem, values[k], label);
                    assert(items[k] == emitted[k]->Some_0);
                }
                lemma_collect_ok(results, values);
                assert(read_list(reg, *elem, items, label) == Ok::<
                    Seq<ValueView>,
                    DiagnosticView,
                >(values));
            },
            (TypeView::Mapping(val), ValueView::Mapping(entries)) => {
                let emitted = entry_items(reg, *val, entries);
                assert forall|k: int| 0 <= k < entries.len() implies (#[trigger] emitted[k])
                    is Some by {
                    assert(valid_value(reg, *val, entries[k].1));
                    lemma_value_round_trip(reg, *val, entries[k].1, entries[k].0, true, label);
                }
                let items = all_some(emitted)->Some_0;
                lemma_entry_results(reg, *val, items, label);
                let results = entry_results(reg, *val, items, label);
                assert forall|k: int| 0 <= k < results.len() implies (#[trigger] results[k])
                    == Ok::<(Seq<char>, ValueView), DiagnosticView>(entries[k]) by {
                    assert(valid_value(reg, *val, entries[k].1));
                    lemma_value_round_trip(reg, *val, entries[k].1, entries[k].0, true, label);
                    assert(items[k] == emitted[k]->Some_0);
                    assert(results[k] == read_entry(reg, *val, items[k], label));
                    assert(PathView::of_ident(entries[k].0).segments[0] == entries[k].0);
                }
                lemma_collect_ok(results, entries);
                lemma_map_collect_distinct(entries, entries.len() as int);
                assert(entries.take(entries.len() as int) =~= entries);
            },
            (TypeView::Object(name), ValueView::Object(record)) => {
                let annotation = reg.find_annotation(name)->Some_0;
                match annotation.fields {
                    FieldsView::Unit => {
                        let emitted = slot_items(reg, annotation.fields, record.fields);
                        assert(emitted =~= Seq::empty());
                        assert(all_some(emitted)->Some_0 =~= Seq::empty());
                        assert(record.fields =~= Seq::empty());
                    },
                    _ => {
                        lemma_record_round_trip(reg, annotation.fields, record);
                    },
                }
            },
            _ => {},
        }
    }
}

/// The rest of a scan over the arguments of a valid record, from the items of
/// the field at `m` on, ends with what the record holds.
#[verifier::rlimit(40)]
proof fn lemma_scan_emitted(
    reg: RegistryView,
    fields: FieldsView,
    record: RecordView,
    emitted: Seq<Option<NestedMetaView>>,
    start: Seq<Option<ValueView>>,
    m: int,
)
    requires
        valid_record(reg, fields, record),
        all_some(slot_items(reg, fields, record.fields)) == Some(emitted),
        start.len() == fields.len(),
        0 <= m <= fields.len(),
    ensures
        scan(
            reg,
            fields,
            present(emitted, emitted.len() as int),
            present(emitted, m).len() as int,
            slots_after(start, record.fields, m),
        ) == Ok::<Seq<Option<ValueView>>, DiagnosticView>(
            slots_after(start, record.fields, fields.len() as int),
        ),
    decreases record, 1nat, fields.len() - m,
{
    let n = fields.len() as int;
    let slots = record.fields;
    let args = present(emitted, n);
    let from = present(emitted, m).len() as int;
    let before = slots_after(start, slots, m);
    let items = slot_items(reg, fields, slots);
    assert(emitted.len() == n);
    lemma_present_prefix(emitted, m, n);
    if m == n {
    } else {
        assert(valid_slot(reg, fields, m, slots[m]));
        assert(items[m] == emit_slot(reg, fields, slots, m));
        assert(items[m] == Some(emitted[m]));
        lemma_scan_emitted(reg, fields, record, emitted, start, m + 1);
        match slots[m] {
            None => {
                assert(emitted[m] is None);
                assert(slots_after(start, slots, m + 1) =~= before);
            },
            Some(value) => {
                let ty = fields.field_type(m).unwrap();
                lemma_value_round_trip(
                    reg,
                    ty,
                    value,
                    fields.label(m),
                    fields.named(),
                    fields.label(m),
                );
                let item = emitted[m]->Some_0;
                lemma_present_prefix(emitted, m + 1, n);
                assert(present(emitted, m + 1) == present(emitted, m).push(item));
                assert(args[from] == present(emitted, m + 1)[from]);
                assert(args[from] == item);
                let flags = fields.takers(item, from);
                if !fields.named() {
                    // every field before holds a value, so the item stands at `m`
                    assert forall|k: int| 0 <= k < m implies (#[trigger] emitted[k]) is Some by {
                        assert(slots[k] is Some);
                        assert(items[k] == emit_slot(reg, fields, slots, k));
                        assert(items[k] == Some(emitted[k]));
                    }
                    lemma_present_full(emitted, m);
                    assert(from == m);
                }
                assert forall|k: int| 0 <= k < m implies !flags[k] by {
                    match fields {
                        FieldsView::NamedFields(named) => {
                            assert(named[k].path != named[m].path);
                        },
                        FieldsView::UnnamedField(unnamed) => {
                            assert(unnamed[k].index == k);
                        },
                        FieldsView::Unit => {},
                    }
                }
                assert(flags[m]) by {
                    match fields {
                        FieldsView::NamedFields(named) => {
                            assert(begins_with(item, named[m].path));
                        },
                        FieldsView::UnnamedField(unnamed) => {
                            assert(unnamed[m].index == m);
                        },
                        FieldsView::Unit => {},
                    }
                }
                lemma_first_true(flags, m);
                assert(slots_after(start, slots, m + 1) =~= before.update(m, Some(value)));
            },
        }
    }
}

/// The round trip of a record: a valid record is written as arguments, and the
/// arguments parse as the record.
#[verifier::rlimit(40)]
pub proof fn lemma_record_round_trip(reg: RegistryView, fields: FieldsView, record: RecordView)
    requires
        valid_record(reg, fields, record),
    ensures
        emit_record(reg, fields, record) matches Some(args) && parse_args(reg, fields, args)
            == Ok::<RecordView, DiagnosticView>(record),
    decreases record, 2nat, 0nat,
{
    let n = fields.len() as int;
    let slots = record.fields;
    let items = slot_items(reg, fields, slots);
    assert forall|j: int| 0 <= j < items.len() implies (#[trigger] items[j]) is Some by {
        assert(valid_slot(reg, fields, j, slots[j]));
        assert(items[j] == emit_slot(reg, fields, slots, j));
        match slots[j] {
            Some(value) => {
                lemma_value_round_trip(
                    reg,
                    fields.field_type(j).unwrap(),
                    value,
                    fields.label(j),
                    fields.named(),
                    fields.label(j),
                );
            },
            None => {},
        }
    }
    let emitted = all_some(items)->Some_0;
    let start = initial_slots(reg, fields)->Ok_0;
    let results = Seq::new(fields.len(), |j: int| initial_slot(reg, fields, j));
    lemma_collect(results);
    lemma_scan_emitted(reg, fields, record, emitted, start, 0);
    assert(slots_after(start, slots, 0) =~= start);
    let end = slots_after(start, slots, n);
    assert(end =~= slots) by {
        assert forall|j: int| 0 <= j < n implies end[j] == slots[j] by {
            assert(valid_slot(reg, fields, j, slots[j]));
            if slots[j] is None {
                assert(results[j] == Ok::<Option<ValueView>, DiagnosticView>(start[j]));
            }
        }
    }
    let flags = fields.missing(slots);
    assert forall|j: int| 0 <= j < n implies !flags[j] by {
        assert(valid_slot(reg, fields, j, slots[j]));
    }
    lemma_first_true(flags, n);
}

/// The round trip of an annotation: a record of the annotation is written as
/// a structured item, and the item parses as the record. The record has to be
/// valid for the annotation's fields, or without values where there are none.
pub proof fn lemma_round_trip(reg: RegistryView, annotation: AnnotationView, record: RecordView)
    requires
        match annotation.fields {
            FieldsView::Unit => record.fields.len() == 0,
            _ => valid_record(reg, annotation.fields, record),
        },
    ensures
        emit_meta(reg, annotation, record) matches Some(meta) && parse_meta(reg, annotation, meta)
            == Ok::<RecordView, DiagnosticView>(record),
{
    match annotation.fields {
        FieldsView::Unit => {
            assert(record.fields =~= Seq::empty());
        },
        _ => {
            lemma_record_round_trip(reg, annotation.fields, record);
        },
    }
}

} // verus!
