//! What holds of parsing and serialising, whatever the schema and the input.

use crate::codec::{
    construct, initial_slot, initial_slots, key_flags, map_collect, missing_required_field,
    parse_args, read_element, read_list, read_value, scan, unexpected_argument,
};
use crate::enum_value::EnumValueView;
use crate::error::{DiagnosticView, ErrorKind};
use crate::field::FieldsView;
use crate::reader::{has_name, name_flags, unique_names};
use crate::registry::RegistryView;
use crate::search::{first_true, lemma_collect, lemma_first_true, lemma_first_true_is_first};
use crate::syntax::{LitView, NestedMetaView};
use crate::ty::TypeView;
use crate::value::{RecordView, ValueView};
use vstd::prelude::*;

verus! {

/// A variant is read back from the string it is written as: reading the string
/// of the variant at `variant` gives that variant, provided no variant before
/// it is read from the same string.
pub proof fn lemma_enum_round_trip(e: EnumValueView, variant: nat)
    requires
        variant < e.items.len(),
        forall|k: int|
            0 <= k < variant ==> (#[trigger] e.items[k]).value != e.items[variant as int].value,
    ensures
        e.to_tokens(variant) == Some(LitView::Str(e.items[variant as int].value)),
        e.from_str(e.items[variant as int].value) == Ok::<nat, Seq<char>>(variant),
{
    lemma_first_true(e.matches(e.items[variant as int].value), variant as int);
}

/// Where no two variants are read from one string, every variant is read back
/// from the string it is written as.
pub proof fn lemma_enum_round_trip_distinct(e: EnumValueView, variant: nat)
    requires
        variant < e.items.len(),
        e.distinct_values(),
    ensures
        e.from_str(e.to_tokens(variant)->Some_0->Str_0) == Ok::<nat, Seq<char>>(variant),
{
    lemma_enum_round_trip(e, variant);
}

/// A string that no variant is read from is an error, whose message holds the
/// enum's name and the string.
pub proof fn lemma_enum_unknown_variant(e: EnumValueView, value: Seq<char>)
    requires
        forall|k: int| 0 <= k < e.items.len() ==> (#[trigger] e.items[k]).value != value,
    ensures
        e.from_str(value) == Err::<nat, Seq<char>>(e.unexpected_value(value)),
{
    lemma_first_true(e.matches(value), e.items.len() as int);
}

/// Reading a string gives a variant only where the variant is read from that
/// string, and an error only where no variant is.
pub proof fn lemma_enum_from_str(e: EnumValueView, value: Seq<char>)
    ensures
        match e.from_str(value) {
            Ok(variant) => variant < e.items.len() && e.items[variant as int].value == value,
            Err(_) => forall|k: int|
                0 <= k < e.items.len() ==> (#[trigger] e.items[k]).value != value,
        },
{
    let flags = e.matches(value);
    lemma_first_true_is_first(flags);
    if first_true(flags) >= e.items.len() {
        assert forall|k: int| 0 <= k < e.items.len() implies (#[trigger] e.items[k]).value
            != value by {
            assert(!flags[k]);
        }
    }
}

/// Whether the argument at `position` goes to some field.
pub open spec fn taken(fields: FieldsView, args: Seq<NestedMetaView>, position: int) -> bool {
    first_true(fields.takers(args[position], position)) < fields.len()
}

/// The field that the argument at `position` goes to.
pub open spec fn taker(fields: FieldsView, args: Seq<NestedMetaView>, position: int) -> int {
    first_true(fields.takers(args[position], position))
}

/// What reading the argument at `position` gives, for the field it goes to.
pub open spec fn read_argument(
    reg: RegistryView,
    fields: FieldsView,
    args: Seq<NestedMetaView>,
    position: int,
) -> Result<ValueView, DiagnosticView> {
    let j = taker(fields, args, position);
    read_value(reg, fields.field_type(j).unwrap(), args[position], fields.named(), fields.label(j))
}

/// A scan keeps one place for each field.
pub proof fn lemma_scan_len(
    reg: RegistryView,
    fields: FieldsView,
    args: Seq<NestedMetaView>,
    from: int,
    slots: Seq<Option<ValueView>>,
)
    requires
        0 <= from <= args.len(),
        slots.len() == fields.len(),
    ensures
        scan(reg, fields, args, from, slots) matches Ok(end) ==> end.len() == fields.len(),
    decreases args.len() - from,
{
    if from < args.len() {
        let j = taker(fields, args, from);
        lemma_first_true_is_first(fields.takers(args[from], from));
        if j < fields.len() {
            match read_argument(reg, fields, args, from) {
                Ok(value) => {
                    lemma_scan_len(reg, fields, args, from + 1, slots.update(j, Some(value)));
                },
                Err(_) => {},
            }
        }
    }
}

/// A scan ends with an error at the first argument that no field takes, where
/// every argument before it goes to a field and holds a value of the field's
/// type.
pub proof fn lemma_scan_unexpected_argument(
    reg: RegistryView,
    fields: FieldsView,
    args: Seq<NestedMetaView>,
    from: int,
    slots: Seq<Option<ValueView>>,
    at: int,
)
    requires
        0 <= from <= at < args.len(),
        !taken(fields, args, at),
        forall|k: int|
            from <= k < at ==> #[trigger] taken(fields, args, k) && read_argument(
                reg,
                fields,
                args,
                k,
            ) is Ok,
    ensures
        scan(reg, fields, args, from, slots) == Err::<Seq<Option<ValueView>>, DiagnosticView>(
            unexpected_argument(at),
        ),
    decreases at - from,
{
    if from < at {
        assert(taken(fields, args, from));
        let j = taker(fields, args, from);
        let value = read_argument(reg, fields, args, from)->Ok_0;
        lemma_scan_unexpected_argument(
            reg,
            fields,
            args,
            from + 1,
            slots.update(j, Some(value)),
            at,
        );
    }
}

/// An argument that no field takes fails the whole parse: the result is the
/// one error that names the argument's position, and no record, where the
/// defaults can be coerced and every argument before it goes to a field and
/// holds a value of the field's type.
pub proof fn lemma_unexpected_argument(
    reg: RegistryView,
    fields: FieldsView,
    args: Seq<NestedMetaView>,
    at: int,
)
    requires
        initial_slots(reg, fields) is Ok,
        0 <= at < args.len(),
        !taken(fields, args, at),
        forall|k: int|
            0 <= k < at ==> #[trigger] taken(fields, args, k) && read_argument(reg, fields, args, k)
                is Ok,
    ensures
        parse_args(reg, fields, args) == Err::<RecordView, DiagnosticView>(
            unexpected_argument(at),
        ),
        unexpected_argument(at).kind == ErrorKind::UnexpectedArgument,
{
    lemma_scan_unexpected_argument(reg, fields, args, 0, initial_slots(reg, fields)->Ok_0, at);
}

/// Whatever comes before or after it, an argument that no field takes leaves
/// no record.
pub proof fn lemma_unexpected_argument_fails(
    reg: RegistryView,
    fields: FieldsView,
    args: Seq<NestedMetaView>,
    at: int,
)
    requires
        0 <= at < args.len(),
        !taken(fields, args, at),
    ensures
        parse_args(reg, fields, args) is Err,
{
    match initial_slots(reg, fields) {
        Ok(slots) => {
            lemma_scan_fails(reg, fields, args, 0, slots, at);
        },
        Err(_) => {},
    }
}

/// A scan over an argument that no field takes ends with an error.
proof fn lemma_scan_fails(
    reg: RegistryView,
    fields: FieldsView,
    args: Seq<NestedMetaView>,
    from: int,
    slots: Seq<Option<ValueView>>,
    at: int,
)
    requires
        0 <= from <= at < args.len(),
        !taken(fields, args, at),
    ensures
        scan(reg, fields, args, from, slots) is Err,
    decreases at - from,
{
    if from < at {
        let j = taker(fields, args, from);
        if j < fields.len() {
            match read_argument(reg, fields, args, from) {
                Ok(value) => {
                    lemma_scan_fails(reg, fields, args, from + 1, slots.update(j, Some(value)), at);
                },
                Err(_) => {},
            }
        }
    }
}

/// A field that no argument goes to holds at the end of a scan what it held
/// before.
pub proof fn lemma_scan_untouched(
    reg: RegistryView,
    fields: FieldsView,
    args: Seq<NestedMetaView>,
    from: int,
    slots: Seq<Option<ValueView>>,
    j: int,
)
    requires
        0 <= from <= args.len(),
        slots.len() == fields.len(),
        0 <= j < fields.len(),
        forall|k: int| from <= k < args.len() ==> #[trigger] taker(fields, args, k) != j,
    ensures
        scan(reg, fields, args, from, slots) matches Ok(end) ==> end.len() == fields.len()
            && end[j] == slots[j],
    decreases args.len() - from,
{
    if from < args.len() {
        let t = taker(fields, args, from);
        assert(t != j);
        lemma_first_true_is_first(fields.takers(args[from], from));
        if t < fields.len() {
            match read_argument(reg, fields, args, from) {
                Ok(value) => {
                    lemma_scan_untouched(
                        reg,
                        fields,
                        args,
                        from + 1,
                        slots.update(t, Some(value)),
                        j,
                    );
                },
                Err(_) => {},
            }
        }
    }
}

/// Where a parse gives a record, a field that no argument goes to holds its
/// default, coerced to its type, where it has one, and nothing where it has
/// none.
pub proof fn lemma_default_application(
    reg: RegistryView,
    fields: FieldsView,
    args: Seq<NestedMetaView>,
    j: int,
)
    requires
        0 <= j < fields.len(),
        forall|k: int| 0 <= k < args.len() ==> #[trigger] taker(fields, args, k) != j,
        parse_args(reg, fields, args) is Ok,
    ensures
        initial_slot(reg, fields, j) == Ok::<Option<ValueView>, DiagnosticView>(
            parse_args(reg, fields, args)->Ok_0.fields[j],
        ),
        fields.default(j) is None ==> parse_args(reg, fields, args)->Ok_0.fields[j] is None,
        fields.default(j) is Some ==> parse_args(reg, fields, args)->Ok_0.fields[j] is Some,
{
    let results = Seq::new(fields.len(), |j: int| initial_slot(reg, fields, j));
    lemma_collect(results);
    let slots = initial_slots(reg, fields)->Ok_0;
    assert(results[j] == Ok::<Option<ValueView>, DiagnosticView>(slots[j]));
    lemma_scan_untouched(reg, fields, args, 0, slots, j);
}

/// A required field without a default that no argument goes to fails the
/// parse, where the defaults can be coerced and the arguments can all be read:
/// the error is that of a missing required field, and it names the first field
/// in declaration order that is required and holds no value. That is the field
/// itself where every required field before it holds one.
pub proof fn lemma_missing_required_field(
    reg: RegistryView,
    fields: FieldsView,
    args: Seq<NestedMetaView>,
    j: int,
)
    requires
        0 <= j < fields.len(),
        fields.field_type(j).is_required(),
        fields.default(j) is None,
        forall|k: int| 0 <= k < args.len() ==> #[trigger] taker(fields, args, k) != j,
        initial_slots(reg, fields) matches Ok(slots) && scan(reg, fields, args, 0, slots) is Ok,
    ensures
        ({
            let end = scan(reg, fields, args, 0, initial_slots(reg, fields)->Ok_0)->Ok_0;
            let first = first_true(fields.missing(end));
            &&& 0 <= first <= j
            &&& parse_args(reg, fields, args) == Err::<RecordView, DiagnosticView>(
                missing_required_field(fields.name(first)),
            )
            &&& missing_required_field(fields.name(first)).kind == ErrorKind::MissingRequiredField
            &&& (forall|k: int|
                0 <= k < j && fields.field_type(k).is_required() ==> (#[trigger] end[k]) is Some)
                ==> first == j
        }),
{
    let results = Seq::new(fields.len(), |j: int| initial_slot(reg, fields, j));
    lemma_collect(results);
    let slots = initial_slots(reg, fields)->Ok_0;
    assert(results[j] == Ok::<Option<ValueView>, DiagnosticView>(slots[j]));
    lemma_scan_untouched(reg, fields, args, 0, slots, j);
    let end = scan(reg, fields, args, 0, slots)->Ok_0;
    let flags = fields.missing(end);
    assert(flags[j]);
    lemma_first_true_is_first(flags);
    let first = first_true(flags);
    if first > j {
        assert(!flags[j]);
    }
    if forall|k: int|
        0 <= k < j && fields.field_type(k).is_required() ==> (#[trigger] end[k]) is Some {
        if first < j {
            assert(flags[first]);
            assert(end[first] is Some);
        }
    }
}

/// A record is made of what the fields hold exactly where every required
/// field holds a value: a field that is optional never fails it.
pub proof fn lemma_construct(fields: FieldsView, slots: Seq<Option<ValueView>>)
    ensures
        construct(fields, slots) is Ok <==> forall|j: int|
            0 <= j < fields.len() && fields.field_type(j).is_required() ==> (#[trigger] slots[j])
                is Some,
        construct(fields, slots) matches Ok(record) ==> record.fields == slots,
        construct(fields, slots) matches Err(e) ==> e.kind
            == ErrorKind::MissingRequiredField,
{
    let flags = fields.missing(slots);
    lemma_first_true_is_first(flags);
    let first = first_true(flags);
    if first < fields.len() {
        assert(flags[first]);
        assert(slots[first] is None);
    } else {
        assert forall|j: int|
            0 <= j < fields.len() && fields.field_type(j).is_required() implies (
        #[trigger] slots[j]) is Some by {
            assert(!flags[j]);
        }
    }
}

/// A table of names holds no name twice, and holds a name exactly where the
/// names it was made of do.
#[verifier::rlimit(40)]
pub proof fn lemma_unique_names(names: Seq<Seq<char>>, upto: int)
    requires
        0 <= upto <= names.len(),
    ensures
        unique_names(names, upto).no_duplicates(),
        forall|name: Seq<char>|
            #[trigger] has_name(unique_names(names, upto), name) <==> exists|k: int|
                0 <= k < upto && names[k] == name,
    decreases upto,
{
    let table = unique_names(names, upto);
    if upto > 0 {
        lemma_unique_names(names, upto - 1);
        let before = unique_names(names, upto - 1);
        let last = names[upto - 1];
        lemma_has_name(before, last);
        assert forall|name: Seq<char>| #[trigger]
            has_name(table, name) <==> exists|k: int| 0 <= k < upto && names[k] == name by {
            lemma_has_name(table, name);
            lemma_has_name(before, name);
            if has_name(table, name) {
                let i = choose|i: int| 0 <= i < table.len() && table[i] == name;
                if i < before.len() {
                    assert(before[i] == name);
                    let k = choose|k: int| 0 <= k < upto - 1 && names[k] == name;
                    assert(0 <= k < upto && names[k] == name);
                } else {
                    assert(names[upto - 1] == name);
                }
            }
            if exists|k: int| 0 <= k < upto && names[k] == name {
                let k = choose|k: int| 0 <= k < upto && names[k] == name;
                if k < upto - 1 {
                    assert(has_name(before, name));
                    let i = choose|i: int| 0 <= i < before.len() && before[i] == name;
                    assert(table[i] == name);
                } else if has_name(before, last) {
                } else {
                    assert(table[before.len() as int] == name);
                }
            }
        }
        if !has_name(before, last) {
            assert forall|i: int, j: int|
                0 <= i < table.len() && 0 <= j < table.len() && i != j implies table[i]
                != table[j] by {
                if i < before.len() && j < before.len() {
                } else if i < before.len() {
                    assert(before[i] == table[i]);
                } else {
                    assert(before[j] == table[j]);
                }
            }
        }
    } else {
        assert forall|name: Seq<char>| !(#[trigger] has_name(table, name)) by {
            lemma_has_name(table, name);
        }
    }
}

/// A list holds a name exactly where one of its places does.
pub proof fn lemma_has_name(names: Seq<Seq<char>>, name: Seq<char>)
    ensures
        has_name(names, name) <==> exists|i: int| 0 <= i < names.len() && names[i] == name,
{
    let flags = name_flags(names, name);
    lemma_first_true_is_first(flags);
    let first = first_true(flags);
    if first < names.len() {
        assert(flags[first]);
        assert(names[first] == name);
    } else {
        assert forall|i: int| 0 <= i < names.len() implies names[i] != name by {
            assert(!flags[i]);
        }
    }
}

/// A list keeps the order of its items: where the items of a list can all be
/// read, the list has one value for each item, and the value at each place is
/// the one that the item at that place holds.
pub proof fn lemma_read_list_order(
    reg: RegistryView,
    elem: TypeView,
    items: Seq<NestedMetaView>,
    label: Seq<char>,
)
    ensures
        match read_list(reg, elem, items, label) {
            Ok(values) => values.len() == items.len() && forall|k: int|
                0 <= k < items.len() ==> read_element(reg, elem, #[trigger] items[k], label)
                    == Ok::<ValueView, DiagnosticView>(values[k]),
            Err(e) => exists|at: int|
                0 <= at < items.len() && read_element(reg, elem, items[at], label) == Err::<
                    ValueView,
                    DiagnosticView,
                >(e),
        },
{
    let results = Seq::new(items.len(), |k: int| read_element(reg, elem, items[k], label));
    lemma_collect(results);
    match read_list(reg, elem, items, label) {
        Ok(values) => {
            assert forall|k: int| 0 <= k < items.len() implies read_element(
                reg,
                elem,
                #[trigger] items[k],
                label,
            ) == Ok::<ValueView, DiagnosticView>(values[k]) by {
                assert(results[k] == Ok::<ValueView, DiagnosticView>(values[k]));
            }
        },
        Err(e) => {
            let at = choose|at: int|
                0 <= at < results.len() && results[at] == Err::<ValueView, DiagnosticView>(e);
            assert(read_element(reg, elem, items[at], label) == Err::<ValueView, DiagnosticView>(
                e,
            ));
        },
    }
}

/// A map holds no key twice, whatever pairs it was made of.
#[verifier::rlimit(40)]
pub proof fn lemma_map_collect_keys(pairs: Seq<(Seq<char>, ValueView)>, upto: int)
    requires
        0 <= upto <= pairs.len(),
    ensures
        forall|i: int, j: int|
            0 <= i < j < map_collect(pairs, upto).len() ==> (#[trigger] map_collect(
                pairs,
                upto,
            )[i]).0 != (#[trigger] map_collect(pairs, upto)[j]).0,
    decreases upto,
{
    if upto > 0 {
        lemma_map_collect_keys(pairs, upto - 1);
        let before = map_collect(pairs, upto - 1);
        let after = map_collect(pairs, upto);
        let key = pairs[upto - 1].0;
        let flags = key_flags(before, key);
        lemma_first_true_is_first(flags);
        let at = first_true(flags);
        assert forall|i: int, j: int| 0 <= i < j < after.len() implies (#[trigger] after[i]).0
            != (#[trigger] after[j]).0 by {
            if at < before.len() {
                assert(flags[at]);
                assert(after[i].0 == before[i].0);
                assert(after[j].0 == before[j].0);
            } else if j < before.len() {
                assert(after[i] == before[i] && after[j] == before[j]);
            } else {
                assert(after[i] == before[i]);
                assert(!flags[i]);
            }
        }
    }
}

/// Of the pairs of one key the last decides: the value that a map holds under
/// the key of the pair at `k` is that pair's value, where no later pair has
/// the key.
#[verifier::rlimit(40)]
pub proof fn lemma_map_collect_last_wins(pairs: Seq<(Seq<char>, ValueView)>, upto: int, k: int)
    requires
        0 <= k < upto <= pairs.len(),
        forall|m: int| k < m < upto ==> (#[trigger] pairs[m]).0 != pairs[k].0,
    ensures
        exists|i: int|
            0 <= i < map_collect(pairs, upto).len() && #[trigger] map_collect(pairs, upto)[i]
                == pairs[k],
    decreases upto,
{
    let before = map_collect(pairs, upto - 1);
    let after = map_collect(pairs, upto);
    let key = pairs[upto - 1].0;
    let flags = key_flags(before, key);
    lemma_first_true_is_first(flags);
    let at = first_true(flags);
    if k == upto - 1 {
        if at < before.len() {
            assert(after[at] == pairs[k]);
        } else {
            assert(after[before.len() as int] == pairs[k]);
        }
    } else {
        lemma_map_collect_last_wins(pairs, upto - 1, k);
        let i = choose|i: int| 0 <= i < before.len() && #[trigger] before[i] == pairs[k];
        assert(pairs[upto - 1].0 != pairs[k].0);
        if at < before.len() {
            assert(flags[at]);
            assert(at != i);
        }
        assert(after[i] == pairs[k]);
    }
}

} // verus!
