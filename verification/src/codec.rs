//! What parsing and serialising compute, stated over the models of syntax,
//! schema and values.

use crate::attribute::AnnotationView;
use crate::error::{diagnostic, DiagnosticView, ErrorKind};
use crate::field::{ordinal_label, FieldsView, NamedFieldView, UnnamedFiledView};
use crate::helper::{integer_of_text, lit_bool, lit_float, lit_int, lit_str, literal_error};
use crate::number::{float_text, integer_text};
use crate::registry::RegistryView;
use crate::search::{all_some, collect, first_true, present};
use crate::syntax::{LitView, MetaListView, MetaNameValueView, MetaView, NestedMetaView, PathView};
use crate::ty::{DefaultValueView, FieldTypeView, TypeView};
use crate::value::{RecordView, ValueView};
use vstd::prelude::*;

verus! {

/// The shape of the item that holds a field's value.
#[derive(Debug, Clone, Copy, PartialEq, Eq, Structural)]
pub enum NestedPattern {
    /// A bare literal.
    Lit,
    /// `name = literal`.
    NameValue,
    /// `name(items)`.
    List,
}

impl TypeView {
    /// The shape of the item that holds a value of the type, for a named field
    /// or a positional one. A scalar is held by `name = literal` where named
    /// and by a bare literal where not; an object, a list or a map is held by
    /// `name(items)` where named, and by no item where not.
    pub open spec fn nested_pattern(self, named: bool) -> Option<NestedPattern> {
        if self.is_scalar() {
            if named {
                Some(NestedPattern::NameValue)
            } else {
                Some(NestedPattern::Lit)
            }
        } else if named {
            Some(NestedPattern::List)
        } else {
            None
        }
    }
}

/// Whether an item has the given shape.
pub open spec fn fits(pattern: NestedPattern, item: NestedMetaView) -> bool {
    match pattern {
        NestedPattern::Lit => item is Lit,
        NestedPattern::NameValue => item matches NestedMetaView::Meta(m) && m is NameValue,
        NestedPattern::List => item matches NestedMetaView::Meta(m) && m is List,
    }
}

/// Whether an item has the shape that holds a value of type `ty`.
pub open spec fn fits_type(ty: TypeView, named: bool, item: NestedMetaView) -> bool {
    match ty.nested_pattern(named) {
        Some(pattern) => fits(pattern, item),
        None => false,
    }
}

/// The path that a structured item begins with.
pub open spec fn item_path(item: NestedMetaView) -> Option<PathView> {
    match item {
        NestedMetaView::Meta(m) => Some(m.path()),
        NestedMetaView::Lit(_) => None,
    }
}

/// Whether a structured item begins with the single identifier `key`.
pub open spec fn begins_with(item: NestedMetaView, key: Seq<char>) -> bool {
    match item_path(item) {
        Some(p) => p.is_ident(key),
        None => false,
    }
}

impl NamedFieldView {
    /// Whether the field takes an item: the item has the shape that holds the
    /// field's type, and begins with the field's key.
    pub open spec fn takes(self, item: NestedMetaView) -> bool {
        fits_type(self.field_type.unwrap(), true, item) && begins_with(item, self.path)
    }
}

impl UnnamedFiledView {
    /// Whether the field takes the item that stands at `position` of the
    /// argument list: the item has the shape that holds the field's type, and
    /// the position is the field's index.
    pub open spec fn takes(self, item: NestedMetaView, position: int) -> bool {
        fits_type(self.field_type.unwrap(), false, item) && position == self.index
    }
}

impl FieldsView {
    /// The number of fields.
    pub open spec fn len(self) -> nat {
        match self {
            FieldsView::NamedFields(fields) => fields.len(),
            FieldsView::UnnamedField(fields) => fields.len(),
            FieldsView::Unit => 0,
        }
    }

    /// Whether the fields are named.
    pub open spec fn named(self) -> bool {
        self is NamedFields
    }

    /// The type of the field at `j`.
    pub open spec fn field_type(self, j: int) -> FieldTypeView {
        match self {
            FieldsView::NamedFields(fields) => fields[j].field_type,
            FieldsView::UnnamedField(fields) => fields[j].field_type,
            FieldsView::Unit => arbitrary(),
        }
    }

    /// The default of the field at `j`.
    pub open spec fn default(self, j: int) -> Option<DefaultValueView> {
        match self {
            FieldsView::NamedFields(fields) => fields[j].default,
            FieldsView::UnnamedField(fields) => fields[j].default,
            FieldsView::Unit => None,
        }
    }

    /// The name under which messages about literals speak of the field at `j`:
    /// a named field's key, a positional field's ordinal.
    pub open spec fn label(self, j: int) -> Seq<char> {
        match self {
            FieldsView::NamedFields(fields) => fields[j].path,
            FieldsView::UnnamedField(fields) => ordinal_label(fields[j].index),
            FieldsView::Unit => Seq::empty(),
        }
    }

    /// The name of the field at `j`: a named field's own name, a positional
    /// field's ordinal.
    pub open spec fn name(self, j: int) -> Seq<char> {
        match self {
            FieldsView::NamedFields(fields) => fields[j].name,
            FieldsView::UnnamedField(fields) => ordinal_label(fields[j].index),
            FieldsView::Unit => Seq::empty(),
        }
    }

    /// Whether the field at `j` takes the item that stands at `position` of the
    /// argument list.
    pub open spec fn takes(self, j: int, item: NestedMetaView, position: int) -> bool {
        match self {
            FieldsView::NamedFields(fields) => fields[j].takes(item),
            FieldsView::UnnamedField(fields) => fields[j].takes(item, position),
            FieldsView::Unit => false,
        }
    }

    /// For each field in declaration order, whether it takes the item.
    pub open spec fn takers(self, item: NestedMetaView, position: int) -> Seq<bool> {
        Seq::new(self.len(), |j: int| self.takes(j, item, position))
    }

    /// For each field in declaration order, whether it is required and has no
    /// value in `slots`.
    pub open spec fn missing(self, slots: Seq<Option<ValueView>>) -> Seq<bool> {
        Seq::new(self.len(), |j: int| self.field_type(j).is_required() && slots[j] is None)
    }
}

/// The diagnostic for a type name that the registry does not hold.
pub open spec fn unresolved(name: Seq<char>) -> DiagnosticView {
    diagnostic(ErrorKind::UnresolvedType, "Unknown type "@ + name)
}

/// The diagnostic for an argument that no field takes.
pub open spec fn unexpected_argument(position: int) -> DiagnosticView {
    DiagnosticView {
        kind: ErrorKind::UnexpectedArgument,
        message: "Unexpected nested value in list"@,
        position: Some(position as nat),
    }
}

/// The diagnostic for a required field without a value.
pub open spec fn missing_required_field(name: Seq<char>) -> DiagnosticView {
    diagnostic(ErrorKind::MissingRequiredField, "Not found value on required field "@ + name)
}

/// The diagnostic for an item that has not the shape that its place asks for.
pub open spec fn shape_error(kind: ErrorKind) -> DiagnosticView {
    diagnostic(kind, "Only support List of Lit"@)
}

/// The variant of the enum `name` that the string `text` names.
pub open spec fn read_variant(reg: RegistryView, name: Seq<char>, text: Seq<char>) -> Result<
    ValueView,
    DiagnosticView,
> {
    match reg.find_enum(name) {
        None => Err(unresolved(name)),
        Some(e) => match e.from_str(text) {
            Ok(variant) => Ok(ValueView::Enum(variant)),
            Err(message) => Err(diagnostic(ErrorKind::UnknownVariant, message)),
        },
    }
}

/// The value of a scalar type that a literal holds. A string, a boolean and a
/// float are taken from a literal of their kind; an integer is decoded from an
/// integer literal's decimal digits for the type's width; an enum is read from
/// a string literal by the enum's string parser.
pub open spec fn read_scalar(
    reg: RegistryView,
    ty: TypeView,
    lit: LitView,
    label: Seq<char>,
) -> Result<ValueView, DiagnosticView> {
    match ty {
        TypeView::String => match lit_str(lit, label) {
            Ok(s) => Ok(ValueView::String(s)),
            Err(e) => Err(e),
        },
        TypeView::Bool => match lit_bool(lit, label) {
            Ok(b) => Ok(ValueView::Bool(b)),
            Err(e) => Err(e),
        },
        TypeView::Integer(width) => match lit_int(lit, label, width) {
            Ok(v) => Ok(ValueView::Integer(v)),
            Err(e) => Err(e),
        },
        TypeView::Float(_) => match lit_float(lit, label) {
            Ok(s) => Ok(ValueView::Float(s)),
            Err(e) => Err(e),
        },
        TypeView::Enum(name) => match lit_str(lit, label) {
            Ok(s) => read_variant(reg, name, s),
            Err(e) => Err(e),
        },
        _ => Err(shape_error(ErrorKind::UnsupportedListElement)),
    }
}

/// The value that one item of a list holds: the item has to be a bare literal
/// and the element type a scalar.
pub open spec fn read_element(
    reg: RegistryView,
    elem: TypeView,
    item: NestedMetaView,
    label: Seq<char>,
) -> Result<ValueView, DiagnosticView> {
    match item {
        NestedMetaView::Lit(lit) => if elem.is_scalar() {
            read_scalar(reg, elem, lit, label)
        } else {
            Err(shape_error(ErrorKind::UnsupportedListElement))
        },
        _ => Err(shape_error(ErrorKind::UnsupportedListElement)),
    }
}

/// The values that the items of a list hold, in order, or the first error.
pub open spec fn read_list(
    reg: RegistryView,
    elem: TypeView,
    items: Seq<NestedMetaView>,
    label: Seq<char>,
) -> Result<Seq<ValueView>, DiagnosticView> {
    collect(Seq::new(items.len(), |k: int| read_element(reg, elem, items[k], label)))
}

/// For each entry of a map, whether its key is `key`.
pub open spec fn key_flags(entries: Seq<(Seq<char>, ValueView)>, key: Seq<char>) -> Seq<bool> {
    Seq::new(entries.len(), |i: int| entries[i].0 == key)
}

/// The entries of a map after `key` is set to `value`: the entry of `key` is
/// overwritten where there is one, and a new entry comes last where not.
pub open spec fn map_insert(
    entries: Seq<(Seq<char>, ValueView)>,
    key: Seq<char>,
    value: ValueView,
) -> Seq<(Seq<char>, ValueView)> {
    let at = first_true(key_flags(entries, key));
    if at < entries.len() {
        entries.update(at, (key, value))
    } else {
        entries.push((key, value))
    }
}

/// The entries of the map that the first `upto` pairs give, set one after the
/// other: of two pairs with one key the later one stays.
pub open spec fn map_collect(pairs: Seq<(Seq<char>, ValueView)>, upto: int) -> Seq<
    (Seq<char>, ValueView),
>
    decreases upto,
{
    if upto <= 0 {
        Seq::empty()
    } else {
        map_insert(map_collect(pairs, upto - 1), pairs[upto - 1].0, pairs[upto - 1].1)
    }
}

/// The value that an item holds for a field of type `ty`, `named` saying
/// whether the field is a named one. An item of another shape than the type's
/// is an error.
pub open spec fn read_value(
    reg: RegistryView,
    ty: TypeView,
    item: NestedMetaView,
    named: bool,
    label: Seq<char>,
) -> Result<ValueView, DiagnosticView>
    decreases item, 0nat, 0nat,
{
    match item {
        NestedMetaView::Lit(lit) => if !named && ty.is_scalar() {
            read_scalar(reg, ty, lit, label)
        } else {
            Err(shape_error(ErrorKind::UnexpectedArgument))
        },
        NestedMetaView::Meta(MetaView::NameValue(name_value)) => if named && ty.is_scalar() {
            read_scalar(reg, ty, name_value.lit, label)
        } else {
            Err(shape_error(ErrorKind::UnexpectedArgument))
        },
        NestedMetaView::Meta(MetaView::List(list)) => if !named {
            Err(shape_error(ErrorKind::UnexpectedArgument))
        } else {
            match ty {
                TypeView::List(elem) => match read_list(reg, *elem, list.nested, label) {
                    Ok(values) => Ok(ValueView::List(values)),
                    Err(e) => Err(e),
                },
                TypeView::Mapping(val) => match read_entries(reg, *val, list.nested, label) {
                    Ok(pairs) => Ok(ValueView::Mapping(map_collect(pairs, pairs.len() as int))),
                    Err(e) => Err(e),
                },
                TypeView::Object(name) => match reg.find_annotation(name) {
                    None => Err(unresolved(name)),
                    Some(annotation) => match annotation.fields {
                        FieldsView::Unit => Ok(
                            ValueView::Object(RecordView { fields: Seq::empty() }),
                        ),
                        _ => match parse_args(reg, annotation.fields, list.nested) {
                            Ok(record) => Ok(ValueView::Object(record)),
                            Err(e) => Err(e),
                        },
                    },
                },
                _ => Err(shape_error(ErrorKind::UnexpectedArgument)),
            }
        },
        NestedMetaView::Meta(MetaView::Path(_)) => Err(shape_error(ErrorKind::UnexpectedArgument)),
    }
}

/// The key and the value that one item of a map holds: the item has to have
/// the named shape of the value type; its key is the first segment of the path
/// it begins with.
pub open spec fn read_entry(
    reg: RegistryView,
    val: TypeView,
    item: NestedMetaView,
    label: Seq<char>,
) -> Result<(Seq<char>, ValueView), DiagnosticView>
    decreases item, 1nat, 0nat,
{
    if !fits_type(val, true, item) {
        Err(shape_error(ErrorKind::InvalidMapEntry))
    } else if item_path(item)->Some_0.segments.len() == 0 {
        Err(diagnostic(ErrorKind::InvalidMapEntry, "Unexpected type path segment"@))
    } else {
        match read_value(reg, val, item, true, label) {
            Ok(value) => Ok((item_path(item)->Some_0.segments[0], value)),
            Err(e) => Err(e),
        }
    }
}

/// For each item of a map, the key and the value that it holds.
pub open spec fn entry_results(
    reg: RegistryView,
    val: TypeView,
    items: Seq<NestedMetaView>,
    label: Seq<char>,
) -> Seq<Result<(Seq<char>, ValueView), DiagnosticView>>
    decreases items, 0nat, 0nat,
{
    Seq::new(
        items.len(),
        |k: int|
            if 0 <= k < items.len() {
                read_entry(reg, val, items[k], label)
            } else {
                arbitrary()
            },
    )
}

/// The keys and values that the items of a map hold, in order, or the first
/// error.
pub open spec fn read_entries(
    reg: RegistryView,
    val: TypeView,
    items: Seq<NestedMetaView>,
    label: Seq<char>,
) -> Result<Seq<(Seq<char>, ValueView)>, DiagnosticView>
    decreases items, 1nat, 0nat,
{
    collect(entry_results(reg, val, items, label))
}

/// The results of a map's items are what each item holds.
pub proof fn lemma_entry_results(
    reg: RegistryView,
    val: TypeView,
    items: Seq<NestedMetaView>,
    label: Seq<char>,
)
    ensures
        entry_results(reg, val, items, label) == Seq::new(
            items.len(),
            |k: int| read_entry(reg, val, items[k], label),
        ),
{
    assert(entry_results(reg, val, items, label) =~= Seq::new(
        items.len(),
        |k: int| read_entry(reg, val, items[k], label),
    ));
}

/// The value that a default's text is for a field of type `ty`.
pub open spec fn read_default(reg: RegistryView, ty: TypeView, default: DefaultValueView) -> Result<
    ValueView,
    DiagnosticView,
> {
    let text = default.text();
    match ty {
        TypeView::String => Ok(ValueView::String(text)),
        TypeView::Bool => if text == "true"@ {
            Ok(ValueView::Bool(true))
        } else if text == "false"@ {
            Ok(ValueView::Bool(false))
        } else {
            Err(literal_error("default"@, "a bool"@))
        },
        TypeView::Integer(width) => match integer_of_text(text, width) {
            Some(v) => Ok(ValueView::Integer(v)),
            None => Err(literal_error("default"@, "a integer in range"@)),
        },
        TypeView::Float(_) => if float_text(text) {
            Ok(ValueView::Float(text))
        } else {
            Err(literal_error("default"@, "a float"@))
        },
        TypeView::Enum(name) => read_variant(reg, name, text),
        _ => Err(
            diagnostic(
                ErrorKind::UnsupportedDefault,
                "Only support default value on String / Bool / Integer / Float / Enum"@,
            ),
        ),
    }
}

/// What a field holds before any argument is read: its default, coerced to its
/// type, or nothing.
pub open spec fn initial_of(
    reg: RegistryView,
    field_type: FieldTypeView,
    default: Option<DefaultValueView>,
) -> Result<Option<ValueView>, DiagnosticView> {
    match default {
        None => Ok(None),
        Some(default) => match read_default(reg, field_type.unwrap(), default) {
            Ok(v) => Ok(Some(v)),
            Err(e) => Err(e),
        },
    }
}

/// What the field at `j` holds before any argument is read.
pub open spec fn initial_slot(reg: RegistryView, fields: FieldsView, j: int) -> Result<
    Option<ValueView>,
    DiagnosticView,
> {
    initial_of(reg, fields.field_type(j), fields.default(j))
}

/// What the fields hold before any argument is read, or the error of the first
/// default that cannot be coerced.
pub open spec fn initial_slots(reg: RegistryView, fields: FieldsView) -> Result<
    Seq<Option<ValueView>>,
    DiagnosticView,
> {
    collect(Seq::new(fields.len(), |j: int| initial_slot(reg, fields, j)))
}

/// What the fields hold after the arguments from `from` on are read, `slots`
/// being what they hold after the arguments before. Each argument goes to the
/// first field in declaration order that takes it, and replaces what the field
/// held. An argument that no field takes is an error, and so is one whose
/// value cannot be read: the first error ends the scan.
pub open spec fn scan(
    reg: RegistryView,
    fields: FieldsView,
    args: Seq<NestedMetaView>,
    from: int,
    slots: Seq<Option<ValueView>>,
) -> Result<Seq<Option<ValueView>>, DiagnosticView>
    decreases args, 0nat, args.len() - from,
{
    if from < 0 || from >= args.len() {
        Ok(slots)
    } else {
        let j = first_true(fields.takers(args[from], from));
        if j >= fields.len() {
            Err(unexpected_argument(from))
        } else {
            match read_value(
                reg,
                fields.field_type(j).unwrap(),
                args[from],
                fields.named(),
                fields.label(j),
            ) {
                Ok(value) => scan(reg, fields, args, from + 1, slots.update(j, Some(value))),
                Err(e) => Err(e),
            }
        }
    }
}

/// The record that the fields' values make: every required field has to hold
/// one. The first required field in declaration order that holds none decides
/// the error, which names it.
pub open spec fn construct(fields: FieldsView, slots: Seq<Option<ValueView>>) -> Result<
    RecordView,
    DiagnosticView,
> {
    let j = first_true(fields.missing(slots));
    if j < fields.len() {
        Err(missing_required_field(fields.name(j)))
    } else {
        Ok(RecordView { fields: slots })
    }
}

/// The record that a list of arguments gives for a field set: the fields start
/// with their defaults, the arguments are read in order, and the record is
/// made of what the fields hold at the end.
pub open spec fn parse_args(
    reg: RegistryView,
    fields: FieldsView,
    args: Seq<NestedMetaView>,
) -> Result<RecordView, DiagnosticView>
    decreases args, 1nat, 0nat,
{
    match initial_slots(reg, fields) {
        Err(e) => Err(e),
        Ok(slots) => match scan(reg, fields, args, 0, slots) {
            Err(e) => Err(e),
            Ok(slots) => construct(fields, slots),
        },
    }
}

/// The record that a structured item gives for a field set. A field set
/// without fields takes any item; any other takes a list, and reads the list's
/// items as its arguments.
pub open spec fn parse_fields_meta(reg: RegistryView, fields: FieldsView, meta: MetaView) -> Result<
    RecordView,
    DiagnosticView,
> {
    match fields {
        FieldsView::Unit => Ok(RecordView { fields: Seq::empty() }),
        _ => match meta {
            MetaView::List(list) => parse_args(reg, fields, list.nested),
            _ => Err(
                diagnostic(ErrorKind::MalformedMarker, "Argument of attribute must be a List"@),
            ),
        },
    }
}

/// The record that a structured item gives for an annotation.
pub open spec fn parse_meta(
    reg: RegistryView,
    annotation: AnnotationView,
    meta: MetaView,
) -> Result<RecordView, DiagnosticView> {
    parse_fields_meta(reg, annotation.fields, meta)
}

/// The literal that holds a value of a scalar type. There is none where the
/// value is of another kind than the type, an integer is no value of the
/// type's width, a float is not the text of a floating point number, or an
/// enum or its variant is not to be found.
pub open spec fn emit_scalar(reg: RegistryView, ty: TypeView, value: ValueView) -> Option<LitView> {
    match (ty, value) {
        (TypeView::String, ValueView::String(s)) => Some(LitView::Str(s)),
        (TypeView::Bool, ValueView::Bool(b)) => Some(LitView::Bool(b)),
        (TypeView::Integer(width), ValueView::Integer(v)) => if width.holds(v) {
            Some(LitView::Int(integer_text(v)))
        } else {
            None
        },
        (TypeView::Float(_), ValueView::Float(s)) => if float_text(s) {
            Some(LitView::Float(s))
        } else {
            None
        },
        (TypeView::Enum(name), ValueView::Enum(variant)) => match reg.find_enum(name) {
            Some(e) => e.to_tokens(variant),
            None => None,
        },
        _ => None,
    }
}

/// The item that holds one value of a list: a bare literal.
pub open spec fn emit_element(reg: RegistryView, elem: TypeView, value: ValueView) -> Option<
    NestedMetaView,
> {
    match emit_scalar(reg, elem, value) {
        Some(lit) => Some(NestedMetaView::Lit(lit)),
        None => None,
    }
}

/// The list `key(items)`.
pub open spec fn list_item(key: Seq<char>, items: Seq<NestedMetaView>) -> NestedMetaView {
    NestedMetaView::Meta(
        MetaView::List(MetaListView { path: PathView::of_ident(key), nested: items }),
    )
}

/// The item that holds a value of type `ty` for the field or the map entry
/// with the key `key`: `key = literal` for a scalar of a named field and a bare
/// literal for one of a positional field; `key(items)` for an object, a list or
/// a map, whose items hold the object's fields, the list's values or the map's
/// entries. There is none where the value is not of the type.
pub open spec fn emit_value(
    reg: RegistryView,
    ty: TypeView,
    value: ValueView,
    key: Seq<char>,
    named: bool,
) -> Option<NestedMetaView>
    decreases value, 0nat,
{
    if ty.is_scalar() {
        match emit_scalar(reg, ty, value) {
            Some(lit) => if named {
                Some(
                    NestedMetaView::Meta(
                        MetaView::NameValue(
                            MetaNameValueView { path: PathView::of_ident(key), lit },
                        ),
                    ),
                )
            } else {
                Some(NestedMetaView::Lit(lit))
            },
            None => None,
        }
    } else if !named {
        None
    } else {
        match (ty, value) {
            (TypeView::List(elem), ValueView::List(values)) => match all_some(
                Seq::new(values.len(), |k: int| emit_element(reg, *elem, values[k])),
            ) {
                Some(items) => Some(list_item(key, items)),
                None => None,
            },
            (TypeView::Mapping(val), ValueView::Mapping(entries)) => match all_some(
                entry_items(reg, *val, entries),
            ) {
                Some(items) => Some(list_item(key, items)),
                None => None,
            },
            (TypeView::Object(name), ValueView::Object(record)) => match reg.find_annotation(
                name,
            ) {
                Some(annotation) => match emit_record(reg, annotation.fields, record) {
                    Some(items) => Some(list_item(key, items)),
                    None => None,
                },
                None => None,
            },
            _ => None,
        }
    }
}

/// For each entry of a map, the item that holds it.
pub open spec fn entry_items(
    reg: RegistryView,
    val: TypeView,
    entries: Seq<(Seq<char>, ValueView)>,
) -> Seq<Option<NestedMetaView>>
    decreases entries, 0nat,
{
    Seq::new(
        entries.len(),
        |k: int|
            if 0 <= k < entries.len() {
                emit_value(reg, val, entries[k].1, entries[k].0, true)
            } else {
                arbitrary()
            },
    )
}

/// The item that holds what the field at `j` holds. A field without a value
/// gives no item; it is a failure where the field is required, and so is a
/// value that is not of the field's type.
pub open spec fn emit_slot(
    reg: RegistryView,
    fields: FieldsView,
    slots: Seq<Option<ValueView>>,
    j: int,
) -> Option<Option<NestedMetaView>>
    decreases slots, 0nat,
{
    if 0 <= j < slots.len() {
        match slots[j] {
            None => if fields.field_type(j).is_required() {
                None
            } else {
                Some(None)
            },
            Some(value) => match emit_value(
                reg,
                fields.field_type(j).unwrap(),
                value,
                fields.label(j),
                fields.named(),
            ) {
                Some(item) => Some(Some(item)),
                None => None,
            },
        }
    } else {
        None
    }
}

/// For each field, the item that holds what it holds.
pub open spec fn slot_items(
    reg: RegistryView,
    fields: FieldsView,
    slots: Seq<Option<ValueView>>,
) -> Seq<Option<Option<NestedMetaView>>>
    decreases slots, 1nat,
{
    Seq::new(slots.len(), |j: int| emit_slot(reg, fields, slots, j))
}

/// Whether no field that holds a value comes after one that holds none.
pub open spec fn no_gaps(slots: Seq<Option<ValueView>>) -> bool {
    forall|j: int, k: int|
        0 <= j < k < slots.len() && (#[trigger] slots[j]) is None ==> (#[trigger] slots[k]) is None
}

/// The arguments that hold a record: for each field that holds a value the item
/// that holds it, in declaration order. There are none where the record has
/// not one place for each field, a field's item fails, or the fields are
/// positional and one that holds a value comes after one that holds none.
pub open spec fn emit_record(reg: RegistryView, fields: FieldsView, record: RecordView) -> Option<
    Seq<NestedMetaView>,
>
    decreases record, 0nat,
{
    if record.fields.len() != fields.len() {
        None
    } else if !fields.named() && !no_gaps(record.fields) {
        None
    } else {
        match all_some(slot_items(reg, fields, record.fields)) {
            Some(items) => Some(present(items, items.len() as int)),
            None => None,
        }
    }
}

/// The structured item that holds a record of an annotation: the annotation's
/// path alone where it has no fields, and the path with the record's arguments
/// where it has.
pub open spec fn emit_meta(
    reg: RegistryView,
    annotation: AnnotationView,
    record: RecordView,
) -> Option<MetaView> {
    match annotation.fields {
        FieldsView::Unit => Some(MetaView::Path(PathView::of_ident(annotation.path))),
        _ => match emit_record(reg, annotation.fields, record) {
            Some(items) => Some(
                MetaView::List(
                    MetaListView { path: PathView::of_ident(annotation.path), nested: items },
                ),
            ),
            None => None,
        },
    }
}

} // verus!
