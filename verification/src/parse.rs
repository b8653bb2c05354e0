//! Parsing: from the items of a marker's argument list to a record.

use crate::attribute::Annotation;
use crate::codec::{
    begins_with, construct, fits, fits_type, initial_of, initial_slot, initial_slots, key_flags,
    lemma_entry_results, map_collect, map_insert, missing_required_field, parse_args,
    parse_fields_meta, parse_meta, read_default, read_element, read_entries, read_entry, read_list,
    read_scalar, read_value, read_variant, scan, shape_error, unresolved, NestedPattern,
};
use crate::error::{diagnostic, Diagnostic, DiagnosticView, ErrorKind};
use crate::field::{default_view, ordinal_label, Fields, NamedField, UnnamedFiled};
use crate::helper::{
    decode_integer, get_lit_bool, get_lit_float, get_lit_int, get_lit_str, make_literal_error,
    result_view,
};
use crate::number::is_float_text;
use crate::registry::Registry;
use crate::search::{
    collect, first_true, lemma_collect, lemma_collect_err, lemma_collect_ok, lemma_first_true,
};
use crate::syntax::{lemma_meta_list_view, nested_view, str_eq, Lit, Meta, NestedMeta, Path};
use crate::ty::{type_text, DefaultValue, FieldType, Type};
use crate::value::{
    entries_view, lemma_list_view, lemma_map_view, lemma_record_view, slot_view, slots_view,
    values_view, Record, Value, ValueView,
};
use vstd::prelude::*;

verus! {

/// Builds the diagnostic for an item of the wrong shape.
fn make_shape_error(kind: ErrorKind) -> (d: Diagnostic)
    ensures
        d@ == shape_error(kind),
{
    Diagnostic::new(kind, "Only support List of Lit")
}

/// Builds the diagnostic for a type name that the registry does not hold.
fn make_unresolved(name: &str) -> (d: Diagnostic)
    ensures
        d@ == unresolved(name@),
{
    let message: String = String::from_str("Unknown type ").concat(name);
    Diagnostic { kind: ErrorKind::UnresolvedType, message, position: None }
}

/// Whether an item has the given shape.
pub fn item_fits(pattern: NestedPattern, item: &NestedMeta) -> (b: bool)
    ensures
        b == fits(pattern, item@),
{
    match pattern {
        NestedPattern::Lit => match item {
            NestedMeta::Lit(_) => true,
            _ => false,
        },
        NestedPattern::NameValue => match item {
            NestedMeta::Meta(Meta::NameValue(_)) => true,
            _ => false,
        },
        NestedPattern::List => match item {
            NestedMeta::Meta(Meta::List(_)) => true,
            _ => false,
        },
    }
}

/// Whether a structured item begins with the single identifier `key`.
pub fn item_begins_with(item: &NestedMeta, key: &str) -> (b: bool)
    ensures
        b == begins_with(item@, key@),
{
    match item {
        NestedMeta::Meta(meta) => meta.path().is_ident(key),
        NestedMeta::Lit(_) => false,
    }
}

/// Reads the variant of the enum `name` that `text` names.
fn read_variant_of(registry: &Registry, name: &str, text: &str) -> (r: Result<Value, Diagnostic>)
    ensures
        result_view(r) == read_variant(registry@, name@, text@),
{
    match registry.find_enum(name) {
        None => Err(make_unresolved(name)),
        Some(e) => match e.from_str(text) {
            Ok(variant) => Ok(Value::Enum(variant)),
            Err(error) => Err(Diagnostic::from_error(ErrorKind::UnknownVariant, &error)),
        },
    }
}

/// Reads the value of a scalar type from a literal.
fn read_scalar_of(ty: &Type, registry: &Registry, lit: &Lit, label: &str) -> (r: Result<
    Value,
    Diagnostic,
>)
    ensures
        result_view(r) == read_scalar(registry@, ty@, lit@, label@),
{
    match ty {
        Type::String => Ok(Value::String(get_lit_str(lit, label)?)),
        Type::Bool => Ok(Value::Bool(get_lit_bool(lit, label)?)),
        Type::Integer(width) => Ok(Value::Integer(get_lit_int(lit, label, *width)?)),
        Type::Float(_) => Ok(Value::Float(get_lit_float(lit, label)?)),
        Type::Enum(name) => {
            let text: String = get_lit_str(lit, label)?;
            read_variant_of(registry, name.as_str(), text.as_str())
        },
        _ => Err(make_shape_error(ErrorKind::UnsupportedListElement)),
    }
}

/// Reads the value that one item of a list holds.
fn read_element_of(elem: &Type, registry: &Registry, item: &NestedMeta, label: &str) -> (r: Result<
    Value,
    Diagnostic,
>)
    ensures
        result_view(r) == read_element(registry@, elem@, item@, label@),
{
    match item {
        NestedMeta::Lit(lit) => if elem.is_scalar() {
            read_scalar_of(elem, registry, lit, label)
        } else {
            Err(make_shape_error(ErrorKind::UnsupportedListElement))
        },
        _ => Err(make_shape_error(ErrorKind::UnsupportedListElement)),
    }
}

/// Reads the values that the items of a list hold.
fn read_list_of(
    elem: &Type,
    registry: &Registry,
    items: &Vec<NestedMeta>,
    label: &str,
) -> (r: Result<Vec<Value>, Diagnostic>)
    ensures
        match r {
            Ok(values) => read_list(registry@, elem@, nested_view(items@), label@) == Ok::<
                Seq<ValueView>,
                DiagnosticView,
            >(values_view(values@)),
            Err(e) => read_list(registry@, elem@, nested_view(items@), label@) == Err::<
                Seq<ValueView>,
                DiagnosticView,
            >(e@),
        },
{
    let ghost views = nested_view(items@);
    let ghost results = Seq::new(
        views.len(),
        |k: int| read_element(registry@, elem@, views[k], label@),
    );
    let mut values: Vec<Value> = Vec::new();
    let mut i: usize = 0;
    while i < items.len()
        invariant
            i <= items@.len(),
            values@.len() == i,
            views == nested_view(items@),
            results == Seq::new(
                views.len(),
                |k: int| read_element(registry@, elem@, views[k], label@),
            ),
            forall|k: int|
                0 <= k < i ==> (#[trigger] results[k]) == Ok::<ValueView, DiagnosticView>(
                    values@[k]@,
                ),
        decreases items@.len() - i,
    {
        match read_element_of(elem, registry, &items[i], label) {
            Ok(value) => {
                values.push(value);
            },
            Err(e) => {
                proof {
                    lemma_collect_err(results, i as int);
                }
                return Err(e);
            },
        }
        i = i + 1;
    }
    proof {
        lemma_collect_ok(results, values_view(values@));
    }
    Ok(values)
}

/// Sets `key` to `value` in the entries of a map.
fn insert_entry(entries: &mut Vec<(String, Value)>, key: String, value: Value)
    ensures
        entries_view(final(entries)@) == map_insert(entries_view(old(entries)@), key@, value@),
{
    let ghost before = entries_view(entries@);
    let ghost flags = key_flags(before, key@);
    let mut i: usize = 0;
    while i < entries.len()
        invariant
            i <= entries@.len(),
            entries@ == old(entries)@,
            before == entries_view(entries@),
            flags == key_flags(before, key@),
            forall|k: int| 0 <= k < i ==> !flags[k],
        decreases entries@.len() - i,
    {
        if entries[i].0 == key {
            proof {
                lemma_first_true(flags, i as int);
            }
            entries.set(i, (key, value));
            assert(entries_view(entries@) =~= before.update(i as int, (key@, value@)));
            return ;
        }
        i = i + 1;
    }
    proof {
        lemma_first_true(flags, i as int);
    }
    entries.push((key, value));
    assert(entries_view(entries@) =~= before.push((key@, value@)));
}

/// The map of the first pairs does not depend on the pairs that follow.
proof fn lemma_map_collect_prefix(
    pairs: Seq<(Seq<char>, ValueView)>,
    longer: Seq<(Seq<char>, ValueView)>,
    upto: int,
)
    requires
        0 <= upto <= pairs.len() <= longer.len(),
        forall|k: int| 0 <= k < pairs.len() ==> pairs[k] == longer[k],
    ensures
        map_collect(pairs, upto) == map_collect(longer, upto),
    decreases upto,
{
    if upto > 0 {
        lemma_map_collect_prefix(pairs, longer, upto - 1);
    }
}

impl Type {
    /// The shape of the item that holds a value of the type, for a named field
    /// or a positional one; `None` where no item holds one.
    pub fn get_nested_pattern(&self, named: bool) -> (r: Option<NestedPattern>)
        ensures
            r == self@.nested_pattern(named),
    {
        if self.is_scalar() {
            if named {
                Some(NestedPattern::NameValue)
            } else {
                Some(NestedPattern::Lit)
            }
        } else if named {
            Some(NestedPattern::List)
        } else {
            None
        }
    }

    /// The path that a structured item of a named field of this type begins
    /// with. The item of an object has to be a list.
    pub fn get_path_ident<'a>(&self, nested: &'a Meta) -> (r: Result<&'a Path, Diagnostic>)
        ensures
            match r {
                Ok(path) => path@ == nested@.path() && (self@ is Object ==> nested@ is List),
                Err(e) => self@ is Object && !(nested@ is List) && e@ == diagnostic(
                    ErrorKind::MalformedMarker,
                    "Nested value must be List"@,
                ),
            },
    {
        match self {
            Type::Object(_) => match nested {
                Meta::List(list) => Ok(&list.path),
                _ => Err(Diagnostic::new(ErrorKind::MalformedMarker, "Nested value must be List")),
            },
            _ => Ok(nested.path()),
        }
    }

    /// Whether an item has the shape that holds a value of the type.
    pub fn fits(&self, named: bool, item: &NestedMeta) -> (b: bool)
        ensures
            b == fits_type(self@, named, item@),
    {
        match self.get_nested_pattern(named) {
            Some(pattern) => item_fits(pattern, item),
            None => false,
        }
    }

    /// Reads the key and the value that one item of a map holds, the map's
    /// values being of this type.
    fn read_entry_of(&self, registry: &Registry, item: &NestedMeta, label: &str) -> (r: Result<
        (String, Value),
        Diagnostic,
    >)
        ensures
            match r {
                Ok((key, value)) => read_entry(registry@, self@, item@, label@) == Ok::<
                    (Seq<char>, ValueView),
                    DiagnosticView,
                >((key@, value@)),
                Err(e) => read_entry(registry@, self@, item@, label@) == Err::<
                    (Seq<char>, ValueView),
                    DiagnosticView,
                >(e@),
            },
        decreases item, 1nat, 0nat,
    {
        if !self.fits(true, item) {
            return Err(make_shape_error(ErrorKind::InvalidMapEntry));
        }
        match item {
            NestedMeta::Meta(meta) => {
                let path = meta.path();
                if path.segments.len() == 0 {
                    return Err(
                        Diagnostic::new(ErrorKind::InvalidMapEntry, "Unexpected type path segment"),
                    );
                }
                let key: String = path.segments[0].clone();
                let value: Value = self.get_lit_reader_token_stream(registry, item, true, label)?;
                Ok((key, value))
            },
            NestedMeta::Lit(_) => Err(make_shape_error(ErrorKind::InvalidMapEntry)),
        }
    }

    /// Reads the entries of a map from the items of a list, the map's values
    /// being of this type. Of two items with one key the later one stays.
    #[verifier::rlimit(40)]
    fn read_entries_of(&self, registry: &Registry, items: &Vec<NestedMeta>, label: &str) -> (r:
        Result<Vec<(String, Value)>, Diagnostic>)
        ensures
            match r {
                Ok(entries) => read_entries(registry@, self@, nested_view(items@), label@)
                    matches Ok(pairs) && entries_view(entries@) == map_collect(
                    pairs,
                    pairs.len() as int,
                ),
                Err(e) => read_entries(registry@, self@, nested_view(items@), label@) == Err::<
                    Seq<(Seq<char>, ValueView)>,
                    DiagnosticView,
                >(e@),
            },
        decreases items, 0nat, 0nat,
    {
        let ghost views = nested_view(items@);
        let ghost results = Seq::new(
            views.len(),
            |k: int| read_entry(registry@, self@, views[k], label@),
        );
        proof {
            lemma_entry_results(registry@, self@, views, label@);
        }
        let ghost mut pairs: Seq<(Seq<char>, ValueView)> = Seq::empty();
        let mut entries: Vec<(String, Value)> = Vec::new();
        let mut i: usize = 0;
        assert(entries_view(entries@) =~= map_collect(pairs, 0));
        while i < items.len()
            invariant
                i <= items@.len(),
                pairs.len() == i,
                views == nested_view(items@),
                results == Seq::new(
                    views.len(),
                    |k: int| read_entry(registry@, self@, views[k], label@),
                ),
                read_entries(registry@, self@, views, label@) == collect(results),
                forall|k: int|
                    0 <= k < i ==> (#[trigger] results[k]) == Ok::<
                        (Seq<char>, ValueView),
                        DiagnosticView,
                    >(pairs[k]),
                entries_view(entries@) == map_collect(pairs, i as int),
            decreases items@.len() - i,
        {
            match self.read_entry_of(registry, &items[i], label) {
                Ok((key, value)) => {
                    proof {
                        let longer = pairs.push((key@, value@));
                        lemma_map_collect_prefix(pairs, longer, i as int);
                        pairs = longer;
                    }
                    insert_entry(&mut entries, key, value);
                },
                Err(e) => {
                    proof {
                        lemma_collect_err(results, i as int);
                    }
                    return Err(e);
                },
            }
            i = i + 1;
        }
        proof {
            lemma_collect_ok(results, pairs);
        }
        Ok(entries)
    }

    /// Reads the value that an item of the token stream holds for a field of
    /// this type. `named` says whether the field is a named one, and `path` is
    /// the name under which messages speak of the field.
    #[verifier::rlimit(40)]
    pub fn get_lit_reader_token_stream(
        &self,
        registry: &Registry,
        nested: &NestedMeta,
        named: bool,
        path: &str,
    ) -> (r: Result<Value, Diagnostic>)
        ensures
            result_view(r) == read_value(registry@, self@, nested@, named, path@),
        decreases nested, 0nat, 0nat,
    {
        match nested {
            NestedMeta::Lit(lit) => if !named && self.is_scalar() {
                read_scalar_of(self, registry, lit, path)
            } else {
                Err(make_shape_error(ErrorKind::UnexpectedArgument))
            },
            NestedMeta::Meta(Meta::NameValue(name_value)) => if named && self.is_scalar() {
                read_scalar_of(self, registry, &name_value.lit, path)
            } else {
                Err(make_shape_error(ErrorKind::UnexpectedArgument))
            },
            NestedMeta::Meta(Meta::List(list)) => {
                proof {
                    lemma_meta_list_view(*list);
                }
                if !named {
                    return Err(make_shape_error(ErrorKind::UnexpectedArgument));
                }
                match self {
                    Type::List(elem) => {
                        let values: Vec<Value> = read_list_of(elem, registry, &list.nested, path)?;
                        proof {
                            lemma_list_view(values);
                        }
                        Ok(Value::List(values))
                    },
                    Type::Mapping(val) => {
                        let entries: Vec<(String, Value)> = val.read_entries_of(
                            registry,
                            &list.nested,
                            path,
                        )?;
                        proof {
                            lemma_map_view(entries);
                        }
                        Ok(Value::Mapping(entries))
                    },
                    Type::Object(name) => match registry.find_annotation(name.as_str()) {
                        None => Err(make_unresolved(name.as_str())),
                        Some(annotation) => match &annotation.fields {
                            Fields::Unit => {
                                let record = Record { fields: Vec::new() };
                                proof {
                                    lemma_record_view(record);
                                    assert(record@.fields =~= Seq::empty());
                                }
                                Ok(Value::Object(record))
                            },
                            _ => {
                                let record: Record =
                                    annotation.fields.parse_attributes_args_token_stream(
                                    registry,
                                    &list.nested,
                                )?;
                                proof {
                                    lemma_record_view(record);
                                }
                                Ok(Value::Object(record))
                            },
                        },
                    },
                    _ => Err(make_shape_error(ErrorKind::UnexpectedArgument)),
                }
            },
            NestedMeta::Meta(Meta::Path(_)) => Err(make_shape_error(ErrorKind::UnexpectedArgument)),
        }
    }
}

/// Reads the value that a default's text is for a field of type `ty`.
fn read_default_of(ty: &Type, registry: &Registry, default: &DefaultValue) -> (r: Result<
    Value,
    Diagnostic,
>)
    ensures
        result_view(r) == read_default(registry@, ty@, default@),
{
    let text: String = default.to_string();
    match ty {
        Type::String => Ok(Value::String(text)),
        Type::Bool => if str_eq(text.as_str(), "true") {
            Ok(Value::Bool(true))
        } else if str_eq(text.as_str(), "false") {
            Ok(Value::Bool(false))
        } else {
            Err(make_literal_error("default", "a bool"))
        },
        Type::Integer(width) => match decode_integer(text.as_str(), *width) {
            Some(v) => Ok(Value::Integer(v)),
            None => Err(make_literal_error("default", "a integer in range")),
        },
        Type::Float(_) => if is_float_text(text.as_str()) {
            Ok(Value::Float(text))
        } else {
            Err(make_literal_error("default", "a float"))
        },
        Type::Enum(name) => read_variant_of(registry, name.as_str(), text.as_str()),
        _ => Err(
            Diagnostic::new(
                ErrorKind::UnsupportedDefault,
                "Only support default value on String / Bool / Integer / Float / Enum",
            ),
        ),
    }
}

/// Reads what a field holds before any argument is read.
fn read_initial(field_type: &FieldType, default: &Option<DefaultValue>, registry: &Registry) -> (r:
    Result<Option<Value>, Diagnostic>)
    ensures
        match r {
            Ok(slot) => initial_of(registry@, field_type@, default_view(*default))
                == Ok::<Option<ValueView>, DiagnosticView>(slot_view(slot)),
            Err(e) => initial_of(registry@, field_type@, default_view(*default))
                == Err::<Option<ValueView>, DiagnosticView>(e@),
        },
{
    match default {
        None => Ok(None),
        Some(d) => Ok(Some(read_default_of(field_type.unwrap(), registry, d)?)),
    }
}

/// Builds the diagnostic for a required field without a value.
fn make_missing(name: &str) -> (d: Diagnostic)
    ensures
        d@ == missing_required_field(name@),
{
    let message: String = String::from_str("Not found value on required field ").concat(name);
    Diagnostic { kind: ErrorKind::MissingRequiredField, message, position: None }
}

impl NamedField {
    /// The text of the type of the field's value.
    pub fn field_nested_type(&self) -> (s: String)
        ensures
            s@ == type_text(self@.field_type.unwrap()),
    {
        self.field_type.unwrap().get_type_token_stream()
    }

    /// What the field holds before any argument is read: its default, coerced
    /// to its type, or nothing.
    pub fn get_temp_var_token_stream(&self, registry: &Registry) -> (r: Result<
        Option<Value>,
        Diagnostic,
    >)
        ensures
            match r {
                Ok(slot) => initial_of(registry@, self@.field_type, self@.default) == Ok::<
                    Option<ValueView>,
                    DiagnosticView,
                >(slot_view(slot)),
                Err(e) => initial_of(registry@, self@.field_type, self@.default) == Err::<
                    Option<ValueView>,
                    DiagnosticView,
                >(e@),
            },
    {
        read_initial(&self.field_type, &self.default, registry)
    }

    /// Whether the field takes an item of the token stream.
    pub fn get_parse_token_stream(&self, nested: &NestedMeta) -> (b: bool)
        ensures
            b == self@.takes(nested@),
    {
        self.field_type.unwrap().fits(true, nested) && item_begins_with(nested, self.path.as_str())
    }

    /// Checks what the field holds at the end: a required field has to hold a
    /// value.
    pub fn get_construct_token_stream(&self, slot: &Option<Value>) -> (r: Result<(), Diagnostic>)
        ensures
            match r {
                Ok(_) => !(self@.field_type.is_required() && slot is None),
                Err(e) => self@.field_type.is_required() && slot is None && e@
                    == missing_required_field(self@.name),
            },
    {
        if self.field_type.is_required() && slot.is_none() {
            Err(make_missing(self.name.as_str()))
        } else {
            Ok(())
        }
    }
}

impl UnnamedFiled {
    /// The text of the type of the field's value.
    pub fn field_nested_type(&self) -> (s: String)
        ensures
            s@ == type_text(self@.field_type.unwrap()),
    {
        self.field_type.unwrap().get_type_token_stream()
    }

    /// What the field holds before any argument is read: its default, coerced
    /// to its type, or nothing.
    pub fn get_temp_var_token_stream(&self, registry: &Registry) -> (r: Result<
        Option<Value>,
        Diagnostic,
    >)
        ensures
            match r {
                Ok(slot) => initial_of(registry@, self@.field_type, self@.default) == Ok::<
                    Option<ValueView>,
                    DiagnosticView,
                >(slot_view(slot)),
                Err(e) => initial_of(registry@, self@.field_type, self@.default) == Err::<
                    Option<ValueView>,
                    DiagnosticView,
                >(e@),
            },
    {
        read_initial(&self.field_type, &self.default, registry)
    }

    /// Whether the field takes the item that stands at `position` of the token
    /// stream.
    pub fn get_parse_token_stream(&self, nested: &NestedMeta, position: usize) -> (b: bool)
        ensures
            b == self@.takes(nested@, position as int),
    {
        self.field_type.unwrap().fits(false, nested) && position == self.index
    }

    /// Checks what the field holds at the end: a required field has to hold a
    /// value.
    pub fn get_construct_token_stream(&self, slot: &Option<Value>) -> (r: Result<(), Diagnostic>)
        ensures
            match r {
                Ok(_) => !(self@.field_type.is_required() && slot is None),
                Err(e) => self@.field_type.is_required() && slot is None && e@
                    == missing_required_field(ordinal_label(self@.index)),
            },
    {
        if self.field_type.is_required() && slot.is_none() {
            Err(make_missing(self.get_temp_var_name().as_str()))
        } else {
            Ok(())
        }
    }
}

impl Fields {
    /// The number of fields.
    pub fn len(&self) -> (n: usize)
        ensures
            n == self@.len(),
    {
        match self {
            Fields::NamedFields(fields) => fields.len(),
            Fields::UnnamedField(fields) => fields.len(),
            Fields::Unit => 0,
        }
    }

    /// Whether the fields are named.
    pub fn is_named(&self) -> (b: bool)
        ensures
            b == self@.named(),
    {
        match self {
            Fields::NamedFields(_) => true,
            _ => false,
        }
    }

    /// The type of the field at `j`.
    pub fn field_type(&self, j: usize) -> (t: &FieldType)
        requires
            j < self@.len(),
        ensures
            t@ == self@.field_type(j as int),
    {
        match self {
            Fields::NamedFields(fields) => &fields[j].field_type,
            Fields::UnnamedField(fields) => &fields[j].field_type,
            Fields::Unit => vstd::pervasive::unreached(),
        }
    }

    /// The name under which messages about literals speak of the field at `j`.
    pub fn label(&self, j: usize) -> (s: String)
        requires
            j < self@.len(),
        ensures
            s@ == self@.label(j as int),
    {
        match self {
            Fields::NamedFields(fields) => fields[j].get_temp_var_name(),
            Fields::UnnamedField(fields) => fields[j].get_temp_var_name(),
            Fields::Unit => String::new(),
        }
    }

    /// What the field at `j` holds before any argument is read.
    fn initial(&self, j: usize, registry: &Registry) -> (r: Result<Option<Value>, Diagnostic>)
        requires
            j < self@.len(),
        ensures
            match r {
                Ok(slot) => initial_slot(registry@, self@, j as int) == Ok::<
                    Option<ValueView>,
                    DiagnosticView,
                >(slot_view(slot)),
                Err(e) => initial_slot(registry@, self@, j as int) == Err::<
                    Option<ValueView>,
                    DiagnosticView,
                >(e@),
            },
    {
        match self {
            Fields::NamedFields(fields) => fields[j].get_temp_var_token_stream(registry),
            Fields::UnnamedField(fields) => fields[j].get_temp_var_token_stream(registry),
            Fields::Unit => Ok(None),
        }
    }

    /// Whether the field at `j` takes the item that stands at `position`.
    fn takes(&self, j: usize, nested: &NestedMeta, position: usize) -> (b: bool)
        requires
            j < self@.len(),
        ensures
            b == self@.takes(j as int, nested@, position as int),
    {
        match self {
            Fields::NamedFields(fields) => fields[j].get_parse_token_stream(nested),
            Fields::UnnamedField(fields) => fields[j].get_parse_token_stream(nested, position),
            Fields::Unit => false,
        }
    }

    /// Checks what the field at `j` holds at the end.
    fn check(&self, j: usize, slot: &Option<Value>) -> (r: Result<(), Diagnostic>)
        requires
            j < self@.len(),
        ensures
            match r {
                Ok(_) => !(self@.field_type(j as int).is_required() && slot is None),
                Err(e) => self@.field_type(j as int).is_required() && slot is None && e@
                    == missing_required_field(self@.name(j as int)),
            },
    {
        match self {
            Fields::NamedFields(fields) => fields[j].get_construct_token_stream(slot),
            Fields::UnnamedField(fields) => fields[j].get_construct_token_stream(slot),
            Fields::Unit => Ok(()),
        }
    }

    /// What the fields hold before any argument is read, or the error of the
    /// first default that cannot be coerced.
    fn initial_values(&self, registry: &Registry) -> (r: Result<Vec<Option<Value>>, Diagnostic>)
        ensures
            match r {
                Ok(slots) => initial_slots(registry@, self@) == Ok::<
                    Seq<Option<ValueView>>,
                    DiagnosticView,
                >(slots_view(slots@)),
                Err(e) => initial_slots(registry@, self@) == Err::<
                    Seq<Option<ValueView>>,
                    DiagnosticView,
                >(e@),
            },
    {
        let ghost results = Seq::new(self@.len(), |j: int| initial_slot(registry@, self@, j));
        let n: usize = self.len();
        let mut slots: Vec<Option<Value>> = Vec::new();
        let mut j: usize = 0;
        while j < n
            invariant
                j <= n,
                n == self@.len(),
                slots@.len() == j,
                results == Seq::new(self@.len(), |j: int| initial_slot(registry@, self@, j)),
                forall|k: int|
                    0 <= k < j ==> (#[trigger] results[k]) == Ok::<
                        Option<ValueView>,
                        DiagnosticView,
                    >(slot_view(slots@[k])),
            decreases n - j,
        {
            match self.initial(j, registry) {
                Ok(slot) => {
                    slots.push(slot);
                },
                Err(e) => {
                    proof {
                        lemma_collect_err(results, j as int);
                    }
                    return Err(e);
                },
            }
            j = j + 1;
        }
        proof {
            lemma_collect_ok(results, slots_view(slots@));
        }
        Ok(slots)
    }

    /// The first field in declaration order that takes the item, or the number
    /// of fields where none does.
    fn taker(&self, nested: &NestedMeta, position: usize) -> (j: usize)
        ensures
            j == first_true(self@.takers(nested@, position as int)),
            j <= self@.len(),
    {
        let ghost flags = self@.takers(nested@, position as int);
        let n: usize = self.len();
        let mut j: usize = 0;
        while j < n
            invariant
                j <= n,
                n == self@.len(),
                flags == self@.takers(nested@, position as int),
                forall|k: int| 0 <= k < j ==> !flags[k],
            decreases n - j,
        {
            if self.takes(j, nested, position) {
                proof {
                    lemma_first_true(flags, j as int);
                }
                return j;
            }
            j = j + 1;
        }
        proof {
            lemma_first_true(flags, j as int);
        }
        j
    }

    /// Makes the record of what the fields hold at the end of a scan. Every
    /// required field has to hold a value; the first in declaration order that
    /// holds none decides the error, which names it.
    pub fn construct_token_stream(&self, slots: Vec<Option<Value>>) -> (r: Result<
        Record,
        Diagnostic,
    >)
        requires
            slots@.len() == self@.len(),
        ensures
            result_view(r) == construct(self@, slots_view(slots@)),
    {
        let ghost flags = self@.missing(slots_view(slots@));
        let n: usize = self.len();
        let mut j: usize = 0;
        while j < n
            invariant
                j <= n,
                n == self@.len(),
                slots@.len() == n,
                flags == self@.missing(slots_view(slots@)),
                forall|k: int| 0 <= k < j ==> !flags[k],
            decreases n - j,
        {
            match self.check(j, &slots[j]) {
                Ok(_) => {},
                Err(e) => {
                    proof {
                        assert(slot_view(slots@[j as int]) is None);
                        lemma_first_true(flags, j as int);
                    }
                    return Err(e);
                },
            }
            assert(!flags[j as int]);
            j = j + 1;
        }
        proof {
            lemma_first_true(flags, j as int);
        }
        let record = Record { fields: slots };
        proof {
            lemma_record_view(record);
        }
        Ok(record)
    }

    /// Parses the token stream of a marker's arguments into a record. Every
    /// field starts with its default; the arguments are read in order, each
    /// going to the first field in declaration order that takes it; an argument
    /// that no field takes, or whose value cannot be read, ends the parse with
    /// its error; at the end every required field has to hold a value.
    #[verifier::rlimit(40)]
    pub fn parse_attributes_args_token_stream(
        &self,
        registry: &Registry,
        args: &Vec<NestedMeta>,
    ) -> (r: Result<Record, Diagnostic>)
        ensures
            result_view(r) == parse_args(registry@, self@, nested_view(args@)),
        decreases args, 1nat, 0nat,
    {
        let ghost views = nested_view(args@);
        let mut slots: Vec<Option<Value>> = self.initial_values(registry)?;
        let ghost initial = slots_view(slots@);
        proof {
            lemma_collect(
                Seq::new(self@.len(), |j: int| initial_slot(registry@, self@, j)),
            );
        }
        let mut i: usize = 0;
        while i < args.len()
            invariant
                i <= args@.len(),
                views == nested_view(args@),
                slots@.len() == self@.len(),
                initial_slots(registry@, self@) == Ok::<Seq<Option<ValueView>>, DiagnosticView>(
                    initial,
                ),
                scan(registry@, self@, views, 0, initial) == scan(
                    registry@,
                    self@,
                    views,
                    i as int,
                    slots_view(slots@),
                ),
            decreases args@.len() - i,
        {
            let nested: &NestedMeta = &args[i];
            assert(views[i as int] == nested@);
            let j: usize = self.taker(nested, i);
            if j >= self.len() {
                return Err(
                    Diagnostic::at(
                        ErrorKind::UnexpectedArgument,
                        "Unexpected nested value in list",
                        i,
                    ),
                );
            }
            let label: String = self.label(j);
            let ghost before = slots_view(slots@);
            let value: Value = self.field_type(j).unwrap().get_lit_reader_token_stream(
                registry,
                nested,
                self.is_named(),
                label.as_str(),
            )?;
            slots.set(j, Some(value));
            assert(slots_view(slots@) =~= before.update(j as int, Some(value@)));
            i = i + 1;
        }
        self.construct_token_stream(slots)
    }

    /// Parses a structured item into a record: the item has to be a list, whose
    /// items are the arguments. Where there are no fields, any item gives the
    /// record without values.
    pub fn parse_meta_token_stream(&self, registry: &Registry, input: &Meta) -> (r: Result<
        Record,
        Diagnostic,
    >)
        ensures
            result_view(r) == parse_fields_meta(registry@, self@, input@),
    {
        match self {
            Fields::Unit => {
                let record = Record { fields: Vec::new() };
                proof {
                    lemma_record_view(record);
                    assert(record@.fields =~= Seq::empty());
                }
                Ok(record)
            },
            _ => match input {
                Meta::List(list) => {
                    proof {
                        lemma_meta_list_view(*list);
                    }
                    self.parse_attributes_args_token_stream(registry, &list.nested)
                },
                _ => Err(
                    Diagnostic::new(
                        ErrorKind::MalformedMarker,
                        "Argument of attribute must be a List",
                    ),
                ),
            },
        }
    }
}

impl Annotation {
    /// Parses a marker's structured form into the annotation's record.
    pub fn from_meta(&self, registry: &Registry, input: &Meta) -> (r: Result<Record, Diagnostic>)
        ensures
            result_view(r) == parse_meta(registry@, self@, input@),
    {
        self.fields.parse_meta_token_stream(registry, input)
    }

    /// Parses a list of arguments into the annotation's record.
    pub fn from_attribute_args(&self, registry: &Registry, input: &Vec<NestedMeta>) -> (r: Result<
        Record,
        Diagnostic,
    >)
        ensures
            result_view(r) == parse_args(registry@, self@.fields, nested_view(input@)),
    {
        self.fields.parse_attributes_args_token_stream(registry, input)
    }
}

} // verus!
