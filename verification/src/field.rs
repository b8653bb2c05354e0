//! Field schemas: the descriptor of one field, named or positional, and the
//! field set of a declaration.

use crate::declaration::{fields_view, SynField, SynFields, SynFieldsView, SynFieldView};
use crate::error::{diagnostic, Diagnostic, DiagnosticView, ErrorKind};
use crate::helper::{
    get_lit_as_string, get_lit_bool, get_lit_str, lit_as_string, lit_bool, lit_str, option_text,
    result_view, unparsed_marker,
};
use crate::number::{nat_text, nat_to_decimal};
use crate::search::{collect, lemma_collect_err, lemma_collect_ok};
use crate::symbol::{
    ATTRIBUTE_FIELD, ATTRIBUTE_FIELD_ALIAS, ATTRIBUTE_FIELD_DEFAULT, ATTRIBUTE_FIELD_ENUM_VALUE,
    ATTRIBUTE_FIELD_PATH,
};
use crate::syntax::{
    lemma_meta_list_view, markers_view, Marker, MarkerView, Meta, MetaList, MetaView, NestedMeta,
    NestedMetaView,
};
use crate::ty::{
    default_from_string, field_type_from_ast, DefaultValue, DefaultValueView, FieldType,
    FieldTypeView,
};
use vstd::prelude::*;

verus! {

/// What the markers of a field say of it.
#[derive(Debug, PartialEq)]
pub struct FieldAttribute {
    pub path: Option<String>,
    pub enum_value: Option<bool>,
    pub default: Option<String>,
}

/// The mathematical model of a [`FieldAttribute`].
pub struct FieldAttributeView {
    pub path: Option<Seq<char>>,
    pub enum_value: Option<bool>,
    pub default: Option<Seq<char>>,
}

impl View for FieldAttribute {
    type V = FieldAttributeView;

    open spec fn view(&self) -> FieldAttributeView {
        FieldAttributeView {
            path: option_text(self.path),
            enum_value: self.enum_value,
            default: option_text(self.default),
        }
    }
}

/// What one item of a field marker adds to `attribute`: `alias` or `path` set
/// the external key to a string, `enum_value` the enum flag to a boolean,
/// `default` the default to the text of a literal. Any other item is an error.
pub open spec fn field_attribute_item(
    item: NestedMetaView,
    attribute: FieldAttributeView,
) -> Result<FieldAttributeView, DiagnosticView> {
    match item {
        NestedMetaView::Meta(MetaView::NameValue(name_value)) => if name_value.path.is_ident(
            ATTRIBUTE_FIELD_ALIAS@,
        ) {
            match lit_str(name_value.lit, ATTRIBUTE_FIELD_ALIAS@) {
                Ok(s) => Ok(FieldAttributeView { path: Some(s), ..attribute }),
                Err(e) => Err(e),
            }
        } else if name_value.path.is_ident(ATTRIBUTE_FIELD_PATH@) {
            match lit_str(name_value.lit, ATTRIBUTE_FIELD_PATH@) {
                Ok(s) => Ok(FieldAttributeView { path: Some(s), ..attribute }),
                Err(e) => Err(e),
            }
        } else if name_value.path.is_ident(ATTRIBUTE_FIELD_ENUM_VALUE@) {
            match lit_bool(name_value.lit, ATTRIBUTE_FIELD_ENUM_VALUE@) {
                Ok(b) => Ok(FieldAttributeView { enum_value: Some(b), ..attribute }),
                Err(e) => Err(e),
            }
        } else if name_value.path.is_ident(ATTRIBUTE_FIELD_DEFAULT@) {
            match lit_as_string(name_value.lit, ATTRIBUTE_FIELD_DEFAULT@) {
                Ok(s) => Ok(FieldAttributeView { default: Some(s), ..attribute }),
                Err(e) => Err(e),
            }
        } else {
            Err(diagnostic(ErrorKind::UnknownMarkerKey, "Unexpected nested meta"@))
        },
        _ => Err(diagnostic(ErrorKind::UnknownMarkerKey, "Unexpected nested meta"@)),
    }
}

/// What the items of a field marker from `from` on add to `attribute`.
pub open spec fn field_attribute_items(
    items: Seq<NestedMetaView>,
    from: int,
    attribute: FieldAttributeView,
) -> Result<FieldAttributeView, DiagnosticView>
    decreases items.len() - from,
{
    if from < 0 || from >= items.len() {
        Ok(attribute)
    } else {
        match field_attribute_item(items[from], attribute) {
            Ok(next) => field_attribute_items(items, from + 1, next),
            Err(e) => Err(e),
        }
    }
}

/// What the markers from `from` on add to `attribute`. Only `attribute_field`
/// markers count; each has to be a list.
pub open spec fn field_attribute_from(
    attrs: Seq<MarkerView>,
    from: int,
    attribute: FieldAttributeView,
) -> Result<FieldAttributeView, DiagnosticView>
    decreases attrs.len() - from,
{
    if from < 0 || from >= attrs.len() {
        Ok(attribute)
    } else if attrs[from].path.is_ident(ATTRIBUTE_FIELD@) {
        match attrs[from].meta {
            None => Err(unparsed_marker()),
            Some(MetaView::List(list)) => match field_attribute_items(list.nested, 0, attribute) {
                Ok(next) => field_attribute_from(attrs, from + 1, next),
                Err(e) => Err(e),
            },
            Some(_) => Err(
                diagnostic(
                    ErrorKind::MalformedMarker,
                    "The meta of attribute_field must be a List"@,
                ),
            ),
        }
    } else {
        field_attribute_from(attrs, from + 1, attribute)
    }
}

/// The attribute that says nothing.
pub open spec fn empty_field_attribute() -> FieldAttributeView {
    FieldAttributeView { path: None, enum_value: None, default: None }
}

/// Reads one item of a field marker into `attribute`.
fn get_attribute_item(item: &NestedMeta, attribute: FieldAttribute) -> (r: Result<
    FieldAttribute,
    Diagnostic,
>)
    ensures
        result_view(r) == field_attribute_item(item@, attribute@),
{
    let mut current = attribute;
    match item {
        NestedMeta::Meta(Meta::NameValue(name_value)) => {
            if name_value.path.is_ident(ATTRIBUTE_FIELD_ALIAS) {
                current.path = Some(get_lit_str(&name_value.lit, ATTRIBUTE_FIELD_ALIAS)?);
                Ok(current)
            } else if name_value.path.is_ident(ATTRIBUTE_FIELD_PATH) {
                current.path = Some(get_lit_str(&name_value.lit, ATTRIBUTE_FIELD_PATH)?);
                Ok(current)
            } else if name_value.path.is_ident(ATTRIBUTE_FIELD_ENUM_VALUE) {
                current.enum_value =
                Some(get_lit_bool(&name_value.lit, ATTRIBUTE_FIELD_ENUM_VALUE)?);
                Ok(current)
            } else if name_value.path.is_ident(ATTRIBUTE_FIELD_DEFAULT) {
                current.default =
                Some(get_lit_as_string(&name_value.lit, ATTRIBUTE_FIELD_DEFAULT)?);
                Ok(current)
            } else {
                Err(Diagnostic::new(ErrorKind::UnknownMarkerKey, "Unexpected nested meta"))
            }
        },
        _ => Err(Diagnostic::new(ErrorKind::UnknownMarkerKey, "Unexpected nested meta")),
    }
}

/// Reads the items of a field marker into `attribute`.
fn get_attribute_items(list: &MetaList, attribute: FieldAttribute) -> (r: Result<
    FieldAttribute,
    Diagnostic,
>)
    ensures
        result_view(r) == field_attribute_items(list@.nested, 0, attribute@),
{
    let mut current = attribute;
    let mut i: usize = 0;
    while i < list.nested.len()
        invariant
            i <= list.nested@.len(),
            field_attribute_items(list@.nested, 0, attribute@) == field_attribute_items(
                list@.nested,
                i as int,
                current@,
            ),
        decreases list.nested@.len() - i,
    {
        assert(list@.nested[i as int] == list.nested@[i as int]@);
        current = get_attribute_item(&list.nested[i], current)?;
        i = i + 1;
    }
    Ok(current)
}

/// Reads what the markers of a field say of it: its external key, whether it
/// is an enum read by its string, and its default. Markers other than
/// `attribute_field` are passed over; a key that is none of `alias`, `path`,
/// `enum_value` and `default` is an error.
pub fn get_attribute(attrs: &Vec<Marker>) -> (r: Result<FieldAttribute, Diagnostic>)
    ensures
        result_view(r) == field_attribute_from(markers_view(attrs@), 0, empty_field_attribute()),
{
    let mut attribute = FieldAttribute { path: None, enum_value: None, default: None };
    let mut i: usize = 0;
    while i < attrs.len()
        invariant
            i <= attrs@.len(),
            field_attribute_from(markers_view(attrs@), 0, empty_field_attribute())
                == field_attribute_from(markers_view(attrs@), i as int, attribute@),
        decreases attrs@.len() - i,
    {
        let attr: &Marker = &attrs[i];
        assert(markers_view(attrs@)[i as int] == attr@);
        if attr.path.is_ident(ATTRIBUTE_FIELD) {
            match &attr.meta {
                None => {
                    return Err(
                        Diagnostic::new(ErrorKind::MalformedMarker, "Unable to parse marker"),
                    );
                },
                Some(Meta::List(list)) => {
                    proof {
                        lemma_meta_list_view(*list);
                    }
                    attribute = get_attribute_items(list, attribute)?;
                },
                Some(_) => {
                    return Err(
                        Diagnostic::new(
                            ErrorKind::MalformedMarker,
                            "The meta of attribute_field must be a List",
                        ),
                    );
                },
            }
        }
        i = i + 1;
    }
    Ok(attribute)
}

/// The model of an optional default value.
pub open spec fn default_view(default: Option<DefaultValue>) -> Option<DefaultValueView> {
    match default {
        Some(d) => Some(d@),
        None => None,
    }
}

/// What a declared field gives besides its name: the external key that its
/// markers set, its type, and its default.
pub struct FieldPartsView {
    pub path: Option<Seq<char>>,
    pub field_type: FieldTypeView,
    pub default: Option<DefaultValueView>,
}

/// The parts of a declared field: its markers are read first, then its type is
/// classified, as an enum where the markers say so, then its default is
/// validated against the type.
pub open spec fn field_parts(input: SynFieldView) -> Result<FieldPartsView, DiagnosticView> {
    match field_attribute_from(input.attrs, 0, empty_field_attribute()) {
        Err(e) => Err(e),
        Ok(attribute) => match field_type_from_ast(input.ty, attribute.enum_value == Some(true)) {
            Err(e) => Err(e),
            Ok(field_type) => match attribute.default {
                None => Ok(FieldPartsView { path: attribute.path, field_type, default: None }),
                Some(text) => match default_from_string(text, field_type.unwrap()) {
                    Err(e) => Err(e),
                    Ok(d) => Ok(
                        FieldPartsView { path: attribute.path, field_type, default: Some(d) },
                    ),
                },
            },
        },
    }
}

/// Reads the parts of a declared field.
fn get_field_parts(input: &SynField) -> (r: Result<
    (Option<String>, FieldType, Option<DefaultValue>),
    Diagnostic,
>)
    ensures
        match r {
            Ok((path, field_type, default)) => field_parts(input@) == Ok::<
                FieldPartsView,
                DiagnosticView,
            >(
                FieldPartsView {
                    path: option_text(path),
                    field_type: field_type@,
                    default: default_view(default),
                },
            ),
            Err(e) => field_parts(input@) == Err::<FieldPartsView, DiagnosticView>(e@),
        },
{
    let attribute: FieldAttribute = get_attribute(&input.attrs)?;
    let is_enum: bool = match attribute.enum_value {
        Some(b) => b,
        None => false,
    };
    let field_type: FieldType = FieldType::from_ast(&input.ty, is_enum)?;
    let default: Option<DefaultValue> = match attribute.default {
        Some(text) => Some(DefaultValue::from_string(text, field_type.unwrap())?),
        None => None,
    };
    Ok((attribute.path, field_type, default))
}

/// A named field: its name, the key it is addressed by in marker syntax, its
/// default and its type.
#[derive(Debug, PartialEq)]
pub struct NamedField {
    pub name: String,
    pub path: String,
    pub default: Option<DefaultValue>,
    pub field_type: FieldType,
}

/// The mathematical model of a [`NamedField`].
pub struct NamedFieldView {
    pub name: Seq<char>,
    pub path: Seq<char>,
    pub default: Option<DefaultValueView>,
    pub field_type: FieldTypeView,
}

impl View for NamedField {
    type V = NamedFieldView;

    open spec fn view(&self) -> NamedFieldView {
        NamedFieldView {
            name: self.name@,
            path: self.path@,
            default: default_view(self.default),
            field_type: self.field_type@,
        }
    }
}

/// The descriptor of a declared named field. Its key is its name, unless its
/// markers set another.
pub open spec fn named_field_from_ast(
    input: SynFieldView,
) -> Result<NamedFieldView, DiagnosticView> {
    match field_parts(input) {
        Err(e) => Err(e),
        Ok(parts) => match input.ident {
            None => Err(
                diagnostic(ErrorKind::UnexpectedDeclaration, "Named field must have a name"@),
            ),
            Some(ident) => Ok(
                NamedFieldView {
                    name: ident,
                    path: match parts.path {
                        Some(p) => p,
                        None => ident,
                    },
                    default: parts.default,
                    field_type: parts.field_type,
                },
            ),
        },
    }
}

impl NamedField {
    /// Builds a named field's descriptor from its declaration.
    pub fn from_ast(input: &SynField) -> (r: Result<NamedField, Diagnostic>)
        ensures
            result_view(r) == named_field_from_ast(input@),
    {
        let (path, field_type, default) = get_field_parts(input)?;
        match &input.ident {
            None => Err(
                Diagnostic::new(ErrorKind::UnexpectedDeclaration, "Named field must have a name"),
            ),
            Some(ident) => {
                let path: String = match path {
                    Some(p) => p,
                    None => ident.clone(),
                };
                Ok(NamedField { name: ident.clone(), path, default, field_type })
            },
        }
    }

    /// The name under which messages speak of the field: its key.
    pub fn get_temp_var_name(&self) -> (s: String)
        ensures
            s@ == self@.path,
    {
        self.path.clone()
    }

    /// The field's default, where it has one.
    pub fn get_default(&self) -> (d: &Option<DefaultValue>)
        ensures
            *d == self.default,
    {
        &self.default
    }
}

/// A positional field: its position, its type and its default.
#[derive(Debug, PartialEq)]
pub struct UnnamedFiled {
    pub index: usize,
    pub field_type: FieldType,
    pub default: Option<DefaultValue>,
}

/// The mathematical model of an [`UnnamedFiled`].
pub struct UnnamedFiledView {
    pub index: nat,
    pub field_type: FieldTypeView,
    pub default: Option<DefaultValueView>,
}

impl View for UnnamedFiled {
    type V = UnnamedFiledView;

    open spec fn view(&self) -> UnnamedFiledView {
        UnnamedFiledView {
            index: self.index as nat,
            field_type: self.field_type@,
            default: default_view(self.default),
        }
    }
}

/// The descriptor of the declared positional field at `index`.
pub open spec fn unnamed_field_from_ast(input: SynFieldView, index: nat) -> Result<
    UnnamedFiledView,
    DiagnosticView,
> {
    match field_parts(input) {
        Err(e) => Err(e),
        Ok(parts) => Ok(
            UnnamedFiledView { index, field_type: parts.field_type, default: parts.default },
        ),
    }
}

/// The name under which messages speak of the positional field at `index`:
/// `1st field`, `2nd field`, `3rd field`, and from there on the position's
/// decimal digits before `th field`.
pub open spec fn ordinal_label(index: nat) -> Seq<char> {
    if index == 0 {
        "1st field"@
    } else if index == 1 {
        "2nd field"@
    } else if index == 2 {
        "3rd field"@
    } else {
        nat_text(index + 1) + "th field"@
    }
}

impl UnnamedFiled {
    /// Builds a positional field's descriptor from its declaration.
    pub fn from_ast(input: &SynField, index: usize) -> (r: Result<UnnamedFiled, Diagnostic>)
        ensures
            result_view(r) == unnamed_field_from_ast(input@, index as nat),
    {
        let (_, field_type, default) = get_field_parts(input)?;
        Ok(UnnamedFiled { index, default, field_type })
    }

    /// The name under which messages speak of the field.
    pub fn get_temp_var_name(&self) -> (s: String)
        ensures
            s@ == ordinal_label(self@.index),
    {
        if self.index == 0 {
            String::from_str("1st field")
        } else if self.index == 1 {
            String::from_str("2nd field")
        } else if self.index == 2 {
            String::from_str("3rd field")
        } else {
            nat_to_decimal(self.index as u128 + 1).concat("th field")
        }
    }

    /// The field's default, where it has one.
    pub fn get_default(&self) -> (d: &Option<DefaultValue>)
        ensures
            *d == self.default,
    {
        &self.default
    }
}

/// The field set of a declaration.
#[derive(Debug, PartialEq)]
pub enum Fields {
    NamedFields(Vec<NamedField>),
    UnnamedField(Vec<UnnamedFiled>),
    Unit,
}

/// The mathematical model of a [`Fields`].
pub enum FieldsView {
    NamedFields(Seq<NamedFieldView>),
    UnnamedField(Seq<UnnamedFiledView>),
    Unit,
}

impl View for Fields {
    type V = FieldsView;

    open spec fn view(&self) -> FieldsView {
        match self {
            Fields::NamedFields(fields) => FieldsView::NamedFields(
                Seq::new(fields@.len(), |i: int| fields@[i]@),
            ),
            Fields::UnnamedField(fields) => FieldsView::UnnamedField(
                Seq::new(fields@.len(), |i: int| fields@[i]@),
            ),
            Fields::Unit => FieldsView::Unit,
        }
    }
}

/// The field set that declared fields give: each field's descriptor in
/// declaration order, a positional field's index being its position; the first
/// field that fails decides the error.
pub open spec fn fields_from_ast(fields: SynFieldsView) -> Result<FieldsView, DiagnosticView> {
    match fields {
        SynFieldsView::Named(named) => match collect(
            Seq::new(named.len(), |k: int| named_field_from_ast(named[k])),
        ) {
            Ok(items) => Ok(FieldsView::NamedFields(items)),
            Err(e) => Err(e),
        },
        SynFieldsView::Unnamed(unnamed) => match collect(
            Seq::new(unnamed.len(), |k: int| unnamed_field_from_ast(unnamed[k], k as nat)),
        ) {
            Ok(items) => Ok(FieldsView::UnnamedField(items)),
            Err(e) => Err(e),
        },
        SynFieldsView::Unit => Ok(FieldsView::Unit),
    }
}

impl Fields {
    /// Builds the field set of a declaration from its declared fields.
    pub fn from_ast(fields: &SynFields) -> (r: Result<Fields, Diagnostic>)
        ensures
            result_view(r) == fields_from_ast(fields@),
    {
        match fields {
            SynFields::Named(named) => {
                let ghost views = fields_view(named@);
                let ghost results = Seq::new(views.len(), |k: int| named_field_from_ast(views[k]));
                let mut items: Vec<NamedField> = Vec::new();
                let mut i: usize = 0;
                while i < named.len()
                    invariant
                        i <= named@.len(),
                        items@.len() == i,
                        *fields == SynFields::Named(*named),
                        views == fields_view(named@),
                        results == Seq::new(views.len(), |k: int| named_field_from_ast(views[k])),
                        forall|k: int|
                            0 <= k < i ==> (#[trigger] results[k]) == Ok::<
                                NamedFieldView,
                                DiagnosticView,
                            >(items@[k]@),
                    decreases named@.len() - i,
                {
                    assert(views[i as int] == named@[i as int]@);
                    match NamedField::from_ast(&named[i]) {
                        Ok(item) => {
                            items.push(item);
                        },
                        Err(e) => {
                            proof {
                                lemma_collect_err(results, i as int);
                            }
                            return Err(e);
                        },
                    }
                    i = i + 1;
                }
                let r = Fields::NamedFields(items);
                proof {
                    lemma_collect_ok(results, r@->NamedFields_0);
                }
                Ok(r)
            },
            SynFields::Unnamed(unnamed) => {
                let ghost views = fields_view(unnamed@);
                let ghost results = Seq::new(
                    views.len(),
                    |k: int| unnamed_field_from_ast(views[k], k as nat),
                );
                let mut items: Vec<UnnamedFiled> = Vec::new();
                let mut i: usize = 0;
                while i < unnamed.len()
                    invariant
                        i <= unnamed@.len(),
                        items@.len() == i,
                        *fields == SynFields::Unnamed(*unnamed),
                        views == fields_view(unnamed@),
                        results == Seq::new(
                            views.len(),
                            |k: int| unnamed_field_from_ast(views[k], k as nat),
                        ),
                        forall|k: int|
                            0 <= k < i ==> (#[trigger] results[k]) == Ok::<
                                UnnamedFiledView,
                                DiagnosticView,
                            >(items@[k]@),
                    decreases unnamed@.len() - i,
                {
                    assert(views[i as int] == unnamed@[i as int]@);
                    match UnnamedFiled::from_ast(&unnamed[i], i) {
                        Ok(item) => {
                            items.push(item);
                        },
                        Err(e) => {
                            proof {
                                lemma_collect_err(results, i as int);
                            }
                            return Err(e);
                        },
                    }
                    i = i + 1;
                }
                let r = Fields::UnnamedField(items);
                proof {
                    lemma_collect_ok(results, r@->UnnamedField_0);
                }
                Ok(r)
            },
            SynFields::Unit => Ok(Fields::Unit),
        }
    }
}

} // verus!
