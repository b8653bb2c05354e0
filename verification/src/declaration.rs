//! The syntax of a declaration: its name, its markers, its fields or variants,
//! and the type expressions of its fields.

use crate::syntax::{markers_view, Marker, MarkerView};
use vstd::prelude::*;

verus! {

/// A type expression.
#[derive(Debug, PartialEq)]
pub enum SynType {
    /// A path, with or without generic arguments: `u8`, `Vec<String>`.
    Path(TypePath),
    /// Any other type expression: a reference, a tuple, an array.
    Other,
}

/// A type expression that is a path.
#[derive(Debug, PartialEq)]
pub struct TypePath {
    pub segments: Vec<PathSegment>,
}

/// One segment of a type path.
#[derive(Debug, PartialEq)]
pub struct PathSegment {
    pub ident: String,
    pub arguments: PathArguments,
}

/// What follows a segment's name.
#[derive(Debug, PartialEq)]
pub enum PathArguments {
    NoArguments,
    /// `<A, B>`.
    AngleBracketed(Vec<GenericArgument>),
    /// `(A, B) -> C`.
    Parenthesized,
}

/// One generic argument.
#[derive(Debug, PartialEq)]
pub enum GenericArgument {
    Type(SynType),
    /// A lifetime, a constant, a binding or a constraint.
    Other,
}

/// One field of a struct.
#[derive(Debug, PartialEq)]
pub struct SynField {
    pub attrs: Vec<Marker>,
    pub ident: Option<String>,
    pub ty: SynType,
}

/// The fields of a struct.
#[derive(Debug, PartialEq)]
pub enum SynFields {
    Named(Vec<SynField>),
    Unnamed(Vec<SynField>),
    Unit,
}

/// One variant of an enum.
#[derive(Debug, PartialEq)]
pub struct Variant {
    pub attrs: Vec<Marker>,
    pub ident: String,
}

/// The body of a declaration.
#[derive(Debug, PartialEq)]
pub enum Data {
    Struct(SynFields),
    Enum(Vec<Variant>),
    Union(Vec<SynField>),
}

/// A declaration.
#[derive(Debug, PartialEq)]
pub struct DeriveInput {
    pub attrs: Vec<Marker>,
    pub ident: String,
    pub data: Data,
}

/// The mathematical model of a [`SynType`].
pub enum SynTypeView {
    Path(TypePathView),
    Other,
}

/// The mathematical model of a [`TypePath`].
pub struct TypePathView {
    pub segments: Seq<PathSegmentView>,
}

/// The mathematical model of a [`PathSegment`].
pub struct PathSegmentView {
    pub ident: Seq<char>,
    pub arguments: PathArgumentsView,
}

/// The mathematical model of a [`PathArguments`].
pub enum PathArgumentsView {
    NoArguments,
    AngleBracketed(Seq<GenericArgumentView>),
    Parenthesized,
}

/// The mathematical model of a [`GenericArgument`].
pub enum GenericArgumentView {
    Type(SynTypeView),
    Other,
}

/// The model of a type expression.
pub open spec fn syn_type_view(ty: SynType) -> SynTypeView
    decreases ty,
{
    match ty {
        SynType::Path(type_path) => SynTypeView::Path(type_path_view(type_path)),
        SynType::Other => SynTypeView::Other,
    }
}

/// The model of a type path.
pub open spec fn type_path_view(type_path: TypePath) -> TypePathView
    decreases type_path,
{
    TypePathView {
        segments: Seq::new(
            type_path.segments@.len(),
            |i: int|
                if 0 <= i < type_path.segments@.len() {
                    path_segment_view(type_path.segments@[i])
                } else {
                    arbitrary()
                },
        ),
    }
}

/// The model of a segment.
pub open spec fn path_segment_view(segment: PathSegment) -> PathSegmentView
    decreases segment,
{
    PathSegmentView {
        ident: segment.ident@,
        arguments: match segment.arguments {
            PathArguments::NoArguments => PathArgumentsView::NoArguments,
            PathArguments::AngleBracketed(args) => PathArgumentsView::AngleBracketed(
                Seq::new(
                    args@.len(),
                    |i: int|
                        if 0 <= i < args@.len() {
                            generic_argument_view(args@[i])
                        } else {
                            arbitrary()
                        },
                ),
            ),
            PathArguments::Parenthesized => PathArgumentsView::Parenthesized,
        },
    }
}

/// The model of a generic argument.
pub open spec fn generic_argument_view(argument: GenericArgument) -> GenericArgumentView
    decreases argument,
{
    match argument {
        GenericArgument::Type(ty) => GenericArgumentView::Type(syn_type_view(ty)),
        GenericArgument::Other => GenericArgumentView::Other,
    }
}

impl View for SynType {
    type V = SynTypeView;

    open spec fn view(&self) -> SynTypeView {
        syn_type_view(*self)
    }
}

impl View for TypePath {
    type V = TypePathView;

    open spec fn view(&self) -> TypePathView {
        type_path_view(*self)
    }
}

impl View for PathSegment {
    type V = PathSegmentView;

    open spec fn view(&self) -> PathSegmentView {
        path_segment_view(*self)
    }
}

impl View for GenericArgument {
    type V = GenericArgumentView;

    open spec fn view(&self) -> GenericArgumentView {
        generic_argument_view(*self)
    }
}

/// The models of a list of generic arguments.
pub open spec fn arguments_view(arguments: Seq<GenericArgument>) -> Seq<GenericArgumentView> {
    Seq::new(arguments.len(), |i: int| arguments[i]@)
}

/// A type path's model holds the models of its segments.
pub proof fn lemma_type_path_view(type_path: TypePath)
    ensures
        type_path@.segments.len() == type_path.segments@.len(),
        forall|i: int|
            0 <= i < type_path.segments@.len() ==> (#[trigger] type_path@.segments[i])
                == type_path.segments@[i]@,
        SynType::Path(type_path)@ == SynTypeView::Path(type_path@),
{
}

/// A segment's model holds the models of its generic arguments.
pub proof fn lemma_path_segment_view(segment: PathSegment)
    ensures
        segment@.ident == segment.ident@,
        match segment.arguments {
            PathArguments::NoArguments => segment@.arguments is NoArguments,
            PathArguments::AngleBracketed(args) => segment@.arguments
                == PathArgumentsView::AngleBracketed(arguments_view(args@)),
            PathArguments::Parenthesized => segment@.arguments is Parenthesized,
        },
{
    match segment.arguments {
        PathArguments::AngleBracketed(args) => {
            assert(segment@.arguments->AngleBracketed_0 =~= arguments_view(args@));
        },
        _ => {},
    }
}

/// The mathematical model of a [`SynField`].
pub struct SynFieldView {
    pub attrs: Seq<MarkerView>,
    pub ident: Option<Seq<char>>,
    pub ty: SynTypeView,
}

impl View for SynField {
    type V = SynFieldView;

    open spec fn view(&self) -> SynFieldView {
        SynFieldView {
            attrs: markers_view(self.attrs@),
            ident: match self.ident {
                Some(ident) => Some(ident@),
                None => None,
            },
            ty: self.ty@,
        }
    }
}

/// The models of a list of fields.
pub open spec fn fields_view(fields: Seq<SynField>) -> Seq<SynFieldView> {
    Seq::new(fields.len(), |i: int| fields[i]@)
}

/// The mathematical model of a [`SynFields`].
pub enum SynFieldsView {
    Named(Seq<SynFieldView>),
    Unnamed(Seq<SynFieldView>),
    Unit,
}

impl View for SynFields {
    type V = SynFieldsView;

    open spec fn view(&self) -> SynFieldsView {
        match self {
            SynFields::Named(fields) => SynFieldsView::Named(fields_view(fields@)),
            SynFields::Unnamed(fields) => SynFieldsView::Unnamed(fields_view(fields@)),
            SynFields::Unit => SynFieldsView::Unit,
        }
    }
}

/// The mathematical model of a [`Variant`].
pub struct VariantView {
    pub attrs: Seq<MarkerView>,
    pub ident: Seq<char>,
}

impl View for Variant {
    type V = VariantView;

    open spec fn view(&self) -> VariantView {
        VariantView { attrs: markers_view(self.attrs@), ident: self.ident@ }
    }
}

/// The models of a list of variants.
pub open spec fn variants_view(variants: Seq<Variant>) -> Seq<VariantView> {
    Seq::new(variants.len(), |i: int| variants[i]@)
}

/// The mathematical model of a [`Data`].
pub enum DataView {
    Struct(SynFieldsView),
    Enum(Seq<VariantView>),
    Union(Seq<SynFieldView>),
}

impl View for Data {
    type V = DataView;

    open spec fn view(&self) -> DataView {
        match self {
            Data::Struct(fields) => DataView::Struct(fields@),
            Data::Enum(variants) => DataView::Enum(variants_view(variants@)),
            Data::Union(fields) => DataView::Union(fields_view(fields@)),
        }
    }
}

/// The mathematical model of a [`DeriveInput`].
pub struct DeriveInputView {
    pub attrs: Seq<MarkerView>,
    pub ident: Seq<char>,
    pub data: DataView,
}

impl View for DeriveInput {
    type V = DeriveInputView;

    open spec fn view(&self) -> DeriveInputView {
        DeriveInputView { attrs: markers_view(self.attrs@), ident: self.ident@, data: self.data@ }
    }
}

} // verus!
