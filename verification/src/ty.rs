//! The type model: the closed classification of field types, its construction
//! from a declared type expression, and default values.

use crate::declaration::{
    lemma_type_path_view, GenericArgument, GenericArgumentView, PathArguments, PathArgumentsView,
    PathSegment, PathSegmentView, SynType, SynTypeView, TypePath, TypePathView,
};
use crate::error::{diagnostic, Diagnostic, DiagnosticView, ErrorKind};
use crate::helper::{
    decode_integer, get_nested_type, get_nested_types, has_nested_type, has_nested_types,
    integer_of_text, literal_error, make_literal_error, result_view, type_error, unwrap_type_path,
};
use crate::number::{float_text, is_float_text, FloatWidth, IntegerWidth};
use crate::syntax::str_eq;
use vstd::prelude::*;

verus! {

/// The type of a field's value.
#[derive(Debug, PartialEq)]
pub enum Type {
    String,
    Bool,
    Integer(IntegerWidth),
    Float(FloatWidth),
    /// A nested declaration, by its name.
    Object(String),
    /// An enum read by its string, by its name.
    Enum(String),
    /// A list of values of one type.
    List(Box<Type>),
    /// A map from strings to values of one type.
    Mapping(Box<Type>),
}

/// The mathematical model of a [`Type`].
pub enum TypeView {
    String,
    Bool,
    Integer(IntegerWidth),
    Float(FloatWidth),
    Object(Seq<char>),
    Enum(Seq<char>),
    List(Box<TypeView>),
    Mapping(Box<TypeView>),
}

/// The model of a type.
pub open spec fn type_view(ty: Type) -> TypeView
    decreases ty,
{
    match ty {
        Type::String => TypeView::String,
        Type::Bool => TypeView::Bool,
        Type::Integer(w) => TypeView::Integer(w),
        Type::Float(w) => TypeView::Float(w),
        Type::Object(name) => TypeView::Object(name@),
        Type::Enum(name) => TypeView::Enum(name@),
        Type::List(inner) => TypeView::List(Box::new(type_view(*inner))),
        Type::Mapping(inner) => TypeView::Mapping(Box::new(type_view(*inner))),
    }
}

impl View for Type {
    type V = TypeView;

    open spec fn view(&self) -> TypeView {
        type_view(*self)
    }
}

impl TypeView {
    /// Whether a bare literal can hold a value of the type: a string, a
    /// boolean, a number or an enum.
    pub open spec fn is_scalar(self) -> bool {
        !(self is Object || self is List || self is Mapping)
    }

    /// Whether the type can be read from marker syntax: the elements of every
    /// list in it are scalars.
    pub open spec fn well_formed(self) -> bool
        decreases self,
    {
        match self {
            TypeView::List(elem) => elem.is_scalar(),
            TypeView::Mapping(val) => val.well_formed(),
            _ => true,
        }
    }
}

/// The type that a type path declares is well formed.
pub proof fn lemma_type_from_ast_well_formed(type_path: TypePathView, is_enum: bool)
    ensures
        type_from_ast(type_path, is_enum) matches Ok(ty) ==> ty.well_formed(),
    decreases type_path,
{
    if type_path.segments.len() > 0 {
        let segment = type_path.segments[0];
        if segment.ident == "HashMap"@ && nested_type_paths_error(segment) is None {
            match segment.arguments {
                PathArgumentsView::AngleBracketed(args) => {
                    if args.len() == 2 {
                        match (args[0], args[1]) {
                            (
                                GenericArgumentView::Type(SynTypeView::Path(key)),
                                GenericArgumentView::Type(SynTypeView::Path(inner)),
                            ) => {
                                lemma_type_from_ast_well_formed(inner, is_enum);
                            },
                            _ => {},
                        }
                    }
                },
                _ => {},
            }
        }
    }
}

/// Whether `c` is an uppercase character.
pub uninterp spec fn is_uppercase(c: char) -> bool;

/// `char::is_uppercase` of the standard library: whether the character has the
/// Unicode property `Uppercase`. The result is named, not stated.
#[verifier::external_body]
fn char_is_uppercase(c: char) -> (b: bool)
    ensures
        b == is_uppercase(c),
{
    c.is_uppercase()
}

/// The integer width that a type token names.
pub open spec fn integer_width_of(token: Seq<char>) -> Option<IntegerWidth> {
    if token == "u8"@ {
        Some(IntegerWidth::U8)
    } else if token == "u16"@ {
        Some(IntegerWidth::U16)
    } else if token == "u32"@ {
        Some(IntegerWidth::U32)
    } else if token == "u64"@ {
        Some(IntegerWidth::U64)
    } else if token == "u128"@ {
        Some(IntegerWidth::U128)
    } else if token == "i8"@ {
        Some(IntegerWidth::I8)
    } else if token == "i16"@ {
        Some(IntegerWidth::I16)
    } else if token == "i32"@ {
        Some(IntegerWidth::I32)
    } else if token == "i64"@ {
        Some(IntegerWidth::I64)
    } else if token == "i128"@ {
        Some(IntegerWidth::I128)
    } else {
        None
    }
}

/// The float width that a type token names.
pub open spec fn float_width_of(token: Seq<char>) -> Option<FloatWidth> {
    if token == "f32"@ {
        Some(FloatWidth::F32)
    } else if token == "f64"@ {
        Some(FloatWidth::F64)
    } else {
        None
    }
}

/// Reads a type token as an integer width.
pub fn integer_width_from_token(token: &str) -> (r: Option<IntegerWidth>)
    ensures
        r == integer_width_of(token@),
{
    if str_eq(token, "u8") {
        Some(IntegerWidth::U8)
    } else if str_eq(token, "u16") {
        Some(IntegerWidth::U16)
    } else if str_eq(token, "u32") {
        Some(IntegerWidth::U32)
    } else if str_eq(token, "u64") {
        Some(IntegerWidth::U64)
    } else if str_eq(token, "u128") {
        Some(IntegerWidth::U128)
    } else if str_eq(token, "i8") {
        Some(IntegerWidth::I8)
    } else if str_eq(token, "i16") {
        Some(IntegerWidth::I16)
    } else if str_eq(token, "i32") {
        Some(IntegerWidth::I32)
    } else if str_eq(token, "i64") {
        Some(IntegerWidth::I64)
    } else if str_eq(token, "i128") {
        Some(IntegerWidth::I128)
    } else {
        None
    }
}

/// Reads a type token as a float width.
pub fn float_width_from_token(token: &str) -> (r: Option<FloatWidth>)
    ensures
        r == float_width_of(token@),
{
    if str_eq(token, "f32") {
        Some(FloatWidth::F32)
    } else if str_eq(token, "f64") {
        Some(FloatWidth::F64)
    } else {
        None
    }
}

/// The token of an integer width.
pub open spec fn integer_width_token(width: IntegerWidth) -> Seq<char> {
    match width {
        IntegerWidth::U8 => "u8"@,
        IntegerWidth::U16 => "u16"@,
        IntegerWidth::U32 => "u32"@,
        IntegerWidth::U64 => "u64"@,
        IntegerWidth::U128 => "u128"@,
        IntegerWidth::I8 => "i8"@,
        IntegerWidth::I16 => "i16"@,
        IntegerWidth::I32 => "i32"@,
        IntegerWidth::I64 => "i64"@,
        IntegerWidth::I128 => "i128"@,
    }
}

/// The token of a float width.
pub open spec fn float_width_token(width: FloatWidth) -> Seq<char> {
    match width {
        FloatWidth::F32 => "f32"@,
        FloatWidth::F64 => "f64"@,
    }
}

/// Whether a generic argument is a type that is a path.
pub open spec fn is_type_path(argument: GenericArgumentView) -> bool {
    argument matches GenericArgumentView::Type(t) && t is Path
}

/// Whether every generic argument of the segment is a type that is a path.
pub open spec fn has_nested_type_paths(segment: PathSegmentView) -> bool {
    segment.arguments matches PathArgumentsView::AngleBracketed(args) && forall|i: int|
        0 <= i < args.len() ==> is_type_path(#[trigger] args[i])
}

/// The diagnostic for the generic arguments of `Vec` or `HashMap`, where they
/// are not all types that are paths.
pub open spec fn nested_type_paths_error(segment: PathSegmentView) -> Option<DiagnosticView> {
    if !has_nested_types(segment) {
        Some(type_error("Unexpect Arguments"@))
    } else if !has_nested_type_paths(segment) {
        Some(type_error("Argument of HashMap or Vec must be type path"@))
    } else {
        None
    }
}

/// The type that a type path declares, `is_enum` saying whether a name that is
/// none of the built-in ones is an enum or an object. The head segment's name
/// decides: the built-in scalars by their tokens; `Vec` a list of its first
/// argument's type, which has to be a scalar; `HashMap` a map, whose two
/// arguments are the key, which has to be `String`, and the value's type; any
/// other name that begins with an uppercase letter an enum or an object.
pub open spec fn type_from_ast(type_path: TypePathView, is_enum: bool) -> Result<
    TypeView,
    DiagnosticView,
>
    decreases type_path,
{
    if type_path.segments.len() == 0 {
        Err(type_error("Unexpected type path segment"@))
    } else {
        let segment = type_path.segments[0];
        let token = segment.ident;
        if token == "String"@ {
            Ok(TypeView::String)
        } else if token == "bool"@ {
            Ok(TypeView::Bool)
        } else if integer_width_of(token) is Some {
            Ok(TypeView::Integer(integer_width_of(token)->Some_0))
        } else if float_width_of(token) is Some {
            Ok(TypeView::Float(float_width_of(token)->Some_0))
        } else if token == "Vec"@ {
            match nested_type_paths_error(segment) {
                Some(e) => Err(e),
                None => match segment.arguments {
                    PathArgumentsView::AngleBracketed(args) => if args.len() == 0 {
                        Err(type_error("Vec need at least one argument"@))
                    } else {
                        match args[0] {
                            GenericArgumentView::Type(
                                SynTypeView::Path(inner),
                            ) => match type_from_ast(inner, is_enum) {
                                Ok(nested) => if nested.is_scalar() {
                                    Ok(TypeView::List(Box::new(nested)))
                                } else {
                                    Err(
                                        diagnostic(
                                            ErrorKind::UnsupportedNestedType,
                                            "Vec can not nest Object, Map or List"@,
                                        ),
                                    )
                                },
                                Err(e) => Err(e),
                            },
                            _ => Err(type_error("Unexpect Arguments"@)),
                        }
                    },
                    _ => Err(type_error("Unexpect Arguments"@)),
                },
            }
        } else if token == "HashMap"@ {
            match nested_type_paths_error(segment) {
                Some(e) => Err(e),
                None => match segment.arguments {
                    PathArgumentsView::AngleBracketed(args) => if args.len() != 2 {
                        Err(type_error("HashMap need two argument"@))
                    } else {
                        match (args[0], args[1]) {
                            (
                                GenericArgumentView::Type(SynTypeView::Path(key)),
                                GenericArgumentView::Type(SynTypeView::Path(inner)),
                            ) => if key.segments.len() == 0 {
                                Err(type_error("HashMap need at least two key"@))
                            } else if key.segments[0].ident != "String"@ {
                                Err(
                                    diagnostic(
                                        ErrorKind::InvalidMapKeyType,
                                        "Key of HashMap must be String type"@,
                                    ),
                                )
                            } else {
                                match type_from_ast(inner, is_enum) {
                                    Ok(nested) => Ok(TypeView::Mapping(Box::new(nested))),
                                    Err(e) => Err(e),
                                }
                            },
                            _ => Err(type_error("Unexpect Arguments"@)),
                        }
                    },
                    _ => Err(type_error("Unexpect Arguments"@)),
                },
            }
        } else if token.len() > 0 && is_uppercase(token[0]) {
            if is_enum {
                Ok(TypeView::Enum(token))
            } else {
                Ok(TypeView::Object(token))
            }
        } else {
            Err(type_error("Unexpected type token"@))
        }
    }
}

/// The text of a type as it is declared: a scalar's token, an object's or an
/// enum's name, `Vec<..>` around a list's element type, and
/// `std::collections::HashMap<String, ..>` around a map's value type.
pub open spec fn type_text(ty: TypeView) -> Seq<char>
    decreases ty,
{
    match ty {
        TypeView::String => "String"@,
        TypeView::Bool => "bool"@,
        TypeView::Integer(width) => integer_width_token(width),
        TypeView::Float(width) => float_width_token(width),
        TypeView::Object(name) => name,
        TypeView::Enum(name) => name,
        TypeView::List(inner) => "Vec<"@ + type_text(*inner) + ">"@,
        TypeView::Mapping(inner) => "std::collections::HashMap<String, "@ + type_text(*inner)
            + ">"@,
    }
}

/// The name of a type as messages give it: as it is declared, but for a map,
/// which is `Map<&str, ..>` around its value type.
pub open spec fn type_label(ty: TypeView) -> Seq<char>
    decreases ty,
{
    match ty {
        TypeView::String => "String"@,
        TypeView::Bool => "bool"@,
        TypeView::Integer(width) => integer_width_token(width),
        TypeView::Float(width) => float_width_token(width),
        TypeView::Object(name) => name,
        TypeView::Enum(name) => name,
        TypeView::List(inner) => "Vec<"@ + type_label(*inner) + ">"@,
        TypeView::Mapping(inner) => "Map<&str, "@ + type_label(*inner) + ">"@,
    }
}

/// The token of an integer width.
fn integer_width_str(width: IntegerWidth) -> (s: &'static str)
    ensures
        s@ == integer_width_token(width),
{
    match width {
        IntegerWidth::U8 => "u8",
        IntegerWidth::U16 => "u16",
        IntegerWidth::U32 => "u32",
        IntegerWidth::U64 => "u64",
        IntegerWidth::U128 => "u128",
        IntegerWidth::I8 => "i8",
        IntegerWidth::I16 => "i16",
        IntegerWidth::I32 => "i32",
        IntegerWidth::I64 => "i64",
        IntegerWidth::I128 => "i128",
    }
}

impl Type {
    /// The text of the type as it is declared.
    pub fn get_type_token_stream(&self) -> (s: String)
        ensures
            s@ == type_text(self@),
        decreases self,
    {
        match self {
            Type::String => String::from_str("String"),
            Type::Bool => String::from_str("bool"),
            Type::Integer(width) => String::from_str(integer_width_str(*width)),
            Type::Float(width) => match width {
                FloatWidth::F32 => String::from_str("f32"),
                FloatWidth::F64 => String::from_str("f64"),
            },
            Type::Object(name) => name.clone(),
            Type::Enum(name) => name.clone(),
            Type::List(inner) => {
                let nested: String = inner.get_type_token_stream();
                String::from_str("Vec<").concat(nested.as_str()).concat(">")
            },
            Type::Mapping(inner) => {
                let nested: String = inner.get_type_token_stream();
                String::from_str("std::collections::HashMap<String, ").concat(
                    nested.as_str(),
                ).concat(">")
            },
        }
    }

    /// The name of the type as messages give it.
    pub fn to_string(&self) -> (s: String)
        ensures
            s@ == type_label(self@),
        decreases self,
    {
        match self {
            Type::List(inner) => {
                let nested: String = inner.to_string();
                String::from_str("Vec<").concat(nested.as_str()).concat(">")
            },
            Type::Mapping(inner) => {
                let nested: String = inner.to_string();
                String::from_str("Map<&str, ").concat(nested.as_str()).concat(">")
            },
            Type::String => String::from_str("String"),
            Type::Bool => String::from_str("bool"),
            Type::Integer(width) => String::from_str(integer_width_str(*width)),
            Type::Float(width) => match width {
                FloatWidth::F32 => String::from_str("f32"),
                FloatWidth::F64 => String::from_str("f64"),
            },
            Type::Object(name) => name.clone(),
            Type::Enum(name) => name.clone(),
        }
    }

    /// Whether a bare literal can hold a value of the type.
    pub fn is_scalar(&self) -> (b: bool)
        ensures
            b == self@.is_scalar(),
    {
        match self {
            Type::Object(_) => false,
            Type::List(_) => false,
            Type::Mapping(_) => false,
            _ => true,
        }
    }

    /// The generic arguments of `Vec` or `HashMap`, each of which has to be a
    /// type that is a path.
    fn get_nested_type_path<'a>(segment: &'a PathSegment) -> (r: Result<
        Vec<&'a TypePath>,
        Diagnostic,
    >)
        ensures
            match r {
                Ok(paths) => {
                    &&& nested_type_paths_error(segment@) is None
                    &&& paths@.len() == segment@.arguments->AngleBracketed_0.len()
                    &&& forall|i: int|
                        0 <= i < paths@.len() ==> segment@.arguments->AngleBracketed_0[i]
                            == GenericArgumentView::Type(
                            SynTypeView::Path((#[trigger] paths@[i])@),
                        )
                    &&& segment.arguments matches PathArguments::AngleBracketed(args)
                        && forall|i: int|
                        0 <= i < paths@.len() ==> args@[i] == GenericArgument::Type(
                            SynType::Path(*#[trigger] paths@[i]),
                        )
                },
                Err(e) => nested_type_paths_error(segment@) == Some(e@),
            },
    {
        let types: Vec<&'a SynType> = get_nested_types(segment, "Unexpect Arguments")?;
        let ghost args = segment@.arguments->AngleBracketed_0;
        let mut paths: Vec<&'a TypePath> = Vec::new();
        let mut i: usize = 0;
        while i < types.len()
            invariant
                i <= types@.len(),
                paths@.len() == i,
                has_nested_types(segment@),
                args == segment@.arguments->AngleBracketed_0,
                types@.len() == args.len(),
                forall|j: int| 0 <= j < types@.len() ==> (#[trigger] types@[j])@ == args[j]->Type_0,
                forall|j: int|
                    0 <= j < i ==> args[j] == GenericArgumentView::Type(
                        SynTypeView::Path((#[trigger] paths@[j])@),
                    ),
                segment.arguments is AngleBracketed,
                forall|j: int|
                    0 <= j < types@.len() ==> segment.arguments->AngleBracketed_0@[j]
                        == GenericArgument::Type(*#[trigger] types@[j]),
                forall|j: int|
                    0 <= j < i ==> segment.arguments->AngleBracketed_0@[j] == GenericArgument::Type(
                        SynType::Path(*#[trigger] paths@[j]),
                    ),
            decreases types@.len() - i,
        {
            assert(args[i as int] is Type);
            match unwrap_type_path(types[i], "Argument of HashMap or Vec must be type path") {
                Ok(path) => {
                    paths.push(path);
                },
                Err(e) => {
                    assert(!is_type_path(args[i as int]));
                    return Err(e);
                },
            }
            i = i + 1;
        }
        assert(has_nested_type_paths(segment@)) by {
            assert forall|j: int| 0 <= j < args.len() implies is_type_path(#[trigger] args[j]) by {
                assert(args[j] == GenericArgumentView::Type(SynTypeView::Path(paths@[j]@)));
            }
        }
        Ok(paths)
    }

    /// Classifies a declared type. The head segment's name decides: the
    /// built-in scalars by their tokens; `Vec` a list of its first argument's
    /// type, which has to be a scalar; `HashMap` a map, whose two arguments are
    /// the key, which has to be `String`, and the value's type; any other name
    /// that begins with an uppercase letter an enum where `is_enum` holds, an
    /// object where not.
    pub fn from_ast(type_path: &TypePath, is_enum: bool) -> (r: Result<Type, Diagnostic>)
        ensures
            result_view(r) == type_from_ast(type_path@, is_enum),
            r matches Ok(ty) ==> ty@.well_formed(),
        decreases type_path,
    {
        proof {
            lemma_type_path_view(*type_path);
            lemma_type_from_ast_well_formed(type_path@, is_enum);
        }
        if type_path.segments.len() == 0 {
            return Err(
                Diagnostic::new(ErrorKind::UnexpectedTypeToken, "Unexpected type path segment"),
            );
        }
        let segment: &PathSegment = &type_path.segments[0];
        let token: &str = segment.ident.as_str();
        if str_eq(token, "String") {
            return Ok(Type::String);
        }
        if str_eq(token, "bool") {
            return Ok(Type::Bool);
        }
        if let Some(width) = integer_width_from_token(token) {
            return Ok(Type::Integer(width));
        }
        if let Some(width) = float_width_from_token(token) {
            return Ok(Type::Float(width));
        }
        if str_eq(token, "Vec") {
            let nested_type_paths: Vec<&TypePath> = Self::get_nested_type_path(segment)?;
            if nested_type_paths.len() == 0 {
                return Err(
                    Diagnostic::new(
                        ErrorKind::UnexpectedTypeToken,
                        "Vec need at least one argument",
                    ),
                );
            }
            let nested_type: Type = Self::from_ast(nested_type_paths[0], is_enum)?;
            if nested_type.is_scalar() {
                return Ok(Type::List(Box::new(nested_type)));
            }
            return Err(
                Diagnostic::new(
                    ErrorKind::UnsupportedNestedType,
                    "Vec can not nest Object, Map or List",
                ),
            );
        }
        if str_eq(token, "HashMap") {
            let nested_type_paths: Vec<&TypePath> = Self::get_nested_type_path(segment)?;
            if nested_type_paths.len() != 2 {
                return Err(
                    Diagnostic::new(ErrorKind::UnexpectedTypeToken, "HashMap need two argument"),
                );
            }
            let key_type_path: &TypePath = nested_type_paths[0];
            proof {
                lemma_type_path_view(*key_type_path);
            }
            if key_type_path.segments.len() == 0 {
                return Err(
                    Diagnostic::new(
                        ErrorKind::UnexpectedTypeToken,
                        "HashMap need at least two key",
                    ),
                );
            }
            if !str_eq(key_type_path.segments[0].ident.as_str(), "String") {
                return Err(
                    Diagnostic::new(
                        ErrorKind::InvalidMapKeyType,
                        "Key of HashMap must be String type",
                    ),
                );
            }
            let nested_type: Type = Self::from_ast(nested_type_paths[1], is_enum)?;
            return Ok(Type::Mapping(Box::new(nested_type)));
        }
        if token.unicode_len() > 0 && char_is_uppercase(token.get_char(0)) {
            let name: String = segment.ident.clone();
            if is_enum {
                Ok(Type::Enum(name))
            } else {
                Ok(Type::Object(name))
            }
        } else {
            Err(Diagnostic::new(ErrorKind::UnexpectedTypeToken, "Unexpected type token"))
        }
    }
}

/// A field's type, and whether the field has to receive a value.
#[derive(Debug, PartialEq)]
pub enum FieldType {
    OptionalField(Type),
    RequiredField(Type),
}

/// The mathematical model of a [`FieldType`].
pub enum FieldTypeView {
    OptionalField(TypeView),
    RequiredField(TypeView),
}

impl View for FieldType {
    type V = FieldTypeView;

    open spec fn view(&self) -> FieldTypeView {
        match self {
            FieldType::OptionalField(t) => FieldTypeView::OptionalField(t@),
            FieldType::RequiredField(t) => FieldTypeView::RequiredField(t@),
        }
    }
}

impl FieldTypeView {
    /// Whether the field has to receive a value.
    pub open spec fn is_required(self) -> bool {
        self is RequiredField
    }

    /// The type of the field's value.
    pub open spec fn unwrap(self) -> TypeView {
        match self {
            FieldTypeView::OptionalField(t) => t,
            FieldTypeView::RequiredField(t) => t,
        }
    }
}

/// The field type that a field's declared type gives: optional with the type
/// of the argument of `Option` where the head segment is `Option`, required
/// with the type of the whole where it is not.
pub open spec fn field_type_from_ast(field_type: SynTypeView, is_enum: bool) -> Result<
    FieldTypeView,
    DiagnosticView,
> {
    match field_type {
        SynTypeView::Other => Err(type_error("Field Type must be TypePath"@)),
        SynTypeView::Path(type_path) => if type_path.segments.len() == 0 {
            Err(type_error("Unexpected type path segment"@))
        } else {
            let segment = type_path.segments[0];
            if segment.ident == "Option"@ {
                if !has_nested_type(segment) {
                    Err(type_error("Unexpected type path Argument"@))
                } else {
                    match segment.arguments->AngleBracketed_0[0]->Type_0 {
                        SynTypeView::Path(nested) => match type_from_ast(nested, is_enum) {
                            Ok(t) => Ok(FieldTypeView::OptionalField(t)),
                            Err(e) => Err(e),
                        },
                        SynTypeView::Other => Err(type_error("Type in Option must be TypePath"@)),
                    }
                }
            } else {
                match type_from_ast(type_path, is_enum) {
                    Ok(t) => Ok(FieldTypeView::RequiredField(t)),
                    Err(e) => Err(e),
                }
            }
        },
    }
}

impl FieldType {
    /// Whether the field has to receive a value.
    pub fn is_required(&self) -> (b: bool)
        ensures
            b == self@.is_required(),
    {
        match self {
            FieldType::OptionalField(_) => false,
            FieldType::RequiredField(_) => true,
        }
    }

    /// The type of the field's value.
    pub fn unwrap(&self) -> (t: &Type)
        ensures
            t@ == self@.unwrap(),
    {
        match self {
            FieldType::OptionalField(field_type) => field_type,
            FieldType::RequiredField(field_type) => field_type,
        }
    }

    /// Classifies a field's declared type.
    pub fn from_ast(field_type: &SynType, is_enum: bool) -> (r: Result<FieldType, Diagnostic>)
        ensures
            result_view(r) == field_type_from_ast(field_type@, is_enum),
    {
        let type_path: &TypePath = unwrap_type_path(field_type, "Field Type must be TypePath")?;
        proof {
            lemma_type_path_view(*type_path);
        }
        if type_path.segments.len() == 0 {
            return Err(
                Diagnostic::new(ErrorKind::UnexpectedTypeToken, "Unexpected type path segment"),
            );
        }
        let segment: &PathSegment = &type_path.segments[0];
        if str_eq(segment.ident.as_str(), "Option") {
            let nested_type: &SynType = get_nested_type(segment, "Unexpected type path Argument")?;
            let nested_type_path: &TypePath = unwrap_type_path(
                nested_type,
                "Type in Option must be TypePath",
            )?;
            Ok(FieldType::OptionalField(Type::from_ast(nested_type_path, is_enum)?))
        } else {
            Ok(FieldType::RequiredField(Type::from_ast(type_path, is_enum)?))
        }
    }
}

/// A default value: the text it was given as, tagged with the kind of type it
/// was validated against.
#[derive(Debug, PartialEq)]
pub enum DefaultValue {
    String(String),
    Bool(String),
    Integer(String),
    Float(String),
    Enum(String),
}

/// The mathematical model of a [`DefaultValue`].
pub enum DefaultValueView {
    String(Seq<char>),
    Bool(Seq<char>),
    Integer(Seq<char>),
    Float(Seq<char>),
    Enum(Seq<char>),
}

impl View for DefaultValue {
    type V = DefaultValueView;

    open spec fn view(&self) -> DefaultValueView {
        match self {
            DefaultValue::String(s) => DefaultValueView::String(s@),
            DefaultValue::Bool(s) => DefaultValueView::Bool(s@),
            DefaultValue::Integer(s) => DefaultValueView::Integer(s@),
            DefaultValue::Float(s) => DefaultValueView::Float(s@),
            DefaultValue::Enum(s) => DefaultValueView::Enum(s@),
        }
    }
}

impl DefaultValueView {
    /// The text of the default value.
    pub open spec fn text(self) -> Seq<char> {
        match self {
            DefaultValueView::String(s) => s,
            DefaultValueView::Bool(s) => s,
            DefaultValueView::Integer(s) => s,
            DefaultValueView::Float(s) => s,
            DefaultValueView::Enum(s) => s,
        }
    }
}

/// The default value that `value` is for a field of type `ty`. The text of a
/// boolean has to be `true` or `false`, that of an integer a decimal number of
/// the type's width, that of a float the text of a floating point number;
/// objects, lists and maps take no default.
pub open spec fn default_from_string(value: Seq<char>, ty: TypeView) -> Result<
    DefaultValueView,
    DiagnosticView,
> {
    match ty {
        TypeView::String => Ok(DefaultValueView::String(value)),
        TypeView::Bool => if value == "true"@ || value == "false"@ {
            Ok(DefaultValueView::Bool(value))
        } else {
            Err(literal_error("default"@, "a bool"@))
        },
        TypeView::Integer(width) => if integer_of_text(value, width) is Some {
            Ok(DefaultValueView::Integer(value))
        } else {
            Err(literal_error("default"@, "a integer in range"@))
        },
        TypeView::Float(_) => if float_text(value) {
            Ok(DefaultValueView::Float(value))
        } else {
            Err(literal_error("default"@, "a float"@))
        },
        TypeView::Enum(_) => Ok(DefaultValueView::Enum(value)),
        _ => Err(
            diagnostic(
                ErrorKind::UnsupportedDefault,
                "Only support default value on String / Bool / Integer / Float / Enum"@,
            ),
        ),
    }
}

impl DefaultValue {
    /// Tags a default value's text with the kind of `ty`, after validating it
    /// against the type.
    pub fn from_string(value: String, ty: &Type) -> (r: Result<DefaultValue, Diagnostic>)
        ensures
            result_view(r) == default_from_string(value@, ty@),
    {
        match ty {
            Type::String => Ok(DefaultValue::String(value)),
            Type::Bool => if str_eq(value.as_str(), "true") || str_eq(value.as_str(), "false") {
                Ok(DefaultValue::Bool(value))
            } else {
                Err(make_literal_error("default", "a bool"))
            },
            Type::Integer(width) => match decode_integer(value.as_str(), *width) {
                Some(_) => Ok(DefaultValue::Integer(value)),
                None => Err(make_literal_error("default", "a integer in range")),
            },
            Type::Float(_) => if is_float_text(value.as_str()) {
                Ok(DefaultValue::Float(value))
            } else {
                Err(make_literal_error("default", "a float"))
            },
            Type::Enum(_) => Ok(DefaultValue::Enum(value)),
            _ => Err(
                Diagnostic::new(
                    ErrorKind::UnsupportedDefault,
                    "Only support default value on String / Bool / Integer / Float / Enum",
                ),
            ),
        }
    }

    /// The text of the default value.
    pub fn to_string(&self) -> (s: String)
        ensures
            s@ == self@.text(),
    {
        match self {
            DefaultValue::String(value) => value.clone(),
            DefaultValue::Bool(value) => value.clone(),
            DefaultValue::Integer(value) => value.clone(),
            DefaultValue::Float(value) => value.clone(),
            DefaultValue::Enum(value) => value.clone(),
        }
    }
}

} // verus!
