//! A schema-driven codec for annotation syntax: markers attached to a
//! declaration are parsed into typed values against a field schema, and typed
//! values are emitted again as marker syntax.

pub mod attribute;
pub mod codec;
pub mod declaration;
pub mod enum_value;
pub mod error;
pub mod field;
pub mod helper;
pub mod number;
pub mod parse;
pub mod reader;
pub mod registry;
pub mod round_trip;
pub mod search;
pub mod serialize;
pub mod symbol;
pub mod syntax;
pub mod theorems;
pub mod traits;
pub mod ty;
pub mod value;

pub use crate::attribute::Annotation;
pub use crate::enum_value::{EnumItem, EnumValue};
pub use crate::error::{Diagnostic, Error, ErrorKind};
pub use crate::field::{Fields, NamedField, UnnamedFiled};
pub use crate::helper::{
    get_lit_as_string, get_lit_bool, get_lit_float, get_lit_int, get_lit_str, get_mod_path,
    get_nested_type, get_nested_types, unwrap_punctuated_first, unwrap_punctuated_last,
    unwrap_type_path,
};
pub use crate::reader::{
    idents_to_vec, GetAnnotationParam, Interpolated, InterpolatedList, Reader, ReaderConfig,
};
pub use crate::registry::Registry;
pub use crate::symbol::Symbol;
pub use crate::traits::{AnnotationStructure, AnnotationStructures};
pub use crate::ty::{DefaultValue, FieldType, Type};
pub use crate::value::{Record, Value};
