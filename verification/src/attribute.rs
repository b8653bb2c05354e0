//! The annotation descriptor: a declaration's name, the path it is addressed
//! by, and its field set.

use crate::declaration::{Data, DataView, DeriveInput, DeriveInputView};
use crate::error::{diagnostic, Diagnostic, DiagnosticView, ErrorKind};
use crate::field::{fields_from_ast, Fields, FieldsView};
use crate::helper::{
    get_mod_path, get_override, mod_path_from, option_text, override_from, result_view,
};
use crate::symbol::ATTRIBUTE;
use vstd::prelude::*;

verus! {

/// The descriptor of an annotation.
#[derive(Debug, PartialEq)]
pub struct Annotation {
    pub ident: String,
    pub path: String,
    pub fields: Fields,
    pub mod_path: Option<String>,
}

/// The mathematical model of an [`Annotation`].
pub struct AnnotationView {
    pub ident: Seq<char>,
    pub path: Seq<char>,
    pub fields: FieldsView,
    pub mod_path: Option<Seq<char>>,
}

impl View for Annotation {
    type V = AnnotationView;

    open spec fn view(&self) -> AnnotationView {
        AnnotationView {
            ident: self.ident@,
            path: self.path@,
            fields: self.fields@,
            mod_path: option_text(self.mod_path),
        }
    }
}

/// The descriptor that a declaration gives. The declaration has to be a
/// struct. Its path is its own name, unless an `attribute` marker overrides it
/// with the string literal that the marker carries.
pub open spec fn annotation_from_ast(input: DeriveInputView) -> Result<
    AnnotationView,
    DiagnosticView,
> {
    match input.data {
        DataView::Struct(fields) => match override_from(
            input.attrs,
            0,
            input.ident,
            ATTRIBUTE@,
            "Unexpected nested meta"@,
            "Meta of Attribute must be Lit List"@,
            "Unexpected attribute"@,
        ) {
            Err(e) => Err(e),
            Ok(path) => match fields_from_ast(fields) {
                Err(e) => Err(e),
                Ok(fields) => match mod_path_from(input.attrs, 0, None) {
                    Err(e) => Err(e),
                    Ok(mod_path) => Ok(
                        AnnotationView { ident: input.ident, path, fields, mod_path },
                    ),
                },
            },
        },
        _ => Err(diagnostic(ErrorKind::UnexpectedDeclaration, "Attribute must be a struct"@)),
    }
}

impl Annotation {
    /// Builds an annotation's descriptor from its declaration.
    pub fn from_ast(input: &DeriveInput) -> (r: Result<Annotation, Diagnostic>)
        ensures
            result_view(r) == annotation_from_ast(input@),
    {
        match &input.data {
            Data::Struct(data_struct) => {
                let path: String = get_override(
                    &input.attrs,
                    input.ident.clone(),
                    ATTRIBUTE,
                    "Unexpected nested meta",
                    "Meta of Attribute must be Lit List",
                    "Unexpected attribute",
                )?;
                let fields: Fields = Fields::from_ast(data_struct)?;
                let mod_path: Option<String> = get_mod_path(&input.attrs)?;
                Ok(Annotation { ident: input.ident.clone(), path, fields, mod_path })
            },
            _ => Err(
                Diagnostic::new(ErrorKind::UnexpectedDeclaration, "Attribute must be a struct"),
            ),
        }
    }

    /// The path by which markers address the annotation.
    pub fn get_path(&self) -> (p: &str)
        ensures
            p@ == self@.path,
    {
        self.path.as_str()
    }
}

} // verus!
