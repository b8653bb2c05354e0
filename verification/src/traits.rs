//! The structure that a type takes on to be read from markers.

use crate::declaration::DeriveInput;
use crate::error::{Diagnostic, ErrorKind};
use crate::symbol::Symbol;
use crate::syntax::{MarkerView, Meta, NestedMeta};
use vstd::prelude::*;

verus! {

/// A type that is read from markers.
pub trait AnnotationStructure: Sized {
    /// The path by which markers address the type.
    fn get_path() -> Symbol;

    /// Reads a value from a marker's structured form.
    fn from_meta(input: &Meta) -> Result<Self, Diagnostic>;

    /// Reads a value from a list of arguments.
    fn from_attribute_args(input: Vec<NestedMeta>) -> Result<Self, Diagnostic>;
}

/// The values that the markers of a declaration hold, one for each marker.
pub struct AnnotationStructures<T: AnnotationStructure> {
    pub attrs: Vec<T>,
}

/// Whether every marker has a structured form.
pub open spec fn all_structured(markers: Seq<MarkerView>) -> bool {
    forall|i: int| 0 <= i < markers.len() ==> (#[trigger] markers[i]).meta is Some
}

impl<T: AnnotationStructure> AnnotationStructures<T> {
    /// Reads every marker of a declaration as a value, in the markers' order.
    /// The first marker that has no structured form, or that is read with an
    /// error, ends the reading with that error: there are values only where
    /// every marker has a structured form, and then one for each marker.
    pub fn from_derive_input(derive_input: &DeriveInput) -> (r: Result<Self, Diagnostic>)
        ensures
            r matches Ok(s) ==> s.attrs@.len() == derive_input@.attrs.len() && all_structured(
                derive_input@.attrs,
            ),
            derive_input@.attrs.len() == 0 ==> r is Ok,
    {
        let mut attributes: Vec<T> = Vec::new();
        let mut i: usize = 0;
        while i < derive_input.attrs.len()
            invariant
                i <= derive_input.attrs@.len(),
                attributes@.len() == i,
                forall|k: int| 0 <= k < i ==> (#[trigger] derive_input.attrs@[k]).meta is Some,
            decreases derive_input.attrs@.len() - i,
        {
            match &derive_input.attrs[i].meta {
                Some(meta) => {
                    let value: T = T::from_meta(meta)?;
                    attributes.push(value);
                },
                None => {
                    return Err(
                        Diagnostic::new(ErrorKind::MalformedMarker, "Unable to parse marker"),
                    );
                },
            }
            i = i + 1;
        }
        assert forall|k: int| 0 <= k < derive_input@.attrs.len() implies (
        #[trigger] derive_input@.attrs[k]).meta is Some by {
            assert(derive_input.attrs@[k].meta is Some);
        }
        Ok(AnnotationStructures { attrs: attributes })
    }
}

} // verus!
