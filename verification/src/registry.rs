//! The descriptors that type names are resolved against.

use crate::attribute::{Annotation, AnnotationView};
use crate::enum_value::{EnumValue, EnumValueView};
use crate::search::{first_true, lemma_first_true};
use crate::syntax::str_eq;
use vstd::prelude::*;

verus! {

/// The annotations and enums that a schema may name.
#[derive(Debug, PartialEq)]
pub struct Registry {
    pub annotations: Vec<Annotation>,
    pub enums: Vec<EnumValue>,
}

/// The mathematical model of a [`Registry`].
pub struct RegistryView {
    pub annotations: Seq<AnnotationView>,
    pub enums: Seq<EnumValueView>,
}

impl View for Registry {
    type V = RegistryView;

    open spec fn view(&self) -> RegistryView {
        RegistryView {
            annotations: Seq::new(self.annotations@.len(), |i: int| self.annotations@[i]@),
            enums: Seq::new(self.enums@.len(), |i: int| self.enums@[i]@),
        }
    }
}

impl RegistryView {
    /// The position of the first annotation named `name`, or the number of
    /// annotations where there is none.
    pub open spec fn annotation_index(self, name: Seq<char>) -> int {
        first_true(Seq::new(self.annotations.len(), |i: int| self.annotations[i].ident == name))
    }

    /// The first annotation named `name`.
    pub open spec fn find_annotation(self, name: Seq<char>) -> Option<AnnotationView> {
        let at = self.annotation_index(name);
        if at < self.annotations.len() {
            Some(self.annotations[at])
        } else {
            None
        }
    }

    /// The position of the first enum named `name`, or the number of enums
    /// where there is none.
    pub open spec fn enum_index(self, name: Seq<char>) -> int {
        first_true(Seq::new(self.enums.len(), |i: int| self.enums[i].ident == name))
    }

    /// The first enum named `name`.
    pub open spec fn find_enum(self, name: Seq<char>) -> Option<EnumValueView> {
        let at = self.enum_index(name);
        if at < self.enums.len() {
            Some(self.enums[at])
        } else {
            None
        }
    }
}

impl Registry {
    /// A registry that holds nothing.
    pub fn new() -> (r: Registry)
        ensures
            r@.annotations.len() == 0,
            r@.enums.len() == 0,
    {
        Registry { annotations: Vec::new(), enums: Vec::new() }
    }

    /// Adds an annotation after those the registry holds.
    pub fn add_annotation(&mut self, annotation: Annotation)
        ensures
            final(self)@.annotations == old(self)@.annotations.push(annotation@),
            final(self)@.enums == old(self)@.enums,
    {
        self.annotations.push(annotation);
        assert(self@.annotations =~= old(self)@.annotations.push(annotation@));
        assert(self@.enums =~= old(self)@.enums);
    }

    /// Adds an enum after those the registry holds.
    pub fn add_enum(&mut self, enum_value: EnumValue)
        ensures
            final(self)@.enums == old(self)@.enums.push(enum_value@),
            final(self)@.annotations == old(self)@.annotations,
    {
        self.enums.push(enum_value);
        assert(self@.enums =~= old(self)@.enums.push(enum_value@));
        assert(self@.annotations =~= old(self)@.annotations);
    }

    /// The first annotation named `name`.
    pub fn find_annotation(&self, name: &str) -> (r: Option<&Annotation>)
        ensures
            match r {
                Some(a) => self@.find_annotation(name@) == Some(a@),
                None => self@.find_annotation(name@) is None,
            },
    {
        let ghost flags = Seq::new(
            self@.annotations.len(),
            |i: int| self@.annotations[i].ident == name@,
        );
        let mut i: usize = 0;
        while i < self.annotations.len()
            invariant
                i <= self.annotations@.len(),
                flags == Seq::new(
                    self@.annotations.len(),
                    |i: int| self@.annotations[i].ident == name@,
                ),
                forall|k: int| 0 <= k < i ==> !flags[k],
            decreases self.annotations@.len() - i,
        {
            if str_eq(self.annotations[i].ident.as_str(), name) {
                proof {
                    lemma_first_true(flags, i as int);
                }
                return Some(&self.annotations[i]);
            }
            i = i + 1;
        }
        proof {
            lemma_first_true(flags, i as int);
        }
        None
    }

    /// The first enum named `name`.
    pub fn find_enum(&self, name: &str) -> (r: Option<&EnumValue>)
        ensures
            match r {
                Some(e) => self@.find_enum(name@) == Some(e@),
                None => self@.find_enum(name@) is None,
            },
    {
        let ghost flags = Seq::new(self@.enums.len(), |i: int| self@.enums[i].ident == name@);
        let mut i: usize = 0;
        while i < self.enums.len()
            invariant
                i <= self.enums@.len(),
                flags == Seq::new(self@.enums.len(), |i: int| self@.enums[i].ident == name@),
                forall|k: int| 0 <= k < i ==> !flags[k],
            decreases self.enums@.len() - i,
        {
            if str_eq(self.enums[i].ident.as_str(), name) {
                proof {
                    lemma_first_true(flags, i as int);
                }
                return Some(&self.enums[i]);
            }
            i = i + 1;
        }
        proof {
            lemma_first_true(flags, i as int);
        }
        None
    }
}

} // verus!
