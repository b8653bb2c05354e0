//! The well-known marker names.

use crate::syntax::Path;
use vstd::prelude::*;

verus! {

/// A marker name, compared with paths by structure.
#[derive(Clone, Copy)]
pub struct Symbol(pub &'static str);

impl View for Symbol {
    type V = Seq<char>;

    open spec fn view(&self) -> Seq<char> {
        self.0@
    }
}

impl Symbol {
    /// The symbol of the given name.
    pub fn new(name: &'static str) -> (s: Symbol)
        ensures
            s@ == name@,
    {
        Symbol(name)
    }

    /// The name.
    pub fn name(&self) -> (n: &'static str)
        ensures
            n@ == self@,
    {
        self.0
    }

    /// Whether `path` is this name and nothing else.
    pub fn is_path(&self, path: &Path) -> (b: bool)
        ensures
            b == path@.is_ident(self@),
    {
        path.is_ident(self.0)
    }
}

/// The struct-level marker that overrides a descriptor's external path.
pub const ATTRIBUTE: &'static str = "attribute";

/// The field-level marker.
pub const ATTRIBUTE_FIELD: &'static str = "attribute_field";

/// The key of a field's external path.
pub const ATTRIBUTE_FIELD_PATH: &'static str = "path";

/// The other key of a field's external path.
pub const ATTRIBUTE_FIELD_ALIAS: &'static str = "alias";

/// The key that makes a field an enum read by its string.
pub const ATTRIBUTE_FIELD_ENUM_VALUE: &'static str = "enum_value";

/// The key of a field's default value.
pub const ATTRIBUTE_FIELD_DEFAULT: &'static str = "default";

/// The variant-level marker that overrides a variant's external key.
pub const VARIANT_VALUE: &'static str = "variant_value";

/// The other variant-level marker that overrides a variant's external key.
pub const ENUM_ITEM_VALUE: &'static str = "enum_item_value";

/// The marker that names the module a declaration lives in.
pub const MOD_PATH: &'static str = "mod_path";

} // verus!
