//! The enum-value descriptor: an enum whose variants are read from, and
//! written as, strings.

use crate::declaration::{
    variants_view, Data, DataView, DeriveInput, DeriveInputView, Variant, VariantView,
};
use crate::error::{diagnostic, Diagnostic, DiagnosticView, Error, ErrorKind};
use crate::helper::{
    get_mod_path, get_override, mod_path_from, option_text, override_from, result_view,
};
use crate::search::{collect, first_true, lemma_collect_err, lemma_collect_ok, lemma_first_true};
use crate::symbol::{ENUM_ITEM_VALUE, VARIANT_VALUE};
use crate::syntax::{str_eq, Lit, LitView, MarkerView};
use vstd::prelude::*;

verus! {

/// The snake case form of a name.
pub uninterp spec fn snake_case(name: Seq<char>) -> Seq<char>;

/// `heck::SnakeCase::to_snake_case` on a string slice: the words of the name,
/// in lower case, joined by underscores. The result is named, not stated.
#[verifier::external_body]
pub(crate) fn to_snake_case(name: &str) -> (r: String)
    ensures
        r@ == snake_case(name@),
{
    heck::SnakeCase::to_snake_case(name)
}

/// One variant of an enum: its name, and the string it is read from.
#[derive(Debug, PartialEq)]
pub struct EnumItem {
    pub ident: String,
    pub value: String,
}

/// The mathematical model of an [`EnumItem`].
pub struct EnumItemView {
    pub ident: Seq<char>,
    pub value: Seq<char>,
}

impl View for EnumItem {
    type V = EnumItemView;

    open spec fn view(&self) -> EnumItemView {
        EnumItemView { ident: self.ident@, value: self.value@ }
    }
}

/// The string of a variant after its markers: `initial`, unless an
/// `enum_item_value` or a `variant_value` marker overrides it with the string
/// literal that the marker carries. Of several such markers the last decides,
/// and `variant_value` goes before `enum_item_value`.
pub open spec fn variant_value(attrs: Seq<MarkerView>, initial: Seq<char>) -> Result<
    Seq<char>,
    DiagnosticView,
> {
    match override_from(
        attrs,
        0,
        initial,
        ENUM_ITEM_VALUE@,
        "Unexpected nested segment"@,
        "Meta of enum_item_value must be Lit List"@,
        "Meta of enum_item_value must be Lit List"@,
    ) {
        Ok(value) => override_from(
            attrs,
            0,
            value,
            VARIANT_VALUE@,
            "Unexpected nested segment"@,
            "Meta of enum_item_value must be Lit List"@,
            "Meta of enum_item_value must be Lit List"@,
        ),
        Err(e) => Err(e),
    }
}

/// The variant that a declared variant gives: its string is the snake case of
/// its name, unless a marker overrides it.
pub open spec fn enum_item_from_ast(input: VariantView) -> Result<EnumItemView, DiagnosticView> {
    match variant_value(input.attrs, snake_case(input.ident)) {
        Ok(value) => Ok(EnumItemView { ident: input.ident, value }),
        Err(e) => Err(e),
    }
}

impl EnumItem {
    /// Builds a variant's descriptor from its declaration.
    pub fn from_ast(input: &Variant) -> (r: Result<EnumItem, Diagnostic>)
        ensures
            result_view(r) == enum_item_from_ast(input@),
    {
        let ident: String = input.ident.clone();
        let value: String = get_override(
            &input.attrs,
            to_snake_case(ident.as_str()),
            ENUM_ITEM_VALUE,
            "Unexpected nested segment",
            "Meta of enum_item_value must be Lit List",
            "Meta of enum_item_value must be Lit List",
        )?;
        let value: String = get_override(
            &input.attrs,
            value,
            VARIANT_VALUE,
            "Unexpected nested segment",
            "Meta of enum_item_value must be Lit List",
            "Meta of enum_item_value must be Lit List",
        )?;
        Ok(EnumItem { ident, value })
    }

    /// Whether the variant is read from `value`: the strings are the same,
    /// character by character.
    pub fn to_pattern_arm(&self, value: &str) -> (b: bool)
        ensures
            b == (self@.value == value@),
    {
        str_eq(self.value.as_str(), value)
    }

    /// The literal that the variant is written as.
    pub fn to_token_pattern_arm(&self) -> (lit: Lit)
        ensures
            lit@ == LitView::Str(self@.value),
    {
        Lit::Str(self.value.clone())
    }
}

/// An enum read by its strings: its name, its variants in declaration order,
/// and the module it lives in where that is named.
#[derive(Debug, PartialEq)]
pub struct EnumValue {
    pub ident: String,
    pub items: Vec<EnumItem>,
    pub mod_path: Option<String>,
}

/// The mathematical model of an [`EnumValue`].
pub struct EnumValueView {
    pub ident: Seq<char>,
    pub items: Seq<EnumItemView>,
    pub mod_path: Option<Seq<char>>,
}

impl View for EnumValue {
    type V = EnumValueView;

    open spec fn view(&self) -> EnumValueView {
        EnumValueView {
            ident: self.ident@,
            items: Seq::new(self.items@.len(), |i: int| self.items@[i]@),
            mod_path: option_text(self.mod_path),
        }
    }
}

impl EnumValueView {
    /// For each variant in declaration order, whether it is read from `value`.
    pub open spec fn matches(self, value: Seq<char>) -> Seq<bool> {
        Seq::new(self.items.len(), |i: int| self.items[i].value == value)
    }

    /// The message for a string that names no variant.
    pub open spec fn unexpected_value(self, value: Seq<char>) -> Seq<char> {
        "Unexpected "@ + self.ident + " value: "@ + value
    }

    /// The variant that `value` names: the first in declaration order whose
    /// string is `value`, character by character; an error whose message holds
    /// the enum's name and the string where there is none.
    pub open spec fn from_str(self, value: Seq<char>) -> Result<nat, Seq<char>> {
        let at = first_true(self.matches(value));
        if at < self.items.len() {
            Ok(at as nat)
        } else {
            Err(self.unexpected_value(value))
        }
    }

    /// The literal that a variant is written as.
    pub open spec fn to_tokens(self, variant: nat) -> Option<LitView> {
        if variant < self.items.len() {
            Some(LitView::Str(self.items[variant as int].value))
        } else {
            None
        }
    }

    /// Whether no two variants are read from the same string.
    pub open spec fn distinct_values(self) -> bool {
        forall|i: int, j: int|
            0 <= i < j < self.items.len() ==> (#[trigger] self.items[i]).value
                != (#[trigger] self.items[j]).value
    }
}

/// The descriptors of declared variants, in declaration order, or the first
/// error among them.
pub open spec fn enum_items_from_ast(variants: Seq<VariantView>) -> Result<
    Seq<EnumItemView>,
    DiagnosticView,
> {
    collect(Seq::new(variants.len(), |k: int| enum_item_from_ast(variants[k])))
}

/// The descriptor that a declaration gives: the declaration has to be an enum;
/// its variants are taken in declaration order, and the first that fails
/// decides the error.
pub open spec fn enum_value_from_ast(
    input: DeriveInputView,
) -> Result<EnumValueView, DiagnosticView> {
    match input.data {
        DataView::Enum(variants) => match enum_items_from_ast(variants) {
            Err(e) => Err(e),
            Ok(items) => match mod_path_from(input.attrs, 0, None) {
                Err(e) => Err(e),
                Ok(mod_path) => Ok(EnumValueView { ident: input.ident, items, mod_path }),
            },
        },
        _ => Err(
            diagnostic(
                ErrorKind::UnexpectedDeclaration,
                "EnumValue can only be created from Enum"@,
            ),
        ),
    }
}

impl EnumValue {
    /// Builds an enum's descriptor from its declaration.
    pub fn from_ast(input: &DeriveInput) -> (r: Result<EnumValue, Diagnostic>)
        ensures
            result_view(r) == enum_value_from_ast(input@),
    {
        match &input.data {
            Data::Enum(variants) => {
                let ghost views = variants_view(variants@);
                let ghost results = Seq::new(views.len(), |k: int| enum_item_from_ast(views[k]));
                let mut items: Vec<EnumItem> = Vec::new();
                let mut i: usize = 0;
                while i < variants.len()
                    invariant
                        i <= variants@.len(),
                        items@.len() == i,
                        input.data == Data::Enum(*variants),
                        views == variants_view(variants@),
                        results == Seq::new(views.len(), |k: int| enum_item_from_ast(views[k])),
                        forall|k: int|
                            0 <= k < i ==> (#[trigger] results[k]) == Ok::<
                                EnumItemView,
                                DiagnosticView,
                            >(items@[k]@),
                    decreases variants@.len() - i,
                {
                    assert(views[i as int] == variants@[i as int]@);
                    match EnumItem::from_ast(&variants[i]) {
                        Ok(item) => {
                            items.push(item);
                        },
                        Err(e) => {
                            proof {
                                lemma_collect_err(results, i as int);
                            }
                            return Err(e);
                        },
                    }
                    i = i + 1;
                }
                let ghost done = Seq::new(items@.len(), |k: int| items@[k]@);
                proof {
                    lemma_collect_ok(results, done);
                }
                let mod_path: Option<String> = get_mod_path(&input.attrs)?;
                let r = EnumValue { ident: input.ident.clone(), items, mod_path };
                assert(r@.items =~= done);
                Ok(r)
            },
            _ => Err(
                Diagnostic::new(
                    ErrorKind::UnexpectedDeclaration,
                    "EnumValue can only be created from Enum",
                ),
            ),
        }
    }

    /// Reads a variant from its string. Variants are tried in declaration
    /// order; the strings have to be the same, character by character.
    pub fn from_str(&self, value: &str) -> (r: Result<usize, Error>)
        ensures
            match r {
                Ok(variant) => self@.from_str(value@) == Ok::<nat, Seq<char>>(variant as nat),
                Err(e) => self@.from_str(value@) == Err::<nat, Seq<char>>(e@),
            },
    {
        let ghost flags = self@.matches(value@);
        let mut i: usize = 0;
        while i < self.items.len()
            invariant
                i <= self.items@.len(),
                flags == self@.matches(value@),
                forall|k: int| 0 <= k < i ==> !flags[k],
            decreases self.items@.len() - i,
        {
            if self.items[i].to_pattern_arm(value) {
                proof {
                    lemma_first_true(flags, i as int);
                }
                return Ok(i);
            }
            i = i + 1;
        }
        proof {
            lemma_first_true(flags, i as int);
        }
        let message: String = String::from_str("Unexpected ").concat(self.ident.as_str()).concat(
            " value: ",
        ).concat(value);
        Err(Error::new(message.as_str()))
    }

    /// Writes a variant as the literal it is read from. `None` where the enum
    /// has no such variant.
    pub fn to_tokens(&self, variant: usize) -> (r: Option<Lit>)
        ensures
            match r {
                Some(lit) => self@.to_tokens(variant as nat) == Some(lit@),
                None => self@.to_tokens(variant as nat) is None,
            },
    {
        if variant < self.items.len() {
            Some(self.items[variant].to_token_pattern_arm())
        } else {
            None
        }
    }
}

} // verus!
