//! Small readers over literals and type expressions, each failing with a
//! diagnostic where the syntax is of another kind than expected.

use crate::declaration::{
    arguments_view, lemma_path_segment_view, GenericArgument, PathArguments, PathArgumentsView,
    PathSegment, PathSegmentView, SynType, SynTypeView, TypePath,
};
use crate::error::{diagnostic, Diagnostic, DiagnosticView, ErrorKind};
use crate::number::{float_text, is_float_text, parse_integer, Integer, IntegerWidth};
use crate::symbol::MOD_PATH;
use crate::syntax::{
    lemma_meta_list_view, markers_view, Lit, LitView, Marker, MarkerView, Meta, MetaView,
    NestedMeta, NestedMetaView,
};
use vstd::prelude::*;

verus! {

/// The model of a result.
pub open spec fn result_view<T: View>(r: Result<T, Diagnostic>) -> Result<T::V, DiagnosticView> {
    match r {
        Ok(v) => Ok(v@),
        Err(e) => Err(e@),
    }
}

/// The first item of a list, or `error` where the list is empty.
#[inline]
pub fn unwrap_punctuated_first<T>(punctuated: &Vec<T>, error: Diagnostic) -> (r: Result<
    &T,
    Diagnostic,
>)
    ensures
        match r {
            Ok(first) => punctuated@.len() > 0 && *first == punctuated@[0],
            Err(e) => punctuated@.len() == 0 && e == error,
        },
{
    if punctuated.len() > 0 {
        Ok(&punctuated[0])
    } else {
        Err(error)
    }
}

/// The last item of a list, or `error` where the list is empty.
#[inline]
pub fn unwrap_punctuated_last<T>(punctuated: &Vec<T>, error: Diagnostic) -> (r: Result<
    &T,
    Diagnostic,
>)
    ensures
        match r {
            Ok(last) => punctuated@.len() > 0 && *last == punctuated@[punctuated@.len() - 1],
            Err(e) => punctuated@.len() == 0 && e == error,
        },
{
    if punctuated.len() > 0 {
        Ok(&punctuated[punctuated.len() - 1])
    } else {
        Err(error)
    }
}

/// The diagnostic that a malformed type expression gets.
pub open spec fn type_error(message: Seq<char>) -> DiagnosticView {
    diagnostic(ErrorKind::UnexpectedTypeToken, message)
}

/// Whether the segment's first generic argument is a type.
pub open spec fn has_nested_type(segment: PathSegmentView) -> bool {
    segment.arguments matches PathArgumentsView::AngleBracketed(args) && args.len() > 0 && args[0]
        is Type
}

/// The first generic argument of a segment, which has to be a type.
#[inline]
pub fn get_nested_type<'a>(segment: &'a PathSegment, message: &str) -> (r: Result<
    &'a SynType,
    Diagnostic,
>)
    ensures
        match r {
            Ok(t) => has_nested_type(segment@) && t@
                == segment@.arguments->AngleBracketed_0[0]->Type_0,
            Err(e) => !has_nested_type(segment@) && e@ == type_error(message@),
        },
{
    proof {
        lemma_path_segment_view(*segment);
    }
    match &segment.arguments {
        PathArguments::AngleBracketed(args) => {
            if args.len() > 0 {
                assert(arguments_view(args@)[0] == args@[0]@);
                match &args[0] {
                    GenericArgument::Type(nested_type) => Ok(nested_type),
                    _ => Err(Diagnostic::new(ErrorKind::UnexpectedTypeToken, message)),
                }
            } else {
                Err(Diagnostic::new(ErrorKind::UnexpectedTypeToken, message))
            }
        },
        _ => Err(Diagnostic::new(ErrorKind::UnexpectedTypeToken, message)),
    }
}

/// Whether every generic argument of the segment is a type.
pub open spec fn has_nested_types(segment: PathSegmentView) -> bool {
    segment.arguments matches PathArgumentsView::AngleBracketed(args) && forall|i: int|
        0 <= i < args.len() ==> (#[trigger] args[i]) is Type
}

/// The generic arguments of a segment, each of which has to be a type.
pub fn get_nested_types<'a>(segment: &'a PathSegment, message: &str) -> (r: Result<
    Vec<&'a SynType>,
    Diagnostic,
>)
    ensures
        match r {
            Ok(types) => {
                &&& has_nested_types(segment@)
                &&& types@.len() == segment@.arguments->AngleBracketed_0.len()
                &&& forall|i: int|
                    0 <= i < types@.len() ==> (#[trigger] types@[i])@
                        == segment@.arguments->AngleBracketed_0[i]->Type_0
                &&& segment.arguments matches PathArguments::AngleBracketed(args) && forall|i: int|
                    0 <= i < types@.len() ==> args@[i] == GenericArgument::Type(
                        *#[trigger] types@[i],
                    )
            },
            Err(e) => !has_nested_types(segment@) && e@ == type_error(message@),
        },
{
    proof {
        lemma_path_segment_view(*segment);
    }
    match &segment.arguments {
        PathArguments::AngleBracketed(args) => {
            let ghost views = arguments_view(args@);
            let mut types: Vec<&'a SynType> = Vec::new();
            let mut i: usize = 0;
            while i < args.len()
                invariant
                    i <= args@.len(),
                    types@.len() == i,
                    views == arguments_view(args@),
                    segment@.arguments == PathArgumentsView::AngleBracketed(views),
                    forall|j: int| 0 <= j < i ==> (#[trigger] views[j]) is Type,
                    forall|j: int| 0 <= j < i ==> (#[trigger] types@[j])@ == views[j]->Type_0,
                    forall|j: int|
                        0 <= j < i ==> args@[j] == GenericArgument::Type(*#[trigger] types@[j]),
                decreases args@.len() - i,
            {
                assert(views[i as int] == args@[i as int]@);
                match &args[i] {
                    GenericArgument::Type(nested_type) => {
                        types.push(nested_type);
                    },
                    _ => {
                        assert(!(views[i as int] is Type));
                        return Err(Diagnostic::new(ErrorKind::UnexpectedTypeToken, message));
                    },
                }
                i = i + 1;
            }
            Ok(types)
        },
        _ => Err(Diagnostic::new(ErrorKind::UnexpectedTypeToken, message)),
    }
}

/// The path that a type expression is, where it is one.
#[inline]
pub fn unwrap_type_path<'a>(ty: &'a SynType, message: &str) -> (r: Result<&'a TypePath, Diagnostic>)
    ensures
        match r {
            Ok(p) => ty@ == SynTypeView::Path(p@) && *ty == SynType::Path(*p),
            Err(e) => ty@ is Other && e@ == type_error(message@),
        },
{
    match ty {
        SynType::Path(type_path) => Ok(type_path),
        _ => Err(Diagnostic::new(ErrorKind::UnexpectedTypeToken, message)),
    }
}

/// The diagnostic for a literal of another kind than `what`: its message is
/// `expected`, the name of what the literal belongs to, and ` lit to be `
/// followed by `what`.
pub open spec fn literal_error(ident: Seq<char>, what: Seq<char>) -> DiagnosticView {
    diagnostic(
        ErrorKind::InvalidLiteralKind,
        "expected "@ + ident + " lit to be "@ + what,
    )
}

/// Builds the diagnostic for a literal of the wrong kind.
pub fn make_literal_error(ident: &str, what: &str) -> (d: Diagnostic)
    ensures
        d@ == literal_error(ident@, what@),
{
    let message: String = String::from_str("expected ").concat(ident).concat(" lit to be ").concat(
        what,
    );
    Diagnostic { kind: ErrorKind::InvalidLiteralKind, message, position: None }
}

/// What a literal gives where a string is expected.
pub open spec fn lit_str(lit: LitView, ident: Seq<char>) -> Result<Seq<char>, DiagnosticView> {
    match lit {
        LitView::Str(s) => Ok(s),
        _ => Err(literal_error(ident, "a string"@)),
    }
}

/// The contents of a string literal.
#[inline]
pub fn get_lit_str(lit: &Lit, ident: &str) -> (r: Result<String, Diagnostic>)
    ensures
        result_view(r) == lit_str(lit@, ident@),
{
    match lit {
        Lit::Str(lit_str) => Ok(lit_str.clone()),
        _ => Err(make_literal_error(ident, "a string")),
    }
}

/// The text of `true` or `false`.
pub open spec fn bool_text(b: bool) -> Seq<char> {
    if b {
        "true"@
    } else {
        "false"@
    }
}

/// What a literal gives where any scalar is expected, as text.
pub open spec fn lit_as_string(
    lit: LitView,
    ident: Seq<char>,
) -> Result<Seq<char>, DiagnosticView> {
    match lit {
        LitView::Str(s) => Ok(s),
        LitView::Int(s) => Ok(s),
        LitView::Float(s) => Ok(s),
        LitView::Bool(b) => Ok(bool_text(b)),
        LitView::Other => Err(literal_error(ident, "a string/integer/float/bool"@)),
    }
}

/// The text of a string, integer, float or boolean literal.
#[inline]
pub fn get_lit_as_string(lit: &Lit, ident: &str) -> (r: Result<String, Diagnostic>)
    ensures
        result_view(r) == lit_as_string(lit@, ident@),
{
    match lit {
        Lit::Str(lit_str) => Ok(lit_str.clone()),
        Lit::Int(lit_int) => Ok(lit_int.clone()),
        Lit::Float(lit_float) => Ok(lit_float.clone()),
        Lit::Bool(lit_bool) => Ok(
            String::from_str(
                if *lit_bool {
                    "true"
                } else {
                    "false"
                },
            ),
        ),
        _ => Err(make_literal_error(ident, "a string/integer/float/bool")),
    }
}

/// The integer of the given width that decimal text denotes.
pub open spec fn integer_of_text(text: Seq<char>, width: IntegerWidth) -> Option<int> {
    match parse_integer(text) {
        Some(v) => if width.holds(v) {
            Some(v)
        } else {
            None
        },
        None => None,
    }
}

/// Decodes decimal text as an integer of the given width.
pub fn decode_integer(text: &str, width: IntegerWidth) -> (r: Option<Integer>)
    ensures
        match r {
            Some(i) => integer_of_text(text@, width) == Some(i@),
            None => integer_of_text(text@, width) is None,
        },
{
    match Integer::from_decimal(text) {
        Some(i) => if i.fits(width) {
            Some(i)
        } else {
            None
        },
        None => None,
    }
}

/// What a literal gives where an integer of the given width is expected.
pub open spec fn lit_int(lit: LitView, ident: Seq<char>, width: IntegerWidth) -> Result<
    int,
    DiagnosticView,
> {
    match lit {
        LitView::Int(digits) => match integer_of_text(digits, width) {
            Some(v) => Ok(v),
            None => Err(literal_error(ident, "a integer in range"@)),
        },
        _ => Err(literal_error(ident, "a integer"@)),
    }
}

/// The value of an integer literal, decoded in base 10 for the given width.
#[inline]
pub fn get_lit_int(lit: &Lit, ident: &str, width: IntegerWidth) -> (r: Result<Integer, Diagnostic>)
    ensures
        result_view(r) == lit_int(lit@, ident@, width),
{
    match lit {
        Lit::Int(lit_int) => match decode_integer(lit_int.as_str(), width) {
            Some(v) => Ok(v),
            None => Err(make_literal_error(ident, "a integer in range")),
        },
        _ => Err(make_literal_error(ident, "a integer")),
    }
}

/// What a literal gives where a float is expected: the literal's digits, which
/// have to be the text of a floating point number.
pub open spec fn lit_float(lit: LitView, ident: Seq<char>) -> Result<Seq<char>, DiagnosticView> {
    match lit {
        LitView::Float(digits) => if float_text(digits) {
            Ok(digits)
        } else {
            Err(literal_error(ident, "a float"@))
        },
        _ => Err(literal_error(ident, "a float"@)),
    }
}

/// The decimal text of a floating point literal.
#[inline]
pub fn get_lit_float(lit: &Lit, ident: &str) -> (r: Result<String, Diagnostic>)
    ensures
        result_view(r) == lit_float(lit@, ident@),
{
    match lit {
        Lit::Float(lit_float) => if is_float_text(lit_float.as_str()) {
            Ok(lit_float.clone())
        } else {
            Err(make_literal_error(ident, "a float"))
        },
        _ => Err(make_literal_error(ident, "a float")),
    }
}

/// What a literal gives where a boolean is expected.
pub open spec fn lit_bool(lit: LitView, ident: Seq<char>) -> Result<bool, DiagnosticView> {
    match lit {
        LitView::Bool(b) => Ok(b),
        _ => Err(literal_error(ident, "a bool"@)),
    }
}

/// The value of a boolean literal.
#[inline]
pub fn get_lit_bool(lit: &Lit, ident: &str) -> (r: Result<bool, Diagnostic>)
    ensures
        r is Ok ==> lit_bool(lit@, ident@) == Ok::<bool, DiagnosticView>(r->Ok_0),
        r is Err ==> lit_bool(lit@, ident@) == Err::<bool, DiagnosticView>(r->Err_0@),
{
    match lit {
        Lit::Bool(lit_bool) => Ok(*lit_bool),
        _ => Err(make_literal_error(ident, "a bool")),
    }
}

/// The diagnostic for a marker that cannot be read as structured syntax.
pub open spec fn unparsed_marker() -> DiagnosticView {
    diagnostic(ErrorKind::MalformedMarker, "Unable to parse marker"@)
}

/// The string that a marker carries: the marker has to be a list whose first
/// item is a string literal. `empty`, `not_literal` and `not_list` are the
/// messages for a list without items, a first item that is no literal, and a
/// marker that is no list.
pub open spec fn marker_string(
    marker: MarkerView,
    name: Seq<char>,
    empty: Seq<char>,
    not_literal: Seq<char>,
    not_list: Seq<char>,
) -> Result<Seq<char>, DiagnosticView> {
    match marker.meta {
        None => Err(unparsed_marker()),
        Some(MetaView::List(list)) => if list.nested.len() == 0 {
            Err(diagnostic(ErrorKind::MalformedMarker, empty))
        } else {
            match list.nested[0] {
                NestedMetaView::Lit(lit) => lit_str(lit, name),
                _ => Err(diagnostic(ErrorKind::MalformedMarker, not_literal)),
            }
        },
        Some(_) => Err(diagnostic(ErrorKind::MalformedMarker, not_list)),
    }
}

/// Reads the string that a marker carries as the first item of its list.
pub fn get_marker_string(
    marker: &Marker,
    name: &str,
    empty: &str,
    not_literal: &str,
    not_list: &str,
) -> (r: Result<String, Diagnostic>)
    ensures
        result_view(r) == marker_string(marker@, name@, empty@, not_literal@, not_list@),
{
    match &marker.meta {
        None => Err(Diagnostic::new(ErrorKind::MalformedMarker, "Unable to parse marker")),
        Some(Meta::List(list)) => {
            proof {
                lemma_meta_list_view(*list);
            }
            if list.nested.len() == 0 {
                Err(Diagnostic::new(ErrorKind::MalformedMarker, empty))
            } else {
                match &list.nested[0] {
                    NestedMeta::Lit(lit) => get_lit_str(lit, name),
                    _ => Err(Diagnostic::new(ErrorKind::MalformedMarker, not_literal)),
                }
            }
        },
        Some(_) => Err(Diagnostic::new(ErrorKind::MalformedMarker, not_list)),
    }
}

/// The model of an optional text.
pub open spec fn option_text(text: Option<String>) -> Option<Seq<char>> {
    match text {
        Some(s) => Some(s@),
        None => None,
    }
}

/// The module path that the markers from `from` on give, `current` being what
/// the markers before gave. Each `mod_path` marker decides anew: the string it
/// is set to, or none where it is not of the form `mod_path = literal`.
pub open spec fn mod_path_from(
    attrs: Seq<MarkerView>,
    from: int,
    current: Option<Seq<char>>,
) -> Result<Option<Seq<char>>, DiagnosticView>
    decreases attrs.len() - from,
{
    if from < 0 || from >= attrs.len() {
        Ok(current)
    } else if attrs[from].path.is_ident(MOD_PATH@) {
        match attrs[from].meta {
            None => Err(unparsed_marker()),
            Some(MetaView::NameValue(name_value)) => match lit_str(name_value.lit, MOD_PATH@) {
                Ok(s) => mod_path_from(attrs, from + 1, Some(s)),
                Err(e) => Err(e),
            },
            Some(_) => mod_path_from(attrs, from + 1, None),
        }
    } else {
        mod_path_from(attrs, from + 1, current)
    }
}

/// The module path that the markers of a declaration name, where they name one.
pub fn get_mod_path(attrs: &Vec<Marker>) -> (r: Result<Option<String>, Diagnostic>)
    ensures
        match r {
            Ok(p) => mod_path_from(markers_view(attrs@), 0, None) == Ok::<
                Option<Seq<char>>,
                DiagnosticView,
            >(option_text(p)),
            Err(e) => mod_path_from(markers_view(attrs@), 0, None) == Err::<
                Option<Seq<char>>,
                DiagnosticView,
            >(e@),
        },
{
    let mut mod_path: Option<String> = None;
    let mut i: usize = 0;
    while i < attrs.len()
        invariant
            i <= attrs@.len(),
            mod_path_from(markers_view(attrs@), 0, None) == mod_path_from(
                markers_view(attrs@),
                i as int,
                option_text(mod_path),
            ),
        decreases attrs@.len() - i,
    {
        let attr: &Marker = &attrs[i];
        assert(markers_view(attrs@)[i as int] == attr@);
        if attr.path.is_ident(MOD_PATH) {
            match &attr.meta {
                None => {
                    return Err(
                        Diagnostic::new(ErrorKind::MalformedMarker, "Unable to parse marker"),
                    );
                },
                Some(Meta::NameValue(mod_path_value)) => {
                    let mod_path_str: String = get_lit_str(&mod_path_value.lit, MOD_PATH)?;
                    mod_path = Some(mod_path_str);
                },
                Some(_) => {
                    mod_path = None;
                },
            }
        }
        i = i + 1;
    }
    Ok(mod_path)
}

/// A name after the markers from `from` on, `value` being the name after the
/// markers before. Each marker whose path is `symbol` sets the name to the
/// string literal that the marker carries.
pub open spec fn override_from(
    attrs: Seq<MarkerView>,
    from: int,
    value: Seq<char>,
    symbol: Seq<char>,
    empty: Seq<char>,
    not_literal: Seq<char>,
    not_list: Seq<char>,
) -> Result<Seq<char>, DiagnosticView>
    decreases attrs.len() - from,
{
    if from < 0 || from >= attrs.len() {
        Ok(value)
    } else if attrs[from].path.is_ident(symbol) {
        match marker_string(attrs[from], symbol, empty, not_literal, not_list) {
            Ok(s) => override_from(attrs, from + 1, s, symbol, empty, not_literal, not_list),
            Err(e) => Err(e),
        }
    } else {
        override_from(attrs, from + 1, value, symbol, empty, not_literal, not_list)
    }
}

/// The name that the markers leave of `initial`: the last marker whose path is
/// `symbol` decides, and the first such marker that is no list with a string
/// literal in front fails.
pub fn get_override(
    attrs: &Vec<Marker>,
    initial: String,
    symbol: &str,
    empty: &str,
    not_literal: &str,
    not_list: &str,
) -> (r: Result<String, Diagnostic>)
    ensures
        result_view(r) == override_from(
            markers_view(attrs@),
            0,
            initial@,
            symbol@,
            empty@,
            not_literal@,
            not_list@,
        ),
{
    let mut value: String = initial;
    let mut i: usize = 0;
    while i < attrs.len()
        invariant
            i <= attrs@.len(),
            override_from(
                markers_view(attrs@),
                0,
                initial@,
                symbol@,
                empty@,
                not_literal@,
                not_list@,
            ) == override_from(
                markers_view(attrs@),
                i as int,
                value@,
                symbol@,
                empty@,
                not_literal@,
                not_list@,
            ),
        decreases attrs@.len() - i,
    {
        let attr: &Marker = &attrs[i];
        assert(markers_view(attrs@)[i as int] == attr@);
        if attr.path.is_ident(symbol) {
            value = get_marker_string(attr, symbol, empty, not_literal, not_list)?;
        }
        i = i + 1;
    }
    Ok(value)
}

} // verus!
