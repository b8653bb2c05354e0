//! The reader: for a declaration, which of the configured annotations its
//! markers carry, and the record of each.

use crate::codec::parse_meta;
use crate::declaration::{
    Data, DataView, DeriveInput, DeriveInputView, SynField, SynFields, SynFieldsView, SynFieldView,
};
use crate::enum_value::{snake_case, to_snake_case};
use crate::error::{diagnostic, Diagnostic, DiagnosticView, ErrorKind};
use crate::helper::{option_text, unparsed_marker};
use crate::number::{nat_text, nat_to_decimal};
use crate::registry::{Registry, RegistryView};
use crate::search::{
    collect, first_true, lemma_collect_err, lemma_collect_ok, lemma_first_true, present,
};
use crate::syntax::{markers_view, str_eq, Marker, MarkerView};
use crate::value::{Record, RecordView};
use vstd::prelude::*;

verus! {

/// One token of the text that a macro is called with, or that it generates.
#[derive(Debug, PartialEq)]
pub enum Token {
    Punct(char),
    Ident(String),
    Literal(String),
    OpenParenthesis,
    CloseParenthesis,
    OpenBracket,
    CloseBracket,
    OpenBrace,
    CloseBrace,
}

/// The mathematical model of a [`Token`].
pub enum TokenView {
    Punct(char),
    Ident(Seq<char>),
    Literal(Seq<char>),
    OpenParenthesis,
    CloseParenthesis,
    OpenBracket,
    CloseBracket,
    OpenBrace,
    CloseBrace,
}

impl View for Token {
    type V = TokenView;

    open spec fn view(&self) -> TokenView {
        match self {
            Token::Punct(c) => TokenView::Punct(*c),
            Token::Ident(s) => TokenView::Ident(s@),
            Token::Literal(s) => TokenView::Literal(s@),
            Token::OpenParenthesis => TokenView::OpenParenthesis,
            Token::CloseParenthesis => TokenView::CloseParenthesis,
            Token::OpenBracket => TokenView::OpenBracket,
            Token::CloseBracket => TokenView::CloseBracket,
            Token::OpenBrace => TokenView::OpenBrace,
            Token::CloseBrace => TokenView::CloseBrace,
        }
    }
}

/// The models of a list of tokens.
pub open spec fn tokens_view(tokens: Seq<Token>) -> Seq<TokenView> {
    Seq::new(tokens.len(), |i: int| tokens[i]@)
}

/// The token of a punctuation character.
fn punct(c: char) -> (t: Token)
    ensures
        t@ == TokenView::Punct(c),
{
    Token::Punct(c)
}

/// Appends one token.
fn push_token(tokens: &mut Vec<Token>, token: Token)
    ensures
        tokens_view(final(tokens)@) == tokens_view(old(tokens)@).push(token@),
{
    tokens.push(token);
    assert(tokens_view(tokens@) =~= tokens_view(old(tokens)@).push(token@));
}

/// A place in generated text where a value of the given name is filled in:
/// `#name`.
#[derive(Clone, Copy)]
pub struct Interpolated<'a>(pub &'a str);

impl<'a> View for Interpolated<'a> {
    type V = Seq<char>;

    open spec fn view(&self) -> Seq<char> {
        self.0@
    }
}

/// `tokens`, and after them the tokens of `#name`.
pub open spec fn with_interpolated(tokens: Seq<TokenView>, name: Seq<char>) -> Seq<TokenView> {
    tokens.push(TokenView::Punct('#')).push(TokenView::Ident(name))
}

impl<'a> Interpolated<'a> {
    /// The place for the value named `name`.
    pub fn new(name: &'a str) -> (i: Interpolated<'a>)
        ensures
            i@ == name@,
    {
        Interpolated(name)
    }

    /// Appends the tokens of the place: `#` and the name.
    pub fn to_tokens(&self, tokens: &mut Vec<Token>)
        ensures
            tokens_view(final(tokens)@) == with_interpolated(tokens_view(old(tokens)@), self@),
    {
        push_token(tokens, Token::Punct('#'));
        push_token(tokens, Token::Ident(String::from_str(self.0)));
    }
}

/// A place in generated text where each value of a list of the given name is
/// filled in, with a separator between them where one is given: `#(#name),*`.
#[derive(Clone, Copy)]
pub struct InterpolatedList<'a>(pub Interpolated<'a>, pub Option<char>);

/// The mathematical model of an [`InterpolatedList`].
pub struct InterpolatedListView {
    pub name: Seq<char>,
    pub punctuate: Option<char>,
}

impl<'a> View for InterpolatedList<'a> {
    type V = InterpolatedListView;

    open spec fn view(&self) -> InterpolatedListView {
        InterpolatedListView { name: self.0@, punctuate: self.1 }
    }
}

/// The tokens of `#(#name)`, the separator where there is one, and `*`.
pub open spec fn interpolated_list_tokens(list: InterpolatedListView) -> Seq<TokenView> {
    let group = with_interpolated(
        seq![TokenView::Punct('#'), TokenView::OpenParenthesis],
        list.name,
    ).push(TokenView::CloseParenthesis);
    match list.punctuate {
        Some(c) => group.push(TokenView::Punct(c)).push(TokenView::Punct('*')),
        None => group.push(TokenView::Punct('*')),
    }
}

impl<'a> InterpolatedList<'a> {
    /// The place for the values of the list named `name`, separated by
    /// `punctuate` where it is given.
    pub fn new(name: &'a str, punctuate: Option<char>) -> (l: InterpolatedList<'a>)
        ensures
            l@ == (InterpolatedListView { name: name@, punctuate }),
    {
        InterpolatedList(Interpolated(name), punctuate)
    }

    /// Appends the tokens of the place.
    pub fn to_tokens(&self, tokens: &mut Vec<Token>)
        ensures
            tokens_view(final(tokens)@) == tokens_view(old(tokens)@) + interpolated_list_tokens(
                self@,
            ),
    {
        let mut own: Vec<Token> = Vec::new();
        own.push(Token::Punct('#'));
        own.push(Token::OpenParenthesis);
        assert(tokens_view(own@) =~= seq![TokenView::Punct('#'), TokenView::OpenParenthesis]);
        self.0.to_tokens(&mut own);
        push_token(&mut own, Token::CloseParenthesis);
        match self.1 {
            Some(c) => {
                push_token(&mut own, punct(c));
            },
            None => {},
        }
        push_token(&mut own, Token::Punct('*'));
        let ghost added = tokens_view(own@);
        tokens.append(&mut own);
        assert(tokens_view(tokens@) =~= tokens_view(old(tokens)@) + added);
    }
}

/// The lower case form of a text.
pub uninterp spec fn lowercase(text: Seq<char>) -> Seq<char>;

/// The upper case form of a text.
pub uninterp spec fn uppercase(text: Seq<char>) -> Seq<char>;

/// `str::to_lowercase` of the standard library: each character replaced by its
/// lower case form. The result is named, not stated.
#[verifier::external_body]
fn to_lowercase(text: &str) -> (r: String)
    ensures
        r@ == lowercase(text@),
{
    text.to_lowercase()
}

/// `str::to_uppercase` of the standard library: each character replaced by its
/// upper case form. The result is named, not stated.
#[verifier::external_body]
fn to_uppercase(text: &str) -> (r: String)
    ensures
        r@ == uppercase(text@),
{
    text.to_uppercase()
}

/// The models of a list of names.
pub open spec fn names_view(names: Seq<String>) -> Seq<Seq<char>> {
    Seq::new(names.len(), |i: int| names[i]@)
}

/// For each name of a list, whether it is `name`.
pub open spec fn name_flags(names: Seq<Seq<char>>, name: Seq<char>) -> Seq<bool> {
    Seq::new(names.len(), |i: int| names[i] == name)
}

/// Whether a list of names holds `name`.
pub open spec fn has_name(names: Seq<Seq<char>>, name: Seq<char>) -> bool {
    first_true(name_flags(names, name)) < names.len()
}

/// The first `upto` names without repetition, each where it first occurs.
pub open spec fn unique_names(names: Seq<Seq<char>>, upto: int) -> Seq<Seq<char>>
    decreases upto,
{
    if upto <= 0 {
        Seq::empty()
    } else {
        let before = unique_names(names, upto - 1);
        if has_name(before, names[upto - 1]) {
            before
        } else {
            before.push(names[upto - 1])
        }
    }
}

/// Whether a list of names holds `name`.
pub fn contains_name(names: &Vec<String>, name: &str) -> (b: bool)
    ensures
        b == has_name(names_view(names@), name@),
{
    let ghost flags = name_flags(names_view(names@), name@);
    let mut i: usize = 0;
    while i < names.len()
        invariant
            i <= names@.len(),
            flags == name_flags(names_view(names@), name@),
            forall|k: int| 0 <= k < i ==> !flags[k],
        decreases names@.len() - i,
    {
        if str_eq(names[i].as_str(), name) {
            proof {
                lemma_first_true(flags, i as int);
            }
            return true;
        }
        i = i + 1;
    }
    proof {
        lemma_first_true(flags, i as int);
    }
    false
}

/// A copy of a list of names.
pub fn idents_to_vec(idents: &Vec<String>) -> (r: Vec<String>)
    ensures
        names_view(r@) == names_view(idents@),
{
    let mut r: Vec<String> = Vec::new();
    let mut i: usize = 0;
    while i < idents.len()
        invariant
            i <= idents@.len(),
            r@.len() == i,
            forall|k: int| 0 <= k < i ==> (#[trigger] r@[k])@ == idents@[k]@,
        decreases idents@.len() - i,
    {
        r.push(idents[i].clone());
        i = i + 1;
    }
    assert(names_view(r@) =~= names_view(idents@));
    r
}

/// The name of the accessor of an annotation: `__attr_`, then the lower case
/// of the member's name and `_` where the annotation is a member's, then the
/// snake case of the annotation's name.
pub open spec fn accessor_name(prefix: Option<Seq<char>>, annotation: Seq<char>) -> Seq<char> {
    match prefix {
        Some(p) => "__attr_"@ + lowercase(p) + "_"@ + snake_case(annotation),
        None => "__attr_"@ + snake_case(annotation),
    }
}

/// The name of the table of the annotations that are present: `ATTRIBUTE_MAP`,
/// after the upper case of the member's name and `_` where the table is a
/// member's.
pub open spec fn map_name(prefix: Option<Seq<char>>) -> Seq<char> {
    match prefix {
        Some(p) => uppercase(p) + "_"@ + "ATTRIBUTE_MAP"@,
        None => "ATTRIBUTE_MAP"@,
    }
}

/// Builds the name of an accessor.
fn make_accessor_name(prefix: &Option<String>, annotation: &str) -> (r: String)
    ensures
        r@ == accessor_name(option_text(*prefix), annotation@),
{
    let snake: String = to_snake_case(annotation);
    match prefix {
        Some(p) => {
            let lower: String = to_lowercase(p.as_str());
            String::from_str("__attr_").concat(lower.as_str()).concat("_").concat(snake.as_str())
        },
        None => String::from_str("__attr_").concat(snake.as_str()),
    }
}

/// Builds the name of a table.
fn make_map_name(prefix: &Option<String>) -> (r: String)
    ensures
        r@ == map_name(option_text(*prefix)),
{
    match prefix {
        Some(p) => to_uppercase(p.as_str()).concat("_").concat("ATTRIBUTE_MAP"),
        None => String::from_str("ATTRIBUTE_MAP"),
    }
}

/// The accessor of one annotation that a marker carries: its name, the name of
/// the annotation, and the record that the marker parsed to.
#[derive(Debug, PartialEq)]
pub struct Accessor {
    pub name: String,
    pub annotation: String,
    pub value: Record,
}

/// The mathematical model of an [`Accessor`].
pub struct AccessorView {
    pub name: Seq<char>,
    pub annotation: Seq<char>,
    pub value: RecordView,
}

impl View for Accessor {
    type V = AccessorView;

    open spec fn view(&self) -> AccessorView {
        AccessorView { name: self.name@, annotation: self.annotation@, value: self.value@ }
    }
}

/// What the markers of a declaration or of one of its members gave: the
/// table's name, the names of the annotations that are present, without
/// repetition, and the accessors in the order of the markers.
#[derive(Debug, PartialEq)]
pub struct AnnotationMap {
    pub name: String,
    pub present: Vec<String>,
    pub accessors: Vec<Accessor>,
}

/// The mathematical model of an [`AnnotationMap`].
pub struct AnnotationMapView {
    pub name: Seq<char>,
    pub present: Seq<Seq<char>>,
    pub accessors: Seq<AccessorView>,
}

/// The models of a list of accessors.
pub open spec fn accessors_view(accessors: Seq<Accessor>) -> Seq<AccessorView> {
    Seq::new(accessors.len(), |i: int| accessors[i]@)
}

impl View for AnnotationMap {
    type V = AnnotationMapView;

    open spec fn view(&self) -> AnnotationMapView {
        AnnotationMapView {
            name: self.name@,
            present: names_view(self.present@),
            accessors: accessors_view(self.accessors@),
        }
    }
}

/// For each configured annotation, whether the registry holds it and the
/// marker's path is the annotation's path.
pub open spec fn kind_flags(
    reg: RegistryView,
    kinds: Seq<Seq<char>>,
    marker: MarkerView,
) -> Seq<bool> {
    Seq::new(
        kinds.len(),
        |k: int|
            match reg.find_annotation(kinds[k]) {
                Some(annotation) => marker.path.is_ident(annotation.path),
                None => false,
            },
    )
}

/// What one marker gives: nothing where its path is that of no configured
/// annotation; the accessor of the first configured annotation whose path it
/// is, where it parses as that annotation; and the error where it does not.
pub open spec fn read_marker(
    reg: RegistryView,
    kinds: Seq<Seq<char>>,
    prefix: Option<Seq<char>>,
    marker: MarkerView,
) -> Result<Option<AccessorView>, DiagnosticView> {
    let k = first_true(kind_flags(reg, kinds, marker));
    if k >= kinds.len() {
        Ok(None)
    } else {
        match marker.meta {
            None => Err(unparsed_marker()),
            Some(meta) => match parse_meta(reg, reg.find_annotation(kinds[k])->Some_0, meta) {
                Ok(record) => Ok(
                    Some(
                        AccessorView {
                            name: accessor_name(prefix, kinds[k]),
                            annotation: kinds[k],
                            value: record,
                        },
                    ),
                ),
                Err(e) => Err(e),
            },
        }
    }
}

/// For each marker, what it gives.
pub open spec fn marker_results(
    reg: RegistryView,
    kinds: Seq<Seq<char>>,
    prefix: Option<Seq<char>>,
    markers: Seq<MarkerView>,
) -> Seq<Result<Option<AccessorView>, DiagnosticView>> {
    Seq::new(markers.len(), |i: int| read_marker(reg, kinds, prefix, markers[i]))
}

/// The names of the annotations of a list of accessors.
pub open spec fn annotation_names(accessors: Seq<AccessorView>) -> Seq<Seq<char>> {
    Seq::new(accessors.len(), |i: int| accessors[i].annotation)
}

/// What the markers of a declaration or a member give: the accessors of the
/// markers that carry a configured annotation, in the markers' order, and the
/// names of those annotations without repetition. Other markers are passed
/// over. The first marker that does not parse as its annotation decides the
/// error.
pub open spec fn read_markers(
    reg: RegistryView,
    kinds: Seq<Seq<char>>,
    prefix: Option<Seq<char>>,
    markers: Seq<MarkerView>,
) -> Result<AnnotationMapView, DiagnosticView> {
    match collect(marker_results(reg, kinds, prefix, markers)) {
        Err(e) => Err(e),
        Ok(found) => {
            let accessors = present(found, found.len() as int);
            let names = annotation_names(accessors);
            Ok(
                AnnotationMapView {
                    name: map_name(prefix),
                    present: unique_names(names, names.len() as int),
                    accessors,
                },
            )
        },
    }
}

/// The name of a member: a field's name, or its position in decimal digits
/// where it has none.
pub open spec fn field_name(field: SynFieldView, index: int) -> Seq<char> {
    match field.ident {
        Some(ident) => ident,
        None => nat_text(index as nat),
    }
}

/// The fields of a declaration as members, each with its name and its markers.
pub open spec fn field_members(fields: Seq<SynFieldView>) -> Seq<(Seq<char>, Seq<MarkerView>)> {
    Seq::new(fields.len(), |i: int| (field_name(fields[i], i), fields[i].attrs))
}

/// The members of a declaration, each with its name and its markers: the
/// fields of a struct or a union, the variants of an enum.
pub open spec fn members(input: DeriveInputView) -> Seq<(Seq<char>, Seq<MarkerView>)> {
    match input.data {
        DataView::Struct(SynFieldsView::Named(fields)) => field_members(fields),
        DataView::Struct(SynFieldsView::Unnamed(fields)) => field_members(fields),
        DataView::Struct(SynFieldsView::Unit) => Seq::empty(),
        DataView::Enum(variants) => Seq::new(
            variants.len(),
            |i: int| (variants[i].ident, variants[i].attrs),
        ),
        DataView::Union(fields) => field_members(fields),
    }
}

/// What a reader gives for a declaration.
#[derive(Debug, PartialEq)]
pub struct Reader {
    /// The name of the declaration.
    pub ident: String,
    /// What the declaration's own markers gave.
    pub declaration: AnnotationMap,
    /// What the markers of each member gave, in declaration order.
    pub members: Vec<AnnotationMap>,
}

/// The mathematical model of a [`Reader`].
pub struct ReaderView {
    pub ident: Seq<char>,
    pub declaration: AnnotationMapView,
    pub members: Seq<AnnotationMapView>,
}

/// The models of a list of tables.
pub open spec fn maps_view(maps: Seq<AnnotationMap>) -> Seq<AnnotationMapView> {
    Seq::new(maps.len(), |i: int| maps[i]@)
}

impl View for Reader {
    type V = ReaderView;

    open spec fn view(&self) -> ReaderView {
        ReaderView {
            ident: self.ident@,
            declaration: self.declaration@,
            members: maps_view(self.members@),
        }
    }
}

/// The configuration of a reader: its name, the annotations that it reads
/// from a declaration's own markers, and those that it reads from the markers
/// of the declaration's members.
#[derive(Debug, PartialEq)]
pub struct ReaderConfig {
    pub name: String,
    pub annotation_idents: Vec<String>,
    pub field_attr_idents: Vec<String>,
}

/// The mathematical model of a [`ReaderConfig`].
pub struct ReaderConfigView {
    pub name: Seq<char>,
    pub annotation_idents: Seq<Seq<char>>,
    pub field_attr_idents: Seq<Seq<char>>,
}

impl View for ReaderConfig {
    type V = ReaderConfigView;

    open spec fn view(&self) -> ReaderConfigView {
        ReaderConfigView {
            name: self.name@,
            annotation_idents: names_view(self.annotation_idents@),
            field_attr_idents: names_view(self.field_attr_idents@),
        }
    }
}

impl ReaderConfigView {
    /// The names of all the annotations that the reader reads, without
    /// repetition: those of the declaration first.
    pub open spec fn get_annotation(self) -> Seq<Seq<char>> {
        let all = self.annotation_idents + self.field_attr_idents;
        unique_names(all, all.len() as int)
    }

    /// The name of the function that the reader is: `derive_` and the snake
    /// case of its name.
    pub open spec fn fn_name(self) -> Seq<char> {
        "derive_"@ + snake_case(self.name)
    }

    /// For each member, what its markers give.
    pub open spec fn member_results(self, reg: RegistryView, input: DeriveInputView) -> Seq<
        Result<AnnotationMapView, DiagnosticView>,
    > {
        Seq::new(
            members(input).len(),
            |i: int|
                read_markers(
                    reg,
                    self.field_attr_idents,
                    Some(members(input)[i].0),
                    members(input)[i].1,
                ),
        )
    }

    /// What the reader gives for a declaration: what the declaration's own
    /// markers give for the annotations of the declaration, and what the
    /// markers of each member give for the annotations of members. The first
    /// error ends the reading.
    pub open spec fn get_reader(self, reg: RegistryView, input: DeriveInputView) -> Result<
        ReaderView,
        DiagnosticView,
    > {
        match read_markers(reg, self.annotation_idents, None, input.attrs) {
            Err(e) => Err(e),
            Ok(declaration) => match collect(self.member_results(reg, input)) {
                Err(e) => Err(e),
                Ok(members) => Ok(ReaderView { ident: input.ident, declaration, members }),
            },
        }
    }
}

/// Appends the names of `names` that `unique` does not hold yet.
fn extend_unique(
    unique: &mut Vec<String>,
    names: &Vec<String>,
    Ghost(all): Ghost<Seq<Seq<char>>>,
    Ghost(done): Ghost<int>,
)
    requires
        0 <= done,
        done + names@.len() <= all.len(),
        forall|k: int| 0 <= k < names@.len() ==> all[done + k] == (#[trigger] names@[k])@,
        names_view(old(unique)@) == unique_names(all, done),
    ensures
        names_view(final(unique)@) == unique_names(all, done + names@.len()),
{
    let mut i: usize = 0;
    while i < names.len()
        invariant
            i <= names@.len(),
            0 <= done,
            done + names@.len() <= all.len(),
            forall|k: int| 0 <= k < names@.len() ==> all[done + k] == (#[trigger] names@[k])@,
            names_view(unique@) == unique_names(all, done + i),
        decreases names@.len() - i,
    {
        let ghost before = names_view(unique@);
        if !contains_name(unique, names[i].as_str()) {
            unique.push(names[i].clone());
            assert(names_view(unique@) =~= before.push(names@[i as int]@));
        }
        i = i + 1;
    }
}

/// Reads what one marker gives.
fn read_marker_of(
    registry: &Registry,
    kinds: &Vec<String>,
    prefix: &Option<String>,
    marker: &Marker,
) -> (r: Result<Option<Accessor>, Diagnostic>)
    ensures
        match r {
            Ok(Some(a)) => read_marker(
                registry@,
                names_view(kinds@),
                option_text(*prefix),
                marker@,
            ) == Ok::<Option<AccessorView>, DiagnosticView>(Some(a@)),
            Ok(None) => read_marker(registry@, names_view(kinds@), option_text(*prefix), marker@)
                == Ok::<Option<AccessorView>, DiagnosticView>(None),
            Err(e) => read_marker(registry@, names_view(kinds@), option_text(*prefix), marker@)
                == Err::<Option<AccessorView>, DiagnosticView>(e@),
        },
{
    let ghost flags = kind_flags(registry@, names_view(kinds@), marker@);
    let mut k: usize = 0;
    while k < kinds.len()
        invariant
            k <= kinds@.len(),
            flags == kind_flags(registry@, names_view(kinds@), marker@),
            forall|m: int| 0 <= m < k ==> !flags[m],
        decreases kinds@.len() - k,
    {
        match registry.find_annotation(kinds[k].as_str()) {
            Some(annotation) => {
                if marker.path.is_ident(annotation.path.as_str()) {
                    proof {
                        lemma_first_true(flags, k as int);
                    }
                    return match &marker.meta {
                        None => Err(
                            Diagnostic::new(ErrorKind::MalformedMarker, "Unable to parse marker"),
                        ),
                        Some(meta) => {
                            let value: Record = annotation.from_meta(registry, meta)?;
                            Ok(
                                Some(
                                    Accessor {
                                        name: make_accessor_name(prefix, kinds[k].as_str()),
                                        annotation: kinds[k].clone(),
                                        value,
                                    },
                                ),
                            )
                        },
                    };
                }
            },
            None => {},
        }
        k = k + 1;
    }
    proof {
        lemma_first_true(flags, k as int);
    }
    Ok(None)
}

impl ReaderConfig {
    /// The names of all the annotations that the reader reads, without
    /// repetition: those of the declaration first, each where it first occurs.
    pub fn get_annotation(&self) -> (r: Vec<String>)
        ensures
            names_view(r@) == self@.get_annotation(),
    {
        let ghost all = self@.annotation_idents + self@.field_attr_idents;
        let mut unique: Vec<String> = Vec::new();
        assert(names_view(unique@) =~= unique_names(all, 0));
        extend_unique(&mut unique, &self.annotation_idents, Ghost(all), Ghost(0));
        extend_unique(
            &mut unique,
            &self.field_attr_idents,
            Ghost(all),
            Ghost(self.annotation_idents@.len() as int),
        );
        unique
    }

    /// The name of the function that the reader is.
    pub fn get_fn_name(&self) -> (r: String)
        ensures
            r@ == self@.fn_name(),
    {
        String::from_str("derive_").concat(to_snake_case(self.name.as_str()).as_str())
    }

    /// Reads the markers of a declaration or of one of its members against the
    /// annotations `kinds`. `prefix` is the member's name, or none for the
    /// declaration itself.
    #[verifier::rlimit(40)]
    fn annotation_reader_token_stream(
        registry: &Registry,
        kinds: &Vec<String>,
        prefix: Option<String>,
        markers: &Vec<Marker>,
    ) -> (r: Result<AnnotationMap, Diagnostic>)
        ensures
            match r {
                Ok(map) => read_markers(
                    registry@,
                    names_view(kinds@),
                    option_text(prefix),
                    markers_view(markers@),
                ) == Ok::<AnnotationMapView, DiagnosticView>(map@),
                Err(e) => read_markers(
                    registry@,
                    names_view(kinds@),
                    option_text(prefix),
                    markers_view(markers@),
                ) == Err::<AnnotationMapView, DiagnosticView>(e@),
            },
    {
        let ghost views = markers_view(markers@);
        let ghost results = marker_results(
            registry@,
            names_view(kinds@),
            option_text(prefix),
            views,
        );
        let ghost mut found: Seq<Option<AccessorView>> = Seq::empty();
        let mut accessors: Vec<Accessor> = Vec::new();
        let mut i: usize = 0;
        assert(accessors_view(accessors@) =~= present(found, 0));
        while i < markers.len()
            invariant
                i <= markers@.len(),
                found.len() == i,
                views == markers_view(markers@),
                results == marker_results(
                    registry@,
                    names_view(kinds@),
                    option_text(prefix),
                    views,
                ),
                forall|k: int|
                    0 <= k < i ==> (#[trigger] results[k]) == Ok::<
                        Option<AccessorView>,
                        DiagnosticView,
                    >(found[k]),
                accessors_view(accessors@) == present(found, i as int),
            decreases markers@.len() - i,
        {
            assert(views[i as int] == markers@[i as int]@);
            let ghost before = accessors_view(accessors@);
            match read_marker_of(registry, kinds, &prefix, &markers[i]) {
                Ok(Some(accessor)) => {
                    proof {
                        let longer = found.push(Some(accessor@));
                        lemma_present_unchanged(found, longer, i as int);
                        found = longer;
                    }
                    accessors.push(accessor);
                    assert(accessors_view(accessors@) =~= before.push(accessor@));
                },
                Ok(None) => {
                    proof {
                        let longer = found.push(None);
                        lemma_present_unchanged(found, longer, i as int);
                        found = longer;
                    }
                },
                Err(e) => {
                    proof {
                        lemma_collect_err(results, i as int);
                    }
                    return Err(e);
                },
            }
            i = i + 1;
        }
        proof {
            lemma_collect_ok(results, found);
        }
        let ghost names = annotation_names(accessors_view(accessors@));
        let mut present_names: Vec<String> = Vec::new();
        let mut j: usize = 0;
        assert(names_view(present_names@) =~= unique_names(names, 0));
        while j < accessors.len()
            invariant
                j <= accessors@.len(),
                names == annotation_names(accessors_view(accessors@)),
                names_view(present_names@) == unique_names(names, j as int),
            decreases accessors@.len() - j,
        {
            let ghost before = names_view(present_names@);
            assert(names[j as int] == accessors@[j as int].annotation@);
            if !contains_name(&present_names, accessors[j].annotation.as_str()) {
                present_names.push(accessors[j].annotation.clone());
                assert(names_view(present_names@) =~= before.push(names[j as int]));
            }
            j = j + 1;
        }
        Ok(AnnotationMap { name: make_map_name(&prefix), present: present_names, accessors })
    }

    /// Reads the markers of each member of a declaration.
    fn read_field_annotations_token_stream(&self, registry: &Registry, input: &DeriveInput) -> (r:
        Result<Vec<AnnotationMap>, Diagnostic>)
        ensures
            match r {
                Ok(maps) => collect(self@.member_results(registry@, input@)) == Ok::<
                    Seq<AnnotationMapView>,
                    DiagnosticView,
                >(maps_view(maps@)),
                Err(e) => collect(self@.member_results(registry@, input@)) == Err::<
                    Seq<AnnotationMapView>,
                    DiagnosticView,
                >(e@),
            },
    {
        let ghost results = self@.member_results(registry@, input@);
        let n: usize = member_count(input);
        let mut maps: Vec<AnnotationMap> = Vec::new();
        let mut i: usize = 0;
        while i < n
            invariant
                i <= n,
                n == members(input@).len(),
                maps@.len() == i,
                results == self@.member_results(registry@, input@),
                forall|k: int|
                    0 <= k < i ==> (#[trigger] results[k]) == Ok::<
                        AnnotationMapView,
                        DiagnosticView,
                    >(maps@[k]@),
            decreases n - i,
        {
            let (name, attrs) = member_at(input, i);
            match Self::annotation_reader_token_stream(
                registry,
                &self.field_attr_idents,
                Some(name),
                attrs,
            ) {
                Ok(map) => {
                    maps.push(map);
                },
                Err(e) => {
                    proof {
                        lemma_collect_err(results, i as int);
                    }
                    return Err(e);
                },
            }
            i = i + 1;
        }
        proof {
            lemma_collect_ok(results, maps_view(maps@));
        }
        Ok(maps)
    }

    /// Reads a declaration: its own markers against the annotations of the
    /// declaration, and the markers of each of its members against the
    /// annotations of members. Markers that carry no configured annotation are
    /// passed over; the first marker that does not parse as its annotation ends
    /// the reading with its error.
    pub fn get_reader(&self, registry: &Registry, input: &DeriveInput) -> (r: Result<
        Reader,
        Diagnostic,
    >)
        ensures
            match r {
                Ok(reader) => self@.get_reader(registry@, input@) == Ok::<
                    ReaderView,
                    DiagnosticView,
                >(reader@),
                Err(e) => self@.get_reader(registry@, input@) == Err::<ReaderView, DiagnosticView>(
                    e@,
                ),
            },
    {
        let declaration: AnnotationMap = Self::annotation_reader_token_stream(
            registry,
            &self.annotation_idents,
            None,
            &input.attrs,
        )?;
        let members: Vec<AnnotationMap> = self.read_field_annotations_token_stream(
            registry,
            input,
        )?;
        Ok(Reader { ident: input.ident.clone(), declaration, members })
    }
}

/// The items that are there among the first `upto` do not depend on the items
/// that follow.
proof fn lemma_present_unchanged<T>(items: Seq<Option<T>>, longer: Seq<Option<T>>, upto: int)
    requires
        0 <= upto <= items.len() <= longer.len(),
        forall|k: int| 0 <= k < items.len() ==> items[k] == longer[k],
    ensures
        present(items, upto) == present(longer, upto),
    decreases upto,
{
    if upto > 0 {
        lemma_present_unchanged(items, longer, upto - 1);
    }
}

/// The number of members of a declaration.
fn member_count(input: &DeriveInput) -> (n: usize)
    ensures
        n == members(input@).len(),
{
    match &input.data {
        Data::Struct(SynFields::Named(fields)) => fields.len(),
        Data::Struct(SynFields::Unnamed(fields)) => fields.len(),
        Data::Struct(SynFields::Unit) => 0,
        Data::Enum(variants) => variants.len(),
        Data::Union(fields) => fields.len(),
    }
}

/// The name and the markers of a field at `index`.
fn field_member(field: &SynField, index: usize) -> (r: (String, &Vec<Marker>))
    ensures
        r.0@ == field_name(field@, index as int),
        *r.1 == field.attrs,
{
    let name: String = match &field.ident {
        Some(ident) => ident.clone(),
        None => nat_to_decimal(index as u128),
    };
    (name, &field.attrs)
}

/// The name and the markers of the member at `index`.
fn member_at(input: &DeriveInput, index: usize) -> (r: (String, &Vec<Marker>))
    requires
        index < members(input@).len(),
    ensures
        r.0@ == members(input@)[index as int].0,
        markers_view(r.1@) == members(input@)[index as int].1,
{
    match &input.data {
        Data::Struct(SynFields::Named(fields)) => field_member(&fields[index], index),
        Data::Struct(SynFields::Unnamed(fields)) => field_member(&fields[index], index),
        Data::Struct(SynFields::Unit) => vstd::pervasive::unreached(),
        Data::Enum(variants) => (variants[index].ident.clone(), &variants[index].attrs),
        Data::Union(fields) => field_member(&fields[index], index),
    }
}

/// A question to a reader: whether the class `class`, or its member
/// `property`, carries the annotation `annotation`.
#[derive(Debug, PartialEq)]
pub struct GetAnnotationParam {
    pub class: String,
    pub annotation: String,
    pub property: Option<String>,
}

/// The mathematical model of a [`GetAnnotationParam`].
pub struct GetAnnotationParamView {
    pub class: Seq<char>,
    pub annotation: Seq<char>,
    pub property: Option<Seq<char>>,
}

impl View for GetAnnotationParam {
    type V = GetAnnotationParamView;

    open spec fn view(&self) -> GetAnnotationParamView {
        GetAnnotationParamView {
            class: self.class@,
            annotation: self.annotation@,
            property: option_text(self.property),
        }
    }
}

impl ReaderView {
    /// The tables of the reader: the declaration's, then the members'.
    pub open spec fn maps(self) -> Seq<AnnotationMapView> {
        seq![self.declaration] + self.members
    }
}

impl GetAnnotationParamView {
    /// For each table of the reader, whether it is the one that is asked: its
    /// name is that of the table of the property.
    pub open spec fn map_flags(self, reader: ReaderView) -> Seq<bool> {
        Seq::new(reader.maps().len(), |i: int| reader.maps()[i].name == map_name(self.property))
    }

    /// The table that is asked: the first of that name, where the reader is
    /// that of the class.
    pub open spec fn map(self, reader: ReaderView) -> Option<AnnotationMapView> {
        let at = first_true(self.map_flags(reader));
        if reader.ident == self.class && at < reader.maps().len() {
            Some(reader.maps()[at])
        } else {
            None
        }
    }

    /// Whether the annotation is present.
    pub open spec fn has_annotation(self, reader: ReaderView) -> bool {
        match self.map(reader) {
            Some(map) => has_name(map.present, self.annotation),
            None => false,
        }
    }

    /// For each accessor of a table, whether it is the one that is asked.
    pub open spec fn accessor_flags(self, map: AnnotationMapView) -> Seq<bool> {
        Seq::new(
            map.accessors.len(),
            |i: int| map.accessors[i].name == accessor_name(self.property, self.annotation),
        )
    }

    /// The record of the annotation, where it is present: that of the first
    /// accessor of the annotation's accessor name.
    pub open spec fn get_annotation(self, reader: ReaderView) -> Option<RecordView> {
        if self.has_annotation(reader) {
            let map = self.map(reader)->Some_0;
            let at = first_true(self.accessor_flags(map));
            if at < map.accessors.len() {
                Some(map.accessors[at].value)
            } else {
                None
            }
        } else {
            None
        }
    }
}

impl GetAnnotationParam {
    /// The table that is asked.
    fn find_map<'a>(&self, reader: &'a Reader) -> (r: Option<&'a AnnotationMap>)
        ensures
            match r {
                Some(map) => self@.map(reader@) == Some(map@),
                None => self@.map(reader@) is None,
            },
    {
        if !str_eq(reader.ident.as_str(), self.class.as_str()) {
            return None;
        }
        let name: String = make_map_name(&self.property);
        let ghost flags = self@.map_flags(reader@);
        if str_eq(reader.declaration.name.as_str(), name.as_str()) {
            proof {
                lemma_first_true(flags, 0);
            }
            return Some(&reader.declaration);
        }
        let mut i: usize = 0;
        while i < reader.members.len()
            invariant
                i <= reader.members@.len(),
                flags == self@.map_flags(reader@),
                flags.len() == reader.members@.len() + 1,
                name@ == map_name(self@.property),
                reader@.ident == self@.class,
                forall|k: int| 0 <= k < i + 1 ==> !flags[k],
            decreases reader.members@.len() - i,
        {
            assert(reader@.maps()[i + 1] == reader.members@[i as int]@);
            if str_eq(reader.members[i].name.as_str(), name.as_str()) {
                proof {
                    lemma_first_true(flags, i + 1);
                }
                return Some(&reader.members[i]);
            }
            i = i + 1;
        }
        proof {
            lemma_first_true(flags, i + 1);
        }
        None
    }

    /// Whether the class, or its member, carries the annotation: the table of
    /// the class or of the member holds the annotation's name.
    pub fn has_annotation(&self, reader: &Reader) -> (b: bool)
        ensures
            b == self@.has_annotation(reader@),
    {
        match self.find_map(reader) {
            Some(map) => contains_name(&map.present, self.annotation.as_str()),
            None => false,
        }
    }

    /// The record of the annotation that the class, or its member, carries, or
    /// none where it carries no such annotation.
    pub fn get_annotation<'a>(&self, reader: &'a Reader) -> (r: Option<&'a Record>)
        ensures
            match r {
                Some(record) => self@.get_annotation(reader@) == Some(record@),
                None => self@.get_annotation(reader@) is None,
            },
    {
        match self.find_map(reader) {
            Some(map) => {
                if !contains_name(&map.present, self.annotation.as_str()) {
                    return None;
                }
                let name: String = make_accessor_name(&self.property, self.annotation.as_str());
                let ghost flags = self@.accessor_flags(map@);
                let mut i: usize = 0;
                while i < map.accessors.len()
                    invariant
                        i <= map.accessors@.len(),
                        flags == self@.accessor_flags(map@),
                        self@.map(reader@) == Some(map@),
                        has_name(map@.present, self@.annotation),
                        name@ == accessor_name(self@.property, self@.annotation),
                        forall|k: int| 0 <= k < i ==> !flags[k],
                    decreases map.accessors@.len() - i,
                {
                    if str_eq(map.accessors[i].name.as_str(), name.as_str()) {
                        proof {
                            lemma_first_true(flags, i as int);
                        }
                        return Some(&map.accessors[i].value);
                    }
                    i = i + 1;
                }
                proof {
                    lemma_first_true(flags, i as int);
                }
                None
            },
            None => None,
        }
    }
}

/// The diagnostic for tokens that are not of a macro's grammar.
pub open spec fn input_error(message: Seq<char>) -> DiagnosticView {
    diagnostic(ErrorKind::MalformedInput, message)
}

/// Whether the token at `at` is a comma.
pub open spec fn is_comma(tokens: Seq<TokenView>, at: int) -> bool {
    0 <= at < tokens.len() && tokens[at] == TokenView::Punct(',')
}

/// The identifier that the token at `at` is.
pub open spec fn ident_at(tokens: Seq<TokenView>, at: int) -> Option<Seq<char>> {
    if 0 <= at < tokens.len() {
        match tokens[at] {
            TokenView::Ident(name) => Some(name),
            _ => None,
        }
    } else {
        None
    }
}

/// The identifiers of a list in brackets and the place after its closing
/// bracket, read from `from` on, `idents` being those read before. The
/// identifiers are separated by commas, and a comma may follow the last.
pub open spec fn ident_list(tokens: Seq<TokenView>, from: int, idents: Seq<Seq<char>>) -> Result<
    (Seq<Seq<char>>, int),
    DiagnosticView,
>
    decreases tokens.len() - from,
{
    if from < 0 || from >= tokens.len() {
        Err(input_error("expected `]`"@))
    } else {
        match tokens[from] {
            TokenView::CloseBracket => Ok((idents, from + 1)),
            TokenView::Ident(name) => if is_comma(tokens, from + 1) {
                ident_list(tokens, from + 2, idents.push(name))
            } else if from + 1 < tokens.len() && tokens[from + 1] is CloseBracket {
                Ok((idents.push(name), from + 2))
            } else {
                Err(input_error("expected `,`"@))
            },
            _ => Err(input_error("expected identifier"@)),
        }
    }
}

/// The identifiers of the list in brackets that begins at `from`, and the
/// place after its closing bracket.
pub open spec fn bracketed_idents(tokens: Seq<TokenView>, from: int) -> Result<
    (Seq<Seq<char>>, int),
    DiagnosticView,
> {
    if 0 <= from < tokens.len() && tokens[from] is OpenBracket {
        ident_list(tokens, from + 1, Seq::empty())
    } else {
        Err(input_error("must inside a bracket"@))
    }
}

/// The configuration that the tokens `name, [idents]` or
/// `name, [idents], [idents]` give: the reader's name, the annotations of
/// declarations, and those of members where the second list is there.
pub open spec fn reader_config_parse(tokens: Seq<TokenView>) -> Result<
    ReaderConfigView,
    DiagnosticView,
> {
    match ident_at(tokens, 0) {
        None => Err(input_error("expected identifier"@)),
        Some(name) => if !is_comma(tokens, 1) {
            Err(input_error("expected `,`"@))
        } else {
            match bracketed_idents(tokens, 2) {
                Err(e) => Err(e),
                Ok((annotation_idents, next)) => if is_comma(tokens, next) {
                    match bracketed_idents(tokens, next + 1) {
                        Err(e) => Err(e),
                        Ok((field_attr_idents, end)) => if end == tokens.len() {
                            Ok(ReaderConfigView { name, annotation_idents, field_attr_idents })
                        } else {
                            Err(input_error("unexpected token"@))
                        },
                    }
                } else if next == tokens.len() {
                    Ok(
                        ReaderConfigView {
                            name,
                            annotation_idents,
                            field_attr_idents: Seq::empty(),
                        },
                    )
                } else {
                    Err(input_error("unexpected token"@))
                },
            }
        },
    }
}

/// The question that the tokens `class, annotation` or
/// `class, annotation, property` give.
pub open spec fn get_annotation_param_parse(tokens: Seq<TokenView>) -> Result<
    GetAnnotationParamView,
    DiagnosticView,
> {
    match ident_at(tokens, 0) {
        None => Err(input_error("expected identifier"@)),
        Some(class) => if !is_comma(tokens, 1) {
            Err(input_error("expected `,`"@))
        } else {
            match ident_at(tokens, 2) {
                None => Err(input_error("expected identifier"@)),
                Some(annotation) => {
                    let property = if is_comma(tokens, 3) {
                        ident_at(tokens, 4)
                    } else {
                        None
                    };
                    let end: int = if !is_comma(tokens, 3) {
                        3
                    } else if property is Some {
                        5
                    } else {
                        4
                    };
                    if end == tokens.len() {
                        Ok(GetAnnotationParamView { class, annotation, property })
                    } else {
                        Err(input_error("unexpected token"@))
                    }
                },
            }
        },
    }
}

/// Builds the diagnostic for tokens that are not of a macro's grammar.
fn make_input_error(message: &str) -> (d: Diagnostic)
    ensures
        d@ == input_error(message@),
{
    Diagnostic::new(ErrorKind::MalformedInput, message)
}

/// Whether the token at `at` is a comma.
fn comma_at(tokens: &Vec<Token>, at: usize) -> (b: bool)
    ensures
        b == is_comma(tokens_view(tokens@), at as int),
        b ==> at < tokens@.len(),
{
    if at < tokens.len() {
        match &tokens[at] {
            Token::Punct(c) => *c == ',',
            _ => false,
        }
    } else {
        false
    }
}

/// The identifier that the token at `at` is.
fn get_ident_at(tokens: &Vec<Token>, at: usize) -> (r: Option<String>)
    ensures
        option_text(r) == ident_at(tokens_view(tokens@), at as int),
{
    if at < tokens.len() {
        match &tokens[at] {
            Token::Ident(name) => Some(name.clone()),
            _ => None,
        }
    } else {
        None
    }
}

/// Reads the identifiers of the list in brackets that begins at `from`.
fn parse_punctuated_inside_bracket(tokens: &Vec<Token>, from: usize) -> (r: Result<
    (Vec<String>, usize),
    Diagnostic,
>)
    ensures
        match r {
            Ok((idents, next)) => bracketed_idents(tokens_view(tokens@), from as int) == Ok::<
                (Seq<Seq<char>>, int),
                DiagnosticView,
            >((names_view(idents@), next as int)) && next <= tokens@.len(),
            Err(e) => bracketed_idents(tokens_view(tokens@), from as int) == Err::<
                (Seq<Seq<char>>, int),
                DiagnosticView,
            >(e@),
        },
{
    let ghost views = tokens_view(tokens@);
    if from >= tokens.len() {
        return Err(make_input_error("must inside a bracket"));
    }
    match &tokens[from] {
        Token::OpenBracket => {},
        _ => {
            return Err(make_input_error("must inside a bracket"));
        },
    }
    assert(views[from as int] == tokens@[from as int]@);
    let mut idents: Vec<String> = Vec::new();
    let mut i: usize = from + 1;
    assert(names_view(idents@) =~= Seq::empty());
    while i < tokens.len()
        invariant
            from < i <= tokens@.len(),
            views == tokens_view(tokens@),
            bracketed_idents(views, from as int) == ident_list(views, from + 1, Seq::empty()),
            ident_list(views, from + 1, Seq::empty()) == ident_list(
                views,
                i as int,
                names_view(idents@),
            ),
        decreases tokens@.len() - i,
    {
        assert(views[i as int] == tokens@[i as int]@);
        match &tokens[i] {
            Token::CloseBracket => {
                return Ok((idents, i + 1));
            },
            Token::Ident(name) => {
                let ghost before = names_view(idents@);
                idents.push(name.clone());
                assert(names_view(idents@) =~= before.push(name@));
                if comma_at(tokens, i + 1) {
                    i = i + 2;
                } else {
                    if i + 1 < tokens.len() {
                        assert(views[i + 1] == tokens@[i + 1]@);
                        match &tokens[i + 1] {
                            Token::CloseBracket => {
                                return Ok((idents, i + 2));
                            },
                            _ => {},
                        }
                    }
                    return Err(make_input_error("expected `,`"));
                }
            },
            _ => {
                return Err(make_input_error("expected identifier"));
            },
        }
    }
    Err(make_input_error("expected `]`"))
}

impl ReaderConfig {
    /// Reads the configuration of a reader from the tokens that its macro is
    /// called with: the reader's name, a comma, the annotations of declarations
    /// in brackets, and then, or not, a comma and the annotations of members in
    /// brackets.
    pub fn parse(input: &Vec<Token>) -> (r: Result<ReaderConfig, Diagnostic>)
        ensures
            match r {
                Ok(config) => reader_config_parse(tokens_view(input@)) == Ok::<
                    ReaderConfigView,
                    DiagnosticView,
                >(config@),
                Err(e) => reader_config_parse(tokens_view(input@)) == Err::<
                    ReaderConfigView,
                    DiagnosticView,
                >(e@),
            },
    {
        let name: String = match get_ident_at(input, 0) {
            Some(name) => name,
            None => {
                return Err(make_input_error("expected identifier"));
            },
        };
        if !comma_at(input, 1) {
            return Err(make_input_error("expected `,`"));
        }
        let (annotation_idents, next) = parse_punctuated_inside_bracket(input, 2)?;
        let n: usize = input.len();
        if comma_at(input, next) {
            let (field_attr_idents, end) = parse_punctuated_inside_bracket(input, next + 1)?;
            if end == n {
                Ok(ReaderConfig { name, annotation_idents, field_attr_idents })
            } else {
                Err(make_input_error("unexpected token"))
            }
        } else if next == n {
            let config = ReaderConfig { name, annotation_idents, field_attr_idents: Vec::new() };
            assert(config@.field_attr_idents =~= Seq::empty());
            Ok(config)
        } else {
            Err(make_input_error("unexpected token"))
        }
    }
}

impl GetAnnotationParam {
    /// Reads a question to a reader from the tokens that its macro is called
    /// with: a class, a comma, an annotation, and then, or not, a comma and a
    /// member of the class.
    pub fn parse(input: &Vec<Token>) -> (r: Result<GetAnnotationParam, Diagnostic>)
        ensures
            match r {
                Ok(param) => get_annotation_param_parse(tokens_view(input@)) == Ok::<
                    GetAnnotationParamView,
                    DiagnosticView,
                >(param@),
                Err(e) => get_annotation_param_parse(tokens_view(input@)) == Err::<
                    GetAnnotationParamView,
                    DiagnosticView,
                >(e@),
            },
    {
        let class: String = match get_ident_at(input, 0) {
            Some(class) => class,
            None => {
                return Err(make_input_error("expected identifier"));
            },
        };
        if !comma_at(input, 1) {
            return Err(make_input_error("expected `,`"));
        }
        let annotation: String = match get_ident_at(input, 2) {
            Some(annotation) => annotation,
            None => {
                return Err(make_input_error("expected identifier"));
            },
        };
        let property: Option<String> = if comma_at(input, 3) {
            get_ident_at(input, 4)
        } else {
            None
        };
        let end: usize = if !comma_at(input, 3) {
            3
        } else if property.is_some() {
            5
        } else {
            4
        };
        if end == input.len() {
            Ok(GetAnnotationParam { class, annotation, property })
        } else {
            Err(make_input_error("unexpected token"))
        }
    }
}

} // verus!
