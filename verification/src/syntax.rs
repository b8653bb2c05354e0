//! The annotation syntax tree: literals, paths, and the nested items of a
//! marker's argument list.

use vstd::prelude::*;

verus! {

/// A literal of the marker syntax.
#[derive(Debug, PartialEq)]
pub enum Lit {
    /// A string literal, holding its unescaped contents.
    Str(String),
    /// An integer literal, holding its digits in base 10, a leading `-` included.
    Int(String),
    /// A floating point literal, holding its digits in base 10.
    Float(String),
    /// A boolean literal.
    Bool(bool),
    /// Any other kind of literal (byte, char, byte string).
    Other,
}

/// The mathematical model of a [`Lit`].
pub enum LitView {
    Str(Seq<char>),
    Int(Seq<char>),
    Float(Seq<char>),
    Bool(bool),
    Other,
}

impl View for Lit {
    type V = LitView;

    open spec fn view(&self) -> LitView {
        match self {
            Lit::Str(s) => LitView::Str(s@),
            Lit::Int(s) => LitView::Int(s@),
            Lit::Float(s) => LitView::Float(s@),
            Lit::Bool(b) => LitView::Bool(*b),
            Lit::Other => LitView::Other,
        }
    }
}

/// A path of the marker syntax: `a`, `a::b`, `::a::b`.
#[derive(Debug, PartialEq)]
pub struct Path {
    pub leading_colon: bool,
    pub segments: Vec<String>,
}

/// The mathematical model of a [`Path`].
pub struct PathView {
    pub leading_colon: bool,
    pub segments: Seq<Seq<char>>,
}

impl View for Path {
    type V = PathView;

    open spec fn view(&self) -> PathView {
        PathView {
            leading_colon: self.leading_colon,
            segments: Seq::new(self.segments@.len(), |i: int| self.segments@[i]@),
        }
    }
}

/// One item of a marker's argument list.
#[derive(Debug, PartialEq)]
pub enum NestedMeta {
    Meta(Meta),
    Lit(Lit),
}

/// A structured item: a bare path, `path(items)` or `path = literal`.
#[derive(Debug, PartialEq)]
pub enum Meta {
    Path(Path),
    List(MetaList),
    NameValue(MetaNameValue),
}

/// `path(items)`.
#[derive(Debug, PartialEq)]
pub struct MetaList {
    pub path: Path,
    pub nested: Vec<NestedMeta>,
}

/// `path = literal`.
#[derive(Debug, PartialEq)]
pub struct MetaNameValue {
    pub path: Path,
    pub lit: Lit,
}

pub enum NestedMetaView {
    Meta(MetaView),
    Lit(LitView),
}

pub enum MetaView {
    Path(PathView),
    List(MetaListView),
    NameValue(MetaNameValueView),
}

pub struct MetaListView {
    pub path: PathView,
    pub nested: Seq<NestedMetaView>,
}

pub struct MetaNameValueView {
    pub path: PathView,
    pub lit: LitView,
}

/// The model of an item.
pub open spec fn nested_meta_view(item: NestedMeta) -> NestedMetaView
    decreases item,
{
    match item {
        NestedMeta::Meta(m) => NestedMetaView::Meta(meta_view(m)),
        NestedMeta::Lit(l) => NestedMetaView::Lit(l@),
    }
}

/// The model of a structured item.
pub open spec fn meta_view(meta: Meta) -> MetaView
    decreases meta,
{
    match meta {
        Meta::Path(p) => MetaView::Path(p@),
        Meta::List(l) => MetaView::List(
            MetaListView {
                path: l.path@,
                nested: Seq::new(
                    l.nested@.len(),
                    |i: int|
                        if 0 <= i < l.nested@.len() {
                            nested_meta_view(l.nested@[i])
                        } else {
                            NestedMetaView::Lit(LitView::Other)
                        },
                ),
            },
        ),
        Meta::NameValue(nv) => MetaView::NameValue(nv@),
    }
}

impl View for NestedMeta {
    type V = NestedMetaView;

    open spec fn view(&self) -> NestedMetaView {
        nested_meta_view(*self)
    }
}

impl View for Meta {
    type V = MetaView;

    open spec fn view(&self) -> MetaView {
        meta_view(*self)
    }
}

impl View for MetaList {
    type V = MetaListView;

    open spec fn view(&self) -> MetaListView {
        MetaListView {
            path: self.path@,
            nested: Seq::new(self.nested@.len(), |i: int| self.nested@[i]@),
        }
    }
}

impl View for MetaNameValue {
    type V = MetaNameValueView;

    open spec fn view(&self) -> MetaNameValueView {
        MetaNameValueView { path: self.path@, lit: self.lit@ }
    }
}

/// Whether two texts hold the same characters.
pub fn str_eq(a: &str, b: &str) -> (r: bool)
    ensures
        r == (a@ == b@),
{
    String::from_str(a) == String::from_str(b)
}

impl PathView {
    /// Whether the path is the single identifier `ident`: no leading colon and
    /// one segment, which is `ident`.
    pub open spec fn is_ident(self, ident: Seq<char>) -> bool {
        !self.leading_colon && self.segments.len() == 1 && self.segments[0] == ident
    }

    /// The path that is the single identifier `ident`.
    pub open spec fn of_ident(ident: Seq<char>) -> PathView {
        PathView { leading_colon: false, segments: seq![ident] }
    }
}

impl Path {
    /// The path that is the single identifier `ident`.
    pub fn from_ident(ident: &str) -> (p: Path)
        ensures
            p@ == PathView::of_ident(ident@),
    {
        let mut segments: Vec<String> = Vec::new();
        segments.push(String::from_str(ident));
        let p = Path { leading_colon: false, segments };
        assert(p@.segments =~= seq![ident@]);
        p
    }

    /// Whether the path is the single identifier `ident`.
    pub fn is_ident(&self, ident: &str) -> (b: bool)
        ensures
            b == self@.is_ident(ident@),
    {
        !self.leading_colon && self.segments.len() == 1 && str_eq(
            self.segments[0].as_str(),
            ident,
        )
    }

    /// The identifier that the path consists of, where it is a single one.
    pub fn get_ident(&self) -> (r: Option<&String>)
        ensures
            match r {
                Some(ident) => self@.is_ident(ident@),
                None => self@.leading_colon || self@.segments.len() != 1,
            },
    {
        if !self.leading_colon && self.segments.len() == 1 {
            Some(&self.segments[0])
        } else {
            None
        }
    }
}

impl Meta {
    /// The path that the item begins with.
    pub fn path(&self) -> (p: &Path)
        ensures
            p@ == self@.path(),
    {
        match self {
            Meta::Path(p) => p,
            Meta::List(l) => &l.path,
            Meta::NameValue(nv) => &nv.path,
        }
    }
}

impl MetaView {
    /// The path that the item begins with.
    pub open spec fn path(self) -> PathView {
        match self {
            MetaView::Path(p) => p,
            MetaView::List(l) => l.path,
            MetaView::NameValue(nv) => nv.path,
        }
    }
}

/// A marker attached to a declaration, a field or a variant: its path, and the
/// structured form of the whole marker where it has one.
#[derive(Debug, PartialEq)]
pub struct Marker {
    pub path: Path,
    pub meta: Option<Meta>,
}

/// The mathematical model of a [`Marker`].
pub struct MarkerView {
    pub path: PathView,
    pub meta: Option<MetaView>,
}

impl View for Marker {
    type V = MarkerView;

    open spec fn view(&self) -> MarkerView {
        MarkerView {
            path: self.path@,
            meta: match self.meta {
                Some(m) => Some(m@),
                None => None,
            },
        }
    }
}

/// The models of the markers of a list.
pub open spec fn markers_view(markers: Seq<Marker>) -> Seq<MarkerView> {
    Seq::new(markers.len(), |i: int| markers[i]@)
}

/// The models of the items of a list.
pub open spec fn nested_view(items: Seq<NestedMeta>) -> Seq<NestedMetaView> {
    Seq::new(items.len(), |i: int| items[i]@)
}

/// A list's model holds the models of its items.
pub proof fn lemma_meta_list_view(list: MetaList)
    ensures
        list@.nested == nested_view(list.nested@),
        Meta::List(list)@ == MetaView::List(list@),
        NestedMeta::Meta(Meta::List(list))@ == NestedMetaView::Meta(MetaView::List(list@)),
{
    assert(list@.nested =~= nested_view(list.nested@));
    assert(Meta::List(list)@->List_0.nested =~= list@.nested);
}

} // verus!
