//! Errors: the plain message error of an enum's string parser, and the
//! diagnostics that schema construction and argument parsing report.

use vstd::prelude::*;

verus! {

/// An error that carries a message and nothing else.
#[derive(Debug, Clone, PartialEq)]
pub struct Error {
    message: String,
}

impl View for Error {
    type V = Seq<char>;

    closed spec fn view(&self) -> Seq<char> {
        self.message@
    }
}

impl Error {
    /// An error with the given message.
    pub fn new(message: &str) -> (e: Error)
        ensures
            e@ == message@,
    {
        Error { message: String::from_str(message) }
    }

    /// The message this error was made with.
    pub fn get_message(&self) -> (m: String)
        ensures
            m@ == self@,
    {
        self.message.clone()
    }
}

/// What went wrong, by class.
#[derive(Debug, Clone, Copy, PartialEq, Eq, Structural)]
pub enum ErrorKind {
    /// A field's declared type is no type path, or its head names no type.
    UnexpectedTypeToken,
    /// A list's element type is an object, a list or a map.
    UnsupportedNestedType,
    /// A map's key type is not `String`.
    InvalidMapKeyType,
    /// A marker could not be read as structured syntax, or has the wrong shape.
    MalformedMarker,
    /// A field marker holds a key that is not recognised.
    UnknownMarkerKey,
    /// A default value was given to an object, a list or a map.
    UnsupportedDefault,
    /// The declaration is not of the kind the descriptor is built from.
    UnexpectedDeclaration,
    /// A literal of the wrong kind, or one that does not fit its target.
    InvalidLiteralKind,
    /// An argument matched no field.
    UnexpectedArgument,
    /// A required field received no value.
    MissingRequiredField,
    /// An item inside a list is not a bare literal of the element type.
    UnsupportedListElement,
    /// An item inside a map is not a named item of the value type.
    InvalidMapEntry,
    /// A string names no variant of the enum.
    UnknownVariant,
    /// A type name that the registry does not hold.
    UnresolvedType,
    /// The tokens that a macro was called with are not of its grammar.
    MalformedInput,
}

/// A diagnostic: its class, its message, and, where it is about one argument,
/// the position of that argument in the list that held it.
#[derive(Debug, Clone, PartialEq)]
pub struct Diagnostic {
    pub kind: ErrorKind,
    pub message: String,
    pub position: Option<usize>,
}

/// The mathematical model of a [`Diagnostic`].
pub struct DiagnosticView {
    pub kind: ErrorKind,
    pub message: Seq<char>,
    pub position: Option<nat>,
}

impl View for Diagnostic {
    type V = DiagnosticView;

    open spec fn view(&self) -> DiagnosticView {
        DiagnosticView {
            kind: self.kind,
            message: self.message@,
            position: match self.position {
                Some(p) => Some(p as nat),
                None => None,
            },
        }
    }
}

/// The diagnostic of the given class and message that is bound to no position.
pub open spec fn diagnostic(kind: ErrorKind, message: Seq<char>) -> DiagnosticView {
    DiagnosticView { kind, message, position: None }
}

impl Diagnostic {
    /// A diagnostic bound to no position.
    pub fn new(kind: ErrorKind, message: &str) -> (d: Diagnostic)
        ensures
            d@ == diagnostic(kind, message@),
    {
        Diagnostic { kind, message: String::from_str(message), position: None }
    }

    /// A diagnostic bound to the item at `position`.
    pub fn at(kind: ErrorKind, message: &str, position: usize) -> (d: Diagnostic)
        ensures
            d@ == (DiagnosticView { kind, message: message@, position: Some(position as nat) }),
    {
        Diagnostic { kind, message: String::from_str(message), position: Some(position) }
    }

    /// The diagnostic that stands for an enum's string parser error.
    pub fn from_error(kind: ErrorKind, error: &Error) -> (d: Diagnostic)
        ensures
            d@ == diagnostic(kind, error@),
    {
        Diagnostic { kind, message: error.get_message(), position: None }
    }
}

} // verus!
