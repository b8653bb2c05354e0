use annotation_rs::attribute::Annotation;
use annotation_rs::declaration::{Data, DeriveInput, SynFields};
use annotation_rs::enum_value::{EnumItem, EnumValue};
use annotation_rs::error::{Diagnostic, Error, ErrorKind};
use annotation_rs::field::Fields;
use annotation_rs::reader::{contains_name, GetAnnotationParam, ReaderConfig, Token};
use annotation_rs::registry::Registry;
use annotation_rs::symbol::Symbol;
use annotation_rs::syntax::{Lit, Marker, Meta, MetaList, MetaNameValue, NestedMeta, Path};
use annotation_rs::traits::{AnnotationStructure, AnnotationStructures};

fn path(name: &str) -> Path {
    Path { leading_colon: false, segments: vec![name.to_string()] }
}

#[derive(Debug, PartialEq)]
struct Flag(bool);

impl AnnotationStructure for Flag {
    fn get_path() -> Symbol {
        Symbol::new("flag")
    }

    fn from_meta(input: &Meta) -> Result<Self, Diagnostic> {
        match input {
            Meta::NameValue(MetaNameValue { lit: Lit::Bool(value), .. }) => Ok(Flag(*value)),
            _ => Err(Diagnostic::new(ErrorKind::InvalidLiteralKind, "expected a flag")),
        }
    }

    fn from_attribute_args(input: Vec<NestedMeta>) -> Result<Self, Diagnostic> {
        match input.first() {
            Some(NestedMeta::Lit(Lit::Bool(value))) => Ok(Flag(*value)),
            _ => Err(Diagnostic::new(ErrorKind::InvalidLiteralKind, "expected a flag")),
        }
    }
}

fn flag(value: bool) -> Marker {
    Marker {
        path: path("flag"),
        meta: Some(Meta::NameValue(MetaNameValue { path: path("flag"), lit: Lit::Bool(value) })),
    }
}

fn input(attrs: Vec<Marker>) -> DeriveInput {
    DeriveInput { attrs, ident: "Test".to_string(), data: Data::Struct(SynFields::Unit) }
}

#[test]
fn structures_are_read_from_every_marker() {
    let structures =
        AnnotationStructures::<Flag>::from_derive_input(&input(vec![flag(true), flag(false)]))
            .unwrap();
    assert_eq!(structures.attrs, vec![Flag(true), Flag(false)]);
    let none = AnnotationStructures::<Flag>::from_derive_input(&input(vec![])).unwrap();
    assert!(none.attrs.is_empty());
    assert!(Flag::get_path().is_path(&path("flag")));
    assert_eq!(Flag::from_attribute_args(vec![NestedMeta::Lit(Lit::Bool(true))]), Ok(Flag(true)));
}

#[test]
fn first_failing_marker_ends_the_reading() {
    let list = Marker {
        path: path("flag"),
        meta: Some(Meta::List(MetaList { path: path("flag"), nested: vec![] })),
    };
    let error = AnnotationStructures::<Flag>::from_derive_input(&input(vec![flag(true), list]))
        .err()
        .unwrap();
    assert_eq!(error.message, "expected a flag");
    let unparsed = Marker { path: path("flag"), meta: None };
    let error = AnnotationStructures::<Flag>::from_derive_input(&input(vec![unparsed, flag(true)]))
        .err()
        .unwrap();
    assert_eq!(error.kind, ErrorKind::MalformedMarker);
    assert_eq!(error.message, "Unable to parse marker");
}

fn annotation(name: &str) -> Annotation {
    Annotation {
        ident: name.to_string(),
        path: name.to_lowercase(),
        fields: Fields::Unit,
        mod_path: None,
    }
}

#[test]
fn registry_finds_the_first_of_a_name() {
    let mut registry = Registry::new();
    assert!(registry.find_annotation("A").is_none());
    assert!(registry.find_enum("E").is_none());
    registry.add_annotation(annotation("A"));
    registry.add_annotation(annotation("B"));
    let mut second = annotation("A");
    second.path = "second".to_string();
    registry.add_annotation(second);
    assert_eq!(registry.find_annotation("A").unwrap().path, "a");
    assert_eq!(registry.find_annotation("B").unwrap().path, "b");
    assert!(registry.find_annotation("a").is_none());
    let item = |value: &str| EnumItem { ident: "V".to_string(), value: value.to_string() };
    registry.add_enum(EnumValue { ident: "E".to_string(), items: vec![item("x")], mod_path: None });
    registry.add_enum(EnumValue { ident: "E".to_string(), items: vec![item("y")], mod_path: None });
    assert_eq!(registry.find_enum("E").unwrap().items[0].value, "x");
    assert_eq!(registry.annotations.len(), 3);
    assert_eq!(registry.enums.len(), 2);
}

#[test]
fn diagnostics_and_errors() {
    let plain = Diagnostic::new(ErrorKind::UnknownVariant, "m");
    assert_eq!(
        plain,
        Diagnostic { kind: ErrorKind::UnknownVariant, message: "m".to_string(), position: None }
    );
    let placed = Diagnostic::at(ErrorKind::UnexpectedArgument, "m", 3);
    assert_eq!(placed.position, Some(3));
    assert_eq!(placed.kind, ErrorKind::UnexpectedArgument);
    let error = Error::new("test");
    assert_eq!(error.get_message(), "test");
    assert_eq!(Diagnostic::from_error(ErrorKind::UnknownVariant, &error).message, "test");
}

#[test]
fn tables_hold_no_name_twice() {
    let config = ReaderConfig {
        name: "MyReader".to_string(),
        annotation_idents: vec!["A".to_string(), "B".to_string(), "A".to_string()],
        field_attr_idents: vec!["B".to_string(), "C".to_string(), "C".to_string()],
    };
    assert_eq!(config.get_annotation(), vec!["A", "B", "C"]);
    assert_eq!(config.get_fn_name(), "derive_my_reader");
    assert!(contains_name(&config.annotation_idents, "B"));
    assert!(!contains_name(&config.annotation_idents, "C"));
    let mut registry = Registry::new();
    registry.add_annotation(annotation("A"));
    let twice = Marker { path: path("a"), meta: Some(Meta::Path(path("a"))) };
    let again = Marker { path: path("a"), meta: Some(Meta::Path(path("a"))) };
    let reader = config.get_reader(&registry, &input(vec![twice, again])).unwrap();
    assert_eq!(reader.declaration.present, vec!["A"]);
    assert_eq!(reader.declaration.accessors.len(), 2);
    assert!(reader.members.is_empty());
}

fn ident(name: &str) -> Token {
    Token::Ident(name.to_string())
}

fn comma() -> Token {
    Token::Punct(',')
}

fn names(names: &[&str]) -> Vec<String> {
    names.iter().map(|name| name.to_string()).collect()
}

#[test]
fn reader_configuration_is_read_from_tokens() {
    let both = vec![
        ident("SimpleDerive"),
        comma(),
        Token::OpenBracket,
        ident("Simple"),
        comma(),
        ident("Full"),
        Token::CloseBracket,
        comma(),
        Token::OpenBracket,
        ident("Field"),
        comma(),
        Token::CloseBracket,
    ];
    let config = ReaderConfig::parse(&both).unwrap();
    assert_eq!(config.name, "SimpleDerive");
    assert_eq!(config.annotation_idents, names(&["Simple", "Full"]));
    assert_eq!(config.field_attr_idents, names(&["Field"]));
    let one = vec![ident("D"), comma(), Token::OpenBracket, Token::CloseBracket];
    let config = ReaderConfig::parse(&one).unwrap();
    assert!(config.annotation_idents.is_empty());
    assert!(config.field_attr_idents.is_empty());
}

#[test]
fn malformed_reader_configurations_are_errors() {
    let message = |tokens: Vec<Token>| {
        let error = ReaderConfig::parse(&tokens).unwrap_err();
        assert_eq!(error.kind, ErrorKind::MalformedInput);
        error.message
    };
    assert_eq!(message(vec![]), "expected identifier");
    assert_eq!(message(vec![comma()]), "expected identifier");
    assert_eq!(message(vec![ident("D")]), "expected `,`");
    assert_eq!(message(vec![ident("D"), comma()]), "must inside a bracket");
    assert_eq!(message(vec![ident("D"), comma(), ident("A")]), "must inside a bracket");
    assert_eq!(message(vec![ident("D"), comma(), Token::OpenBracket]), "expected `]`");
    assert_eq!(
        message(vec![ident("D"), comma(), Token::OpenBracket, ident("A"), ident("B")]),
        "expected `,`"
    );
    assert_eq!(
        message(vec![ident("D"), comma(), Token::OpenBracket, comma(), Token::CloseBracket]),
        "expected identifier"
    );
    assert_eq!(
        message(vec![ident("D"), comma(), Token::OpenBracket, ident("A"), comma()]),
        "expected `]`"
    );
    assert_eq!(
        message(vec![ident("D"), comma(), Token::OpenBracket, Token::CloseBracket, ident("x")]),
        "unexpected token"
    );
    assert_eq!(
        message(vec![ident("D"), comma(), Token::OpenBracket, Token::CloseBracket, comma()]),
        "must inside a bracket"
    );
    assert_eq!(
        message(vec![
            ident("D"),
            comma(),
            Token::OpenBracket,
            Token::CloseBracket,
            comma(),
            Token::OpenBracket,
            Token::CloseBracket,
            comma(),
        ]),
        "unexpected token"
    );
}

#[test]
fn questions_are_read_from_tokens() {
    let param = GetAnnotationParam::parse(&vec![ident("Test"), comma(), ident("Simple")]).unwrap();
    assert_eq!(
        param,
        GetAnnotationParam {
            class: "Test".to_string(),
            annotation: "Simple".to_string(),
            property: None
        }
    );
    let param = GetAnnotationParam::parse(&vec![
        ident("Test"),
        comma(),
        ident("Simple"),
        comma(),
        ident("a"),
    ])
    .unwrap();
    assert_eq!(param.property, Some("a".to_string()));
    let param =
        GetAnnotationParam::parse(&vec![ident("Test"), comma(), ident("Simple"), comma()])
            .unwrap();
    assert_eq!(param.property, None);
    let message = |tokens: Vec<Token>| GetAnnotationParam::parse(&tokens).unwrap_err().message;
    assert_eq!(message(vec![]), "expected identifier");
    assert_eq!(message(vec![ident("Test")]), "expected `,`");
    assert_eq!(message(vec![ident("Test"), comma()]), "expected identifier");
    assert_eq!(
        message(vec![ident("Test"), comma(), ident("Simple"), ident("a")]),
        "unexpected token"
    );
    assert_eq!(
        message(vec![ident("Test"), comma(), ident("Simple"), comma(), comma()]),
        "unexpected token"
    );
    assert_eq!(
        message(vec![ident("T"), comma(), ident("S"), comma(), ident("a"), ident("b")]),
        "unexpected token"
    );
}
