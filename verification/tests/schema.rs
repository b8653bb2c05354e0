use annotation_rs::attribute::Annotation;
use annotation_rs::codec::NestedPattern;
use annotation_rs::declaration::{
    Data, DeriveInput, GenericArgument, PathArguments, PathSegment, SynField, SynFields, SynType,
    TypePath,
};
use annotation_rs::error::ErrorKind;
use annotation_rs::field::{get_attribute, Fields, NamedField, UnnamedFiled};
use annotation_rs::helper::{
    get_lit_as_string, get_lit_bool, get_lit_float, get_lit_int, get_lit_str, get_nested_type,
    get_nested_types, unwrap_type_path,
};
use annotation_rs::number::{is_float_text, FloatWidth, Integer, IntegerWidth};
use annotation_rs::reader::{idents_to_vec, Interpolated, InterpolatedList, Token};
use annotation_rs::symbol::Symbol;
use annotation_rs::syntax::{Lit, Marker, Meta, MetaList, MetaNameValue, NestedMeta, Path};
use annotation_rs::ty::{DefaultValue, FieldType, Type};

fn path(name: &str) -> Path {
    Path { leading_colon: false, segments: vec![name.to_string()] }
}

fn segment(name: &str, args: Vec<GenericArgument>) -> PathSegment {
    let arguments = if args.is_empty() {
        PathArguments::NoArguments
    } else {
        PathArguments::AngleBracketed(args)
    };
    PathSegment { ident: name.to_string(), arguments }
}

fn type_path(name: &str, args: Vec<SynType>) -> TypePath {
    let args = args.into_iter().map(GenericArgument::Type).collect();
    TypePath { segments: vec![segment(name, args)] }
}

fn ty(name: &str, args: Vec<SynType>) -> SynType {
    SynType::Path(type_path(name, args))
}

fn plain(name: &str) -> SynType {
    ty(name, vec![])
}

fn nv(key: &str, lit: Lit) -> NestedMeta {
    NestedMeta::Meta(Meta::NameValue(MetaNameValue { path: path(key), lit }))
}

fn marker(name: &str, nested: Vec<NestedMeta>) -> Marker {
    Marker { path: path(name), meta: Some(Meta::List(MetaList { path: path(name), nested })) }
}

fn named(name: &str, ty: SynType, attrs: Vec<Marker>) -> SynField {
    SynField { attrs, ident: Some(name.to_string()), ty }
}

fn classify(name: &str, args: Vec<SynType>, is_enum: bool) -> Result<Type, ErrorKind> {
    Type::from_ast(&type_path(name, args), is_enum).map_err(|e| e.kind)
}

#[test]
fn scalars_are_classified_by_their_tokens() {
    assert_eq!(classify("String", vec![], false), Ok(Type::String));
    assert_eq!(classify("bool", vec![], false), Ok(Type::Bool));
    let widths = [
        ("u8", IntegerWidth::U8),
        ("u16", IntegerWidth::U16),
        ("u32", IntegerWidth::U32),
        ("u64", IntegerWidth::U64),
        ("u128", IntegerWidth::U128),
        ("i8", IntegerWidth::I8),
        ("i16", IntegerWidth::I16),
        ("i32", IntegerWidth::I32),
        ("i64", IntegerWidth::I64),
        ("i128", IntegerWidth::I128),
    ];
    for (token, width) in widths {
        assert_eq!(classify(token, vec![], true), Ok(Type::Integer(width)));
    }
    assert_eq!(classify("f32", vec![], false), Ok(Type::Float(FloatWidth::F32)));
    assert_eq!(classify("f64", vec![], false), Ok(Type::Float(FloatWidth::F64)));
}

#[test]
fn other_names_are_objects_or_enums() {
    assert_eq!(classify("Simple", vec![], false), Ok(Type::Object("Simple".to_string())));
    assert_eq!(classify("Simple", vec![], true), Ok(Type::Enum("Simple".to_string())));
    assert_eq!(classify("simple", vec![], false), Err(ErrorKind::UnexpectedTypeToken));
    assert_eq!(classify("usize", vec![], false), Err(ErrorKind::UnexpectedTypeToken));
    assert_eq!(classify("", vec![], false), Err(ErrorKind::UnexpectedTypeToken));
    assert_eq!(
        Type::from_ast(&TypePath { segments: vec![] }, false).unwrap_err().message,
        "Unexpected type path segment"
    );
    assert_eq!(
        Type::from_ast(&type_path("lower", vec![]), false).unwrap_err().message,
        "Unexpected type token"
    );
}

#[test]
fn lists_hold_scalars_only() {
    assert_eq!(
        classify("Vec", vec![plain("String")], false),
        Ok(Type::List(Box::new(Type::String)))
    );
    assert_eq!(
        classify("Vec", vec![plain("TestEnum")], true),
        Ok(Type::List(Box::new(Type::Enum("TestEnum".to_string()))))
    );
    assert_eq!(
        classify("Vec", vec![plain("Simple")], false),
        Err(ErrorKind::UnsupportedNestedType)
    );
    assert_eq!(
        classify("Vec", vec![ty("Vec", vec![plain("u8")])], false),
        Err(ErrorKind::UnsupportedNestedType)
    );
    assert_eq!(
        classify("Vec", vec![ty("HashMap", vec![plain("String"), plain("u8")])], false),
        Err(ErrorKind::UnsupportedNestedType)
    );
    assert_eq!(classify("Vec", vec![], false), Err(ErrorKind::UnexpectedTypeToken));
    assert_eq!(classify("Vec", vec![SynType::Other], false), Err(ErrorKind::UnexpectedTypeToken));
    assert_eq!(classify("Vec", vec![plain("nothing")], false), Err(ErrorKind::UnexpectedTypeToken));
    let error = Type::from_ast(&type_path("Vec", vec![plain("Simple")]), false).unwrap_err();
    assert_eq!(error.message, "Vec can not nest Object, Map or List");
}

#[test]
fn maps_are_keyed_by_strings() {
    assert_eq!(
        classify("HashMap", vec![plain("String"), plain("Simple")], false),
        Ok(Type::Mapping(Box::new(Type::Object("Simple".to_string()))))
    );
    assert_eq!(
        classify("HashMap", vec![plain("String"), ty("Vec", vec![plain("u8")])], false),
        Ok(Type::Mapping(Box::new(Type::List(Box::new(Type::Integer(IntegerWidth::U8))))))
    );
    assert_eq!(
        classify("HashMap", vec![plain("u8"), plain("Simple")], false),
        Err(ErrorKind::InvalidMapKeyType)
    );
    assert_eq!(
        classify("HashMap", vec![plain("String")], false),
        Err(ErrorKind::UnexpectedTypeToken)
    );
    assert_eq!(
        classify("HashMap", vec![plain("String"), plain("u8"), plain("u8")], false),
        Err(ErrorKind::UnexpectedTypeToken)
    );
    let lifetime = TypePath {
        segments: vec![segment(
            "HashMap",
            vec![GenericArgument::Other, GenericArgument::Type(plain("u8"))],
        )],
    };
    assert_eq!(Type::from_ast(&lifetime, false).unwrap_err().message, "Unexpect Arguments");
}

#[test]
fn option_makes_a_field_optional() {
    let optional = FieldType::from_ast(&ty("Option", vec![plain("String")]), false).unwrap();
    assert_eq!(optional, FieldType::OptionalField(Type::String));
    assert!(!optional.is_required());
    assert_eq!(optional.unwrap(), &Type::String);
    let required = FieldType::from_ast(&plain("u8"), false).unwrap();
    assert_eq!(required, FieldType::RequiredField(Type::Integer(IntegerWidth::U8)));
    assert!(required.is_required());
    assert_eq!(
        FieldType::from_ast(&SynType::Other, false).unwrap_err().message,
        "Field Type must be TypePath"
    );
    assert_eq!(
        FieldType::from_ast(&plain("Option"), false).unwrap_err().message,
        "Unexpected type path Argument"
    );
    assert_eq!(
        FieldType::from_ast(&ty("Option", vec![SynType::Other]), false).unwrap_err().message,
        "Type in Option must be TypePath"
    );
}

#[test]
fn type_text() {
    assert_eq!(Type::String.get_type_token_stream(), "String");
    assert_eq!(Type::Integer(IntegerWidth::I128).get_type_token_stream(), "i128");
    assert_eq!(
        Type::Mapping(Box::new(Type::List(Box::new(Type::Float(FloatWidth::F64)))))
            .get_type_token_stream(),
        "std::collections::HashMap<String, Vec<f64>>"
    );
    assert_eq!(Type::Enum("E".to_string()).get_type_token_stream(), "E");
}

#[test]
fn nested_patterns() {
    assert_eq!(Type::Bool.get_nested_pattern(true), Some(NestedPattern::NameValue));
    assert_eq!(Type::Bool.get_nested_pattern(false), Some(NestedPattern::Lit));
    assert_eq!(Type::Enum("E".to_string()).get_nested_pattern(false), Some(NestedPattern::Lit));
    let list = Type::List(Box::new(Type::Bool));
    assert_eq!(list.get_nested_pattern(true), Some(NestedPattern::List));
    assert_eq!(list.get_nested_pattern(false), None);
    assert_eq!(Type::Object("O".to_string()).get_nested_pattern(true), Some(NestedPattern::List));
    assert_eq!(Type::Object("O".to_string()).get_nested_pattern(false), None);
    let item = Meta::NameValue(MetaNameValue { path: path("k"), lit: Lit::Bool(true) });
    assert_eq!(Type::Bool.get_path_ident(&item).unwrap(), &path("k"));
    let error = Type::Object("O".to_string()).get_path_ident(&item).unwrap_err();
    assert_eq!(error.message, "Nested value must be List");
}

#[test]
fn default_values_are_validated() {
    let from = |text: &str, ty: Type| DefaultValue::from_string(text.to_string(), &ty);
    assert_eq!(from("x", Type::String), Ok(DefaultValue::String("x".to_string())));
    assert_eq!(from("true", Type::Bool), Ok(DefaultValue::Bool("true".to_string())));
    assert_eq!(from("yes", Type::Bool).unwrap_err().kind, ErrorKind::InvalidLiteralKind);
    assert_eq!(
        from("-128", Type::Integer(IntegerWidth::I8)),
        Ok(DefaultValue::Integer("-128".to_string()))
    );
    assert_eq!(
        from("128", Type::Integer(IntegerWidth::I8)).unwrap_err().message,
        "expected default lit to be a integer in range"
    );
    assert_eq!(
        from("-1", Type::Integer(IntegerWidth::U8)).unwrap_err().kind,
        ErrorKind::InvalidLiteralKind
    );
    assert_eq!(
        from("1.5", Type::Float(FloatWidth::F32)),
        Ok(DefaultValue::Float("1.5".to_string()))
    );
    assert_eq!(
        from("1.5.5", Type::Float(FloatWidth::F32)).unwrap_err().message,
        "expected default lit to be a float"
    );
    assert_eq!(
        from("variant_c", Type::Enum("E".to_string())),
        Ok(DefaultValue::Enum("variant_c".to_string()))
    );
    let error = from("x", Type::List(Box::new(Type::String))).unwrap_err();
    assert_eq!(error.kind, ErrorKind::UnsupportedDefault);
    assert_eq!(
        from("x", Type::Object("O".to_string())).unwrap_err().kind,
        ErrorKind::UnsupportedDefault
    );
    assert_eq!(DefaultValue::Bool("true".to_string()).to_string(), "true");
}

#[test]
fn field_markers() {
    let attribute = get_attribute(&vec![
        marker("doc", vec![nv("unknown", Lit::Bool(true))]),
        marker(
            "attribute_field",
            vec![
                nv("alias", Lit::Str("a".to_string())),
                nv("enum_value", Lit::Bool(true)),
                nv("default", Lit::Int("5".to_string())),
            ],
        ),
        marker("attribute_field", vec![nv("path", Lit::Str("b".to_string()))]),
    ])
    .unwrap();
    assert_eq!(attribute.path, Some("b".to_string()));
    assert_eq!(attribute.enum_value, Some(true));
    assert_eq!(attribute.default, Some("5".to_string()));
    let error =
        get_attribute(&vec![marker("attribute_field", vec![nv("unknown", Lit::Bool(true))])])
            .unwrap_err();
    assert_eq!(error.kind, ErrorKind::UnknownMarkerKey);
    assert_eq!(error.message, "Unexpected nested meta");
    let error = get_attribute(&vec![marker(
        "attribute_field",
        vec![NestedMeta::Lit(Lit::Bool(true))],
    )])
    .unwrap_err();
    assert_eq!(error.kind, ErrorKind::UnknownMarkerKey);
    let error = get_attribute(&vec![marker(
        "attribute_field",
        vec![nv("alias", Lit::Bool(true))],
    )])
    .unwrap_err();
    assert_eq!(error.message, "expected alias lit to be a string");
    let error = get_attribute(&vec![marker(
        "attribute_field",
        vec![nv("enum_value", Lit::Str("true".to_string()))],
    )])
    .unwrap_err();
    assert_eq!(error.message, "expected enum_value lit to be a bool");
    let error = get_attribute(&vec![Marker {
        path: path("attribute_field"),
        meta: Some(Meta::Path(path("attribute_field"))),
    }])
    .unwrap_err();
    assert_eq!(error.kind, ErrorKind::MalformedMarker);
    assert_eq!(error.message, "The meta of attribute_field must be a List");
}

#[test]
fn fields_are_built_in_declaration_order() {
    let fields = Fields::from_ast(&SynFields::Named(vec![
        named(
            "int32",
            plain("i32"),
            vec![marker("attribute_field", vec![nv("alias", Lit::Str("i32".to_string()))])],
        ),
        named(
            "flag",
            ty("Option", vec![plain("bool")]),
            vec![marker("attribute_field", vec![nv("default", Lit::Bool(true))])],
        ),
    ]))
    .unwrap();
    assert_eq!(
        fields,
        Fields::NamedFields(vec![
            NamedField {
                name: "int32".to_string(),
                path: "i32".to_string(),
                default: None,
                field_type: FieldType::RequiredField(Type::Integer(IntegerWidth::I32)),
            },
            NamedField {
                name: "flag".to_string(),
                path: "flag".to_string(),
                default: Some(DefaultValue::Bool("true".to_string())),
                field_type: FieldType::OptionalField(Type::Bool),
            },
        ])
    );
    assert_eq!(fields.len(), 2);
    let unnamed = Fields::from_ast(&SynFields::Unnamed(vec![
        SynField { attrs: vec![], ident: None, ty: plain("u8") },
        SynField { attrs: vec![], ident: None, ty: plain("String") },
    ]))
    .unwrap();
    assert_eq!(
        unnamed,
        Fields::UnnamedField(vec![
            UnnamedFiled {
                index: 0,
                field_type: FieldType::RequiredField(Type::Integer(IntegerWidth::U8)),
                default: None,
            },
            UnnamedFiled {
                index: 1,
                field_type: FieldType::RequiredField(Type::String),
                default: None,
            },
        ])
    );
    assert_eq!(Fields::from_ast(&SynFields::Unit).unwrap(), Fields::Unit);
    let error = Fields::from_ast(&SynFields::Named(vec![
        named("good", plain("u8"), vec![]),
        named("bad", plain("nothing"), vec![]),
        named("worse", SynType::Other, vec![]),
    ]))
    .unwrap_err();
    assert_eq!(error.message, "Unexpected type token");
    let error = Fields::from_ast(&SynFields::Named(vec![SynField {
        attrs: vec![],
        ident: None,
        ty: plain("u8"),
    }]))
    .unwrap_err();
    assert_eq!(error.kind, ErrorKind::UnexpectedDeclaration);
    let error = Fields::from_ast(&SynFields::Named(vec![named(
        "list",
        ty("Vec", vec![plain("u8")]),
        vec![marker("attribute_field", vec![nv("default", Lit::Int("1".to_string()))])],
    )]))
    .unwrap_err();
    assert_eq!(error.kind, ErrorKind::UnsupportedDefault);
}

#[test]
fn annotation_path_defaults_to_its_name() {
    let input = |attrs: Vec<Marker>| DeriveInput {
        attrs,
        ident: "TestTuple".to_string(),
        data: Data::Struct(SynFields::Unit),
    };
    assert_eq!(Annotation::from_ast(&input(vec![])).unwrap().path, "TestTuple");
    let renamed = Annotation::from_ast(&input(vec![marker(
        "attribute",
        vec![NestedMeta::Lit(Lit::Str("test_tuple".to_string()))],
    )]))
    .unwrap();
    assert_eq!(renamed.path, "test_tuple");
    assert_eq!(renamed.ident, "TestTuple");
    assert_eq!(renamed.get_path(), "test_tuple");
    let error = Annotation::from_ast(&input(vec![marker("attribute", vec![])])).unwrap_err();
    assert_eq!(error.message, "Unexpected nested meta");
    let error = Annotation::from_ast(&input(vec![marker(
        "attribute",
        vec![nv("a", Lit::Bool(true))],
    )]))
    .unwrap_err();
    assert_eq!(error.message, "Meta of Attribute must be Lit List");
    let error = Annotation::from_ast(&input(vec![Marker {
        path: path("attribute"),
        meta: Some(Meta::Path(path("attribute"))),
    }]))
    .unwrap_err();
    assert_eq!(error.message, "Unexpected attribute");
    let not_struct =
        DeriveInput { attrs: vec![], ident: "E".to_string(), data: Data::Enum(vec![]) };
    let error = Annotation::from_ast(&not_struct).unwrap_err();
    assert_eq!(error.kind, ErrorKind::UnexpectedDeclaration);
    assert_eq!(error.message, "Attribute must be a struct");
}

#[test]
fn literal_readers() {
    let text = Lit::Str("x".to_string());
    let number = Lit::Int("42".to_string());
    let real = Lit::Float("1.5".to_string());
    let flag = Lit::Bool(false);
    assert_eq!(get_lit_str(&text, "k"), Ok("x".to_string()));
    assert_eq!(get_lit_str(&number, "k").unwrap_err().message, "expected k lit to be a string");
    assert_eq!(get_lit_bool(&flag, "k"), Ok(false));
    assert_eq!(get_lit_bool(&text, "k").unwrap_err().message, "expected k lit to be a bool");
    assert_eq!(get_lit_int(&number, "k", IntegerWidth::U8), Ok(Integer::new(false, 42)));
    assert_eq!(
        get_lit_int(&Lit::Int("256".to_string()), "k", IntegerWidth::U8).unwrap_err().message,
        "expected k lit to be a integer in range"
    );
    assert_eq!(
        get_lit_int(&real, "k", IntegerWidth::U8).unwrap_err().message,
        "expected k lit to be a integer"
    );
    assert_eq!(get_lit_float(&real, "k"), Ok("1.5".to_string()));
    assert_eq!(get_lit_float(&number, "k").unwrap_err().message, "expected k lit to be a float");
    assert_eq!(
        get_lit_float(&Lit::Float("one".to_string()), "k").unwrap_err().kind,
        ErrorKind::InvalidLiteralKind
    );
    assert_eq!(get_lit_as_string(&text, "k"), Ok("x".to_string()));
    assert_eq!(get_lit_as_string(&number, "k"), Ok("42".to_string()));
    assert_eq!(get_lit_as_string(&real, "k"), Ok("1.5".to_string()));
    assert_eq!(get_lit_as_string(&flag, "k"), Ok("false".to_string()));
    assert_eq!(get_lit_as_string(&Lit::Bool(true), "k"), Ok("true".to_string()));
    let error = get_lit_as_string(&Lit::Other, "k").unwrap_err();
    assert_eq!(error.kind, ErrorKind::InvalidLiteralKind);
    assert_eq!(error.message, "expected k lit to be a string/integer/float/bool");
}

#[test]
fn type_expression_readers() {
    let map = segment(
        "HashMap",
        vec![GenericArgument::Type(plain("String")), GenericArgument::Type(SynType::Other)],
    );
    assert_eq!(get_nested_type(&map, "m"), Ok(&plain("String")));
    assert_eq!(get_nested_types(&map, "m"), Ok(vec![&plain("String"), &SynType::Other]));
    let bare = segment("u8", vec![]);
    assert_eq!(get_nested_type(&bare, "m").unwrap_err().message, "m");
    assert_eq!(get_nested_types(&bare, "m").unwrap_err().kind, ErrorKind::UnexpectedTypeToken);
    let lifetime = segment("Ref", vec![GenericArgument::Other]);
    assert!(get_nested_type(&lifetime, "m").is_err());
    assert!(get_nested_types(&lifetime, "m").is_err());
    assert_eq!(unwrap_type_path(&plain("u8"), "m"), Ok(&type_path("u8", vec![])));
    assert!(unwrap_type_path(&SynType::Other, "m").is_err());
}

#[test]
fn paths_and_symbols() {
    let single = path("attribute");
    assert!(single.is_ident("attribute"));
    assert!(!single.is_ident("Attribute"));
    assert_eq!(single.get_ident(), Some(&"attribute".to_string()));
    assert!(Symbol::new("attribute").is_path(&single));
    assert_eq!(Symbol::new("attribute").name(), "attribute");
    let long = Path { leading_colon: false, segments: vec!["a".to_string(), "b".to_string()] };
    assert!(!long.is_ident("a"));
    assert_eq!(long.get_ident(), None);
    let rooted = Path { leading_colon: true, segments: vec!["a".to_string()] };
    assert!(!rooted.is_ident("a"));
    assert!(!Symbol::new("a").is_path(&rooted));
    assert_eq!(Path::from_ident("a"), path("a"));
}

#[test]
fn interpolated_tokens() {
    let mut tokens = vec![Token::Ident("before".to_string())];
    Interpolated::new("name").to_tokens(&mut tokens);
    assert_eq!(
        tokens,
        vec![
            Token::Ident("before".to_string()),
            Token::Punct('#'),
            Token::Ident("name".to_string())
        ]
    );
    let mut tokens = vec![];
    InterpolatedList::new("items", Some(',')).to_tokens(&mut tokens);
    assert_eq!(
        tokens,
        vec![
            Token::Punct('#'),
            Token::OpenParenthesis,
            Token::Punct('#'),
            Token::Ident("items".to_string()),
            Token::CloseParenthesis,
            Token::Punct(','),
            Token::Punct('*'),
        ]
    );
    let mut tokens = vec![];
    InterpolatedList::new("items", None).to_tokens(&mut tokens);
    assert_eq!(tokens.len(), 6);
    assert_eq!(idents_to_vec(&vec!["a".to_string(), "b".to_string()]), vec!["a", "b"]);
}

#[test]
fn decimal_text() {
    let read = |text: &str| Integer::from_decimal(text);
    assert_eq!(read("0"), Some(Integer::new(false, 0)));
    assert_eq!(read("-0"), Some(Integer::new(false, 0)));
    assert_eq!(read("+17"), Some(Integer::new(false, 17)));
    assert_eq!(read("007"), Some(Integer::new(false, 7)));
    assert_eq!(read("-17"), Some(Integer::new(true, 17)));
    assert_eq!(
        read("340282366920938463463374607431768211455"),
        Some(Integer::new(false, u128::MAX))
    );
    assert_eq!(read("340282366920938463463374607431768211456"), None);
    assert_eq!(read(""), None);
    assert_eq!(read("-"), None);
    assert_eq!(read("+"), None);
    assert_eq!(read("1_000"), None);
    assert_eq!(read(" 1"), None);
    assert_eq!(read("0x10"), None);
    assert_eq!(Integer::new(true, 0).to_decimal(), "0");
    assert_eq!(Integer::new(true, 170141183460469231731687303715884105728).to_decimal(),
        "-170141183460469231731687303715884105728");
    assert_eq!(Integer::new(false, 1234567890).to_decimal(), "1234567890");
    assert!(Integer::new(true, 128).fits(IntegerWidth::I8));
    assert!(!Integer::new(false, 128).fits(IntegerWidth::I8));
    assert!(!Integer::new(true, 1).fits(IntegerWidth::U64));
    assert!(Integer::new(false, u128::MAX).fits(IntegerWidth::U128));
    assert!(Integer::new(true, 3).is_negative());
    assert_eq!(Integer::new(true, 3).magnitude(), 3);
    assert!(Integer::new(true, 0).same(&Integer::new(false, 0)));
    for value in [0u128, 9, 10, 99, 100, 65535, u64::MAX as u128] {
        let text = Integer::new(false, value).to_decimal();
        assert_eq!(Integer::from_decimal(&text), Some(Integer::new(false, value)));
    }
}

#[test]
fn float_text_is_what_the_float_parser_takes() {
    let texts = [
        "0", "1", "-1", "+1", "1.5", "1.", ".5", "-.5", "+5.", ".", "", "+", "-", "1e5", "1E5",
        "1e+5", "1e-5", "1.5e3", ".5e3", "5.e3", "e5", "1e", "1e+", "1e5.0", "1.5.5", "1_000",
        "0x10", " 1", "1 ", "inf", "-inf", "+infinity", "INF", "Infinity", "infinit", "nan",
        "NaN", "-nan", "nanx", "1f32", "--1", "+-1", "1ee5", "1e5e5", "00.00", "9999999999e999",
    ];
    for text in texts {
        assert_eq!(is_float_text(text), text.parse::<f64>().is_ok(), "{:?}", text);
        assert_eq!(is_float_text(text), text.parse::<f32>().is_ok(), "{:?}", text);
    }
    assert!(is_float_text("1.1"));
    assert!(!is_float_text("1,1"));
}
