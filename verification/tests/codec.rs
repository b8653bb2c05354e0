use annotation_rs::attribute::Annotation;
use annotation_rs::declaration::{
    Data, DeriveInput, GenericArgument, PathArguments, PathSegment, SynField, SynFields, SynType,
    TypePath, Variant,
};
use annotation_rs::enum_value::EnumValue;
use annotation_rs::error::{Diagnostic, ErrorKind};
use annotation_rs::field::{Fields, NamedField, UnnamedFiled};
use annotation_rs::number::{Integer, IntegerWidth};
use annotation_rs::reader::{GetAnnotationParam, Reader, ReaderConfig};
use annotation_rs::registry::Registry;
use annotation_rs::syntax::{Lit, Marker, Meta, MetaList, MetaNameValue, NestedMeta, Path};
use annotation_rs::ty::{FieldType, Type};
use annotation_rs::value::{Record, Value};

fn path(name: &str) -> Path {
    Path { leading_colon: false, segments: vec![name.to_string()] }
}

fn s(value: &str) -> Lit {
    Lit::Str(value.to_string())
}

fn int_lit(digits: &str) -> Lit {
    Lit::Int(digits.to_string())
}

fn float_lit(digits: &str) -> Lit {
    Lit::Float(digits.to_string())
}

fn nv(key: &str, lit: Lit) -> NestedMeta {
    NestedMeta::Meta(Meta::NameValue(MetaNameValue { path: path(key), lit }))
}

fn list(key: &str, nested: Vec<NestedMeta>) -> NestedMeta {
    NestedMeta::Meta(Meta::List(MetaList { path: path(key), nested }))
}

fn bare(lit: Lit) -> NestedMeta {
    NestedMeta::Lit(lit)
}

fn marker(name: &str, nested: Vec<NestedMeta>) -> Marker {
    Marker { path: path(name), meta: Some(Meta::List(MetaList { path: path(name), nested })) }
}

fn ty(name: &str, args: Vec<SynType>) -> SynType {
    let arguments = if args.is_empty() {
        PathArguments::NoArguments
    } else {
        PathArguments::AngleBracketed(args.into_iter().map(GenericArgument::Type).collect())
    };
    SynType::Path(TypePath { segments: vec![PathSegment { ident: name.to_string(), arguments }] })
}

fn plain(name: &str) -> SynType {
    ty(name, vec![])
}

fn named(name: &str, ty: SynType, attrs: Vec<Marker>) -> SynField {
    SynField { attrs, ident: Some(name.to_string()), ty }
}

fn unnamed(ty: SynType, attrs: Vec<Marker>) -> SynField {
    SynField { attrs, ident: None, ty }
}

fn declaration(name: &str, attrs: Vec<Marker>, fields: SynFields) -> DeriveInput {
    DeriveInput { attrs, ident: name.to_string(), data: Data::Struct(fields) }
}

fn test_enum() -> EnumValue {
    EnumValue::from_ast(&DeriveInput {
        attrs: vec![],
        ident: "TestEnum".to_string(),
        data: Data::Enum(vec![
            Variant {
                attrs: vec![marker("variant_value", vec![bare(s("aaa"))])],
                ident: "VariantA".to_string(),
            },
            Variant { attrs: vec![], ident: "VariantB".to_string() },
            Variant { attrs: vec![], ident: "VariantC".to_string() },
        ]),
    })
    .unwrap()
}

fn simple() -> Annotation {
    Annotation::from_ast(&declaration(
        "Simple",
        vec![],
        SynFields::Named(vec![
            named(
                "int32",
                plain("i32"),
                vec![marker("attribute_field", vec![nv("alias", s("i32"))])],
            ),
            named(
                "unsigned16",
                plain("u16"),
                vec![marker("attribute_field", vec![nv("alias", s("u16"))])],
            ),
            named("float", plain("f32"), vec![]),
            named("string", plain("String"), vec![]),
            named(
                "enum1",
                ty("Option", vec![plain("TestEnum")]),
                vec![marker(
                    "attribute_field",
                    vec![nv("enum_value", Lit::Bool(true)), nv("default", s("variant_c"))],
                )],
            ),
            named(
                "enum2",
                plain("TestEnum"),
                vec![marker("attribute_field", vec![nv("enum_value", Lit::Bool(true))])],
            ),
        ]),
    ))
    .unwrap()
}

fn tuple() -> Annotation {
    Annotation::from_ast(&declaration(
        "Tuple",
        vec![],
        SynFields::Unnamed(vec![unnamed(ty("Option", vec![plain("String")]), vec![])]),
    ))
    .unwrap()
}

fn no_field() -> Annotation {
    Annotation::from_ast(&declaration("NoField", vec![], SynFields::Unit)).unwrap()
}

fn enum_marker() -> Vec<Marker> {
    vec![marker("attribute_field", vec![nv("enum_value", Lit::Bool(true))])]
}

fn full() -> Annotation {
    Annotation::from_ast(&declaration(
        "Full",
        vec![],
        SynFields::Named(vec![
            named("object", plain("Simple"), vec![]),
            named("vector", ty("Vec", vec![plain("String")]), vec![]),
            named("map", ty("HashMap", vec![plain("String"), plain("TestEnum")]), enum_marker()),
        ]),
    ))
    .unwrap()
}

fn nested() -> Annotation {
    Annotation::from_ast(&declaration(
        "Nested",
        vec![],
        SynFields::Named(vec![
            named("map2", ty("HashMap", vec![plain("String"), plain("Tuple")]), vec![]),
            named(
                "map3",
                ty("HashMap", vec![plain("String"), ty("Vec", vec![plain("TestEnum")])]),
                enum_marker(),
            ),
            named("empty", ty("Option", vec![plain("NoField")]), vec![]),
        ]),
    ))
    .unwrap()
}

fn registry() -> Registry {
    let mut registry = Registry::new();
    registry.add_enum(test_enum());
    registry.add_annotation(simple());
    registry.add_annotation(tuple());
    registry.add_annotation(no_field());
    registry.add_annotation(full());
    registry.add_annotation(nested());
    registry
}

fn simple_arguments() -> Vec<NestedMeta> {
    vec![
        nv("i32", int_lit("1")),
        nv("u16", int_lit("2")),
        nv("float", float_lit("1.1")),
        nv("string", s("test")),
        nv("enum2", s("aaa")),
    ]
}

fn integer(value: u128) -> Value {
    Value::Integer(Integer::new(false, value))
}

fn text(value: &str) -> Value {
    Value::String(value.to_string())
}

fn assert_simple(attr: &Record) {
    assert_eq!(attr.get(0), Some(&integer(1)));
    assert_eq!(attr.get(1), Some(&integer(2)));
    let float: f32 = match attr.get(2) {
        Some(Value::Float(digits)) => digits.parse().unwrap(),
        other => panic!("no float: {:?}", other),
    };
    assert!((float - 1.1).abs() < f32::EPSILON);
    assert_eq!(attr.get(3), Some(&text("test")));
    assert_eq!(attr.get(4), Some(&Value::Enum(2)));
    assert_eq!(attr.get(5), Some(&Value::Enum(0)));
}

fn read(config: &ReaderConfig, input: &DeriveInput) -> Reader {
    config.get_reader(&registry(), input).unwrap()
}

fn simple_derive() -> ReaderConfig {
    ReaderConfig {
        name: "SimpleDerive".to_string(),
        annotation_idents: vec!["Simple".to_string()],
        field_attr_idents: vec![],
    }
}

fn ask(class: &str, annotation: &str, property: Option<&str>) -> GetAnnotationParam {
    GetAnnotationParam {
        class: class.to_string(),
        annotation: annotation.to_string(),
        property: property.map(|p| p.to_string()),
    }
}

#[test]
pub fn simple_test() {
    let input = declaration("Test", vec![marker("Simple", simple_arguments())], SynFields::Unit);
    let reader = read(&simple_derive(), &input);
    let attr = ask("Test", "Simple", None).get_annotation(&reader).unwrap();
    assert_simple(attr);
}

#[test]
pub fn simple_test_simple_test() {
    let attr = simple().from_attribute_args(&registry(), &simple_arguments()).unwrap();
    assert_simple(&attr);
    let meta = Meta::List(MetaList { path: path("Simple"), nested: simple_arguments() });
    assert_eq!(simple().from_meta(&registry(), &meta).unwrap(), attr);
}

#[test]
pub fn test_full() {
    let input = declaration(
        "Test",
        vec![marker(
            "Full",
            vec![
                list("object", simple_arguments()),
                list("vector", vec![bare(s("1")), bare(s("2")), bare(s("3"))]),
                list(
                    "map",
                    vec![nv("a", s("aaa")), nv("b", s("variant_b")), nv("c", s("variant_c"))],
                ),
            ],
        )],
        SynFields::Unit,
    );
    let config = ReaderConfig {
        name: "FullDerive".to_string(),
        annotation_idents: vec!["Full".to_string()],
        field_attr_idents: vec![],
    };
    let reader = read(&config, &input);
    let attr = ask("Test", "Full", None).get_annotation(&reader).unwrap();
    match attr.get(0) {
        Some(Value::Object(simple)) => assert_simple(simple),
        other => panic!("no object: {:?}", other),
    }
    assert_eq!(attr.get(1), Some(&Value::List(vec![text("1"), text("2"), text("3")])));
    assert_eq!(
        attr.get(2),
        Some(&Value::Mapping(vec![
            ("a".to_string(), Value::Enum(0)),
            ("b".to_string(), Value::Enum(1)),
            ("c".to_string(), Value::Enum(2)),
        ]))
    );
}

#[test]
pub fn test_no_filed() {
    let input = declaration(
        "Test",
        vec![],
        SynFields::Named(vec![
            named("a", plain("i32"), vec![marker("Simple", simple_arguments())]),
            named("b", plain("i32"), vec![]),
        ]),
    );
    let config = ReaderConfig {
        name: "TestDerive".to_string(),
        annotation_idents: vec![],
        field_attr_idents: vec!["Simple".to_string()],
    };
    let reader = read(&config, &input);
    let attr = ask("Test", "Simple", Some("a")).get_annotation(&reader).unwrap();
    assert_simple(attr);
    let a = match attr.get(0) {
        Some(Value::Integer(i)) => i.magnitude(),
        _ => 0,
    };
    println!("{}-{}", a, a);
}

#[test]
fn reader_names_tables_and_accessors() {
    let input = declaration(
        "Test",
        vec![marker("Simple", simple_arguments()), marker("other", vec![])],
        SynFields::Named(vec![
            named("FieldA", plain("i32"), vec![marker("Simple", simple_arguments())]),
            named("b", plain("i32"), vec![]),
        ]),
    );
    let config = ReaderConfig {
        name: "TestDerive".to_string(),
        annotation_idents: vec!["Simple".to_string(), "Tuple".to_string()],
        field_attr_idents: vec!["Simple".to_string()],
    };
    assert_eq!(config.get_fn_name(), "derive_test_derive");
    assert_eq!(config.get_annotation(), vec!["Simple".to_string(), "Tuple".to_string()]);
    let reader = read(&config, &input);
    assert_eq!(reader.ident, "Test");
    assert_eq!(reader.declaration.name, "ATTRIBUTE_MAP");
    assert_eq!(reader.declaration.present, vec!["Simple".to_string()]);
    assert_eq!(reader.declaration.accessors[0].name, "__attr_simple");
    assert_eq!(reader.members.len(), 2);
    assert_eq!(reader.members[0].name, "FIELDA_ATTRIBUTE_MAP");
    assert_eq!(reader.members[0].accessors[0].name, "__attr_fielda_simple");
    assert!(reader.members[1].present.is_empty());
    assert!(ask("Test", "Simple", None).has_annotation(&reader));
    assert!(ask("Test", "Simple", Some("FieldA")).has_annotation(&reader));
    assert!(!ask("Test", "Simple", Some("b")).has_annotation(&reader));
    assert!(!ask("Test", "Tuple", None).has_annotation(&reader));
    assert!(!ask("Other", "Simple", None).has_annotation(&reader));
    assert!(ask("Test", "Tuple", None).get_annotation(&reader).is_none());
}

#[test]
fn reader_passes_over_unknown_markers_and_fails_on_bad_ones() {
    let config = simple_derive();
    let skipped = declaration(
        "Test",
        vec![Marker { path: path("doc"), meta: None }, marker("Tuple", vec![])],
        SynFields::Unit,
    );
    let reader = read(&config, &skipped);
    assert!(reader.declaration.present.is_empty());
    assert!(reader.declaration.accessors.is_empty());
    let bad = declaration(
        "Test",
        vec![marker("Simple", vec![nv("i32", int_lit("1"))])],
        SynFields::Unit,
    );
    let error = config.get_reader(&registry(), &bad).unwrap_err();
    assert_eq!(error.kind, ErrorKind::MissingRequiredField);
    let unparsed =
        declaration("Test", vec![Marker { path: path("Simple"), meta: None }], SynFields::Unit);
    let error = config.get_reader(&registry(), &unparsed).unwrap_err();
    assert_eq!(error.kind, ErrorKind::MalformedMarker);
}

fn flag_schema() -> Annotation {
    Annotation::from_ast(&declaration(
        "Scenario",
        vec![],
        SynFields::Named(vec![
            named(
                "int32",
                plain("i32"),
                vec![marker("attribute_field", vec![nv("alias", s("i32"))])],
            ),
            named("flag", plain("bool"), vec![]),
            named("name", plain("String"), vec![]),
        ]),
    ))
    .unwrap()
}

#[test]
fn all_fields_given() {
    let args = vec![nv("i32", int_lit("1")), nv("flag", Lit::Bool(true)), nv("name", s("x"))];
    let record = flag_schema().from_attribute_args(&Registry::new(), &args).unwrap();
    assert_eq!(
        record,
        Record { fields: vec![Some(integer(1)), Some(Value::Bool(true)), Some(text("x"))] }
    );
}

#[test]
fn required_field_omitted() {
    let args = vec![nv("i32", int_lit("1")), nv("name", s("x"))];
    let error = flag_schema().from_attribute_args(&Registry::new(), &args).unwrap_err();
    assert_eq!(error.kind, ErrorKind::MissingRequiredField);
    assert_eq!(error.message, "Not found value on required field flag");
    assert_eq!(error.position, None);
}

#[test]
fn missing_field_is_named_by_its_own_name() {
    let args = vec![nv("flag", Lit::Bool(true)), nv("name", s("x"))];
    let error = flag_schema().from_attribute_args(&Registry::new(), &args).unwrap_err();
    assert_eq!(error.message, "Not found value on required field int32");
}

#[test]
fn unknown_argument_fails_fast() {
    let args = vec![
        nv("i32", int_lit("1")),
        nv("zzz", int_lit("1")),
        nv("flag", s("not a bool")),
        nv("name", s("x")),
    ];
    let error = flag_schema().from_attribute_args(&Registry::new(), &args).unwrap_err();
    assert_eq!(
        error,
        Diagnostic {
            kind: ErrorKind::UnexpectedArgument,
            message: "Unexpected nested value in list".to_string(),
            position: Some(1),
        }
    );
}

#[test]
fn argument_of_the_wrong_shape_matches_no_field() {
    let args = vec![list("i32", vec![]), nv("flag", Lit::Bool(true)), nv("name", s("x"))];
    let error = flag_schema().from_attribute_args(&Registry::new(), &args).unwrap_err();
    assert_eq!(error.kind, ErrorKind::UnexpectedArgument);
    assert_eq!(error.position, Some(0));
    let args = vec![bare(int_lit("1"))];
    let error = flag_schema().from_attribute_args(&Registry::new(), &args).unwrap_err();
    assert_eq!(error.kind, ErrorKind::UnexpectedArgument);
}

#[test]
fn coercion_errors_abort_at_once() {
    let args = vec![nv("i32", s("1")), nv("zzz", int_lit("1"))];
    let error = flag_schema().from_attribute_args(&Registry::new(), &args).unwrap_err();
    assert_eq!(error.kind, ErrorKind::InvalidLiteralKind);
    assert_eq!(error.message, "expected i32 lit to be a integer");
}

#[test]
fn integers_are_decoded_for_their_width() {
    let schema = flag_schema();
    let registry = Registry::new();
    let with = |digits: &str| {
        schema.from_attribute_args(
            &registry,
            &vec![nv("i32", int_lit(digits)), nv("flag", Lit::Bool(false)), nv("name", s(""))],
        )
    };
    assert_eq!(
        with("2147483647").unwrap().get(0),
        Some(&Value::Integer(Integer::new(false, 2147483647)))
    );
    assert_eq!(
        with("-2147483648").unwrap().get(0),
        Some(&Value::Integer(Integer::new(true, 2147483648)))
    );
    let error = with("2147483648").unwrap_err();
    assert_eq!(error.kind, ErrorKind::InvalidLiteralKind);
    assert_eq!(error.message, "expected i32 lit to be a integer in range");
    assert_eq!(with("-2147483649").unwrap_err().kind, ErrorKind::InvalidLiteralKind);
    assert_eq!(with("12a").unwrap_err().kind, ErrorKind::InvalidLiteralKind);
}

#[test]
fn later_argument_replaces_earlier_one() {
    let args = vec![
        nv("i32", int_lit("1")),
        nv("flag", Lit::Bool(true)),
        nv("name", s("x")),
        nv("i32", int_lit("7")),
    ];
    let record = flag_schema().from_attribute_args(&Registry::new(), &args).unwrap();
    assert_eq!(record.get(0), Some(&integer(7)));
}

#[test]
fn default_applies_where_no_argument_is_given() {
    let record = simple().from_attribute_args(&registry(), &simple_arguments()).unwrap();
    assert_eq!(record.get(4), Some(&Value::Enum(2)));
    let mut args = simple_arguments();
    args.push(nv("enum1", s("variant_b")));
    let record = simple().from_attribute_args(&registry(), &args).unwrap();
    assert_eq!(record.get(4), Some(&Value::Enum(1)));
}

#[test]
fn optional_field_without_default_is_absent() {
    let record = tuple().from_attribute_args(&registry(), &vec![]).unwrap();
    assert_eq!(record, Record { fields: vec![None] });
    assert_eq!(record.get(0), None);
    assert_eq!(record.get(1), None);
    let record = tuple().from_attribute_args(&registry(), &vec![bare(s("x"))]).unwrap();
    assert_eq!(record, Record { fields: vec![Some(text("x"))] });
}

#[test]
fn positional_fields_go_by_position() {
    let pair = Annotation::from_ast(&declaration(
        "Pair",
        vec![marker("attribute", vec![bare(s("test_tuple"))])],
        SynFields::Unnamed(vec![
            unnamed(plain("i32"), vec![]),
            unnamed(ty("Option", vec![plain("String")]), vec![]),
        ]),
    ))
    .unwrap();
    assert_eq!(pair.get_path(), "test_tuple");
    let registry = Registry::new();
    let record =
        pair.from_attribute_args(&registry, &vec![bare(int_lit("5")), bare(s("x"))]).unwrap();
    assert_eq!(record, Record { fields: vec![Some(integer(5)), Some(text("x"))] });
    let error = pair.from_attribute_args(&registry, &vec![bare(s("x"))]).unwrap_err();
    assert_eq!(error.message, "expected 1st field lit to be a integer");
    let error = pair.from_attribute_args(&registry, &vec![]).unwrap_err();
    assert_eq!(error.message, "Not found value on required field 1st field");
    let error = pair
        .from_attribute_args(&registry, &vec![bare(int_lit("5")), bare(s("x")), bare(s("y"))])
        .unwrap_err();
    assert_eq!(error.kind, ErrorKind::UnexpectedArgument);
    assert_eq!(error.position, Some(2));
    let error = pair.from_attribute_args(&registry, &vec![nv("a", int_lit("5"))]).unwrap_err();
    assert_eq!(error.kind, ErrorKind::UnexpectedArgument);
}

#[test]
fn ordinal_labels() {
    let label = |index: usize| {
        UnnamedFiled { index, field_type: FieldType::RequiredField(Type::Bool), default: None }
            .get_temp_var_name()
    };
    assert_eq!(label(0), "1st field");
    assert_eq!(label(1), "2nd field");
    assert_eq!(label(2), "3rd field");
    assert_eq!(label(3), "4th field");
    assert_eq!(label(10), "11th field");
}

#[test]
fn list_keeps_the_order_of_its_items() {
    let record = full()
        .from_attribute_args(
            &registry(),
            &vec![
                list("vector", vec![bare(s("1")), bare(s("2")), bare(s("3"))]),
                list("object", simple_arguments()),
                list("map", vec![nv("a", s("aaa")), nv("b", s("variant_b"))]),
            ],
        )
        .unwrap();
    assert_eq!(record.get(1), Some(&Value::List(vec![text("1"), text("2"), text("3")])));
    assert_eq!(
        record.get(2),
        Some(&Value::Mapping(vec![
            ("a".to_string(), Value::Enum(0)),
            ("b".to_string(), Value::Enum(1)),
        ]))
    );
}

#[test]
fn list_takes_bare_literals_only() {
    let with = |items: Vec<NestedMeta>| {
        full().from_attribute_args(
            &registry(),
            &vec![list("object", simple_arguments()), list("vector", items), list("map", vec![])],
        )
    };
    let error = with(vec![bare(s("1")), nv("a", s("2"))]).unwrap_err();
    assert_eq!(error.kind, ErrorKind::UnsupportedListElement);
    assert_eq!(error.message, "Only support List of Lit");
    let error = with(vec![bare(int_lit("1"))]).unwrap_err();
    assert_eq!(error.kind, ErrorKind::InvalidLiteralKind);
    assert_eq!(error.message, "expected vector lit to be a string");
    assert_eq!(with(vec![]).unwrap().get(1), Some(&Value::List(vec![])));
}

#[test]
fn map_takes_named_items_and_the_last_of_a_key_stays() {
    let with = |items: Vec<NestedMeta>| {
        full().from_attribute_args(
            &registry(),
            &vec![list("object", simple_arguments()), list("vector", vec![]), list("map", items)],
        )
    };
    let record =
        with(vec![nv("a", s("aaa")), nv("b", s("variant_b")), nv("a", s("variant_c"))]).unwrap();
    assert_eq!(
        record.get(2),
        Some(&Value::Mapping(vec![
            ("a".to_string(), Value::Enum(2)),
            ("b".to_string(), Value::Enum(1)),
        ]))
    );
    let error = with(vec![bare(s("aaa"))]).unwrap_err();
    assert_eq!(error.kind, ErrorKind::InvalidMapEntry);
    let error = with(vec![nv("a", s("zzz"))]).unwrap_err();
    assert_eq!(error.kind, ErrorKind::UnknownVariant);
    assert_eq!(error.message, "Unexpected TestEnum value: zzz");
    let keyless = NestedMeta::Meta(Meta::NameValue(MetaNameValue {
        path: Path { leading_colon: false, segments: vec![] },
        lit: s("aaa"),
    }));
    let error = with(vec![keyless]).unwrap_err();
    assert_eq!(error.kind, ErrorKind::InvalidMapEntry);
    assert_eq!(error.message, "Unexpected type path segment");
}

#[test]
fn map_values_may_be_objects_and_lists() {
    let args = vec![
        list("map2", vec![list("x", vec![bare(s("s"))]), list("y", vec![])]),
        list("map3", vec![list("k", vec![bare(s("aaa")), bare(s("variant_c"))])]),
        list("empty", vec![bare(s("ignored"))]),
    ];
    let record = nested().from_attribute_args(&registry(), &args).unwrap();
    assert_eq!(
        record.get(0),
        Some(&Value::Mapping(vec![
            ("x".to_string(), Value::Object(Record { fields: vec![Some(text("s"))] })),
            ("y".to_string(), Value::Object(Record { fields: vec![None] })),
        ]))
    );
    assert_eq!(
        record.get(1),
        Some(&Value::Mapping(vec![(
            "k".to_string(),
            Value::List(vec![Value::Enum(0), Value::Enum(2)])
        )]))
    );
    assert_eq!(record.get(2), Some(&Value::Object(Record { fields: vec![] })));
}

#[test]
fn unresolved_names_are_errors() {
    let error = full()
        .from_attribute_args(&Registry::new(), &vec![list("object", simple_arguments())])
        .unwrap_err();
    assert_eq!(error.kind, ErrorKind::UnresolvedType);
    assert_eq!(error.message, "Unknown type Simple");
    let error = simple().from_attribute_args(&Registry::new(), &simple_arguments()).unwrap_err();
    assert_eq!(error.kind, ErrorKind::UnresolvedType);
    assert_eq!(error.message, "Unknown type TestEnum");
}

#[test]
fn from_meta_takes_a_list() {
    let meta = Meta::Path(path("Simple"));
    let error = simple().from_meta(&registry(), &meta).unwrap_err();
    assert_eq!(error.kind, ErrorKind::MalformedMarker);
    assert_eq!(error.message, "Argument of attribute must be a List");
    assert_eq!(no_field().from_meta(&registry(), &meta).unwrap(), Record { fields: vec![] });
    let error =
        no_field().from_attribute_args(&registry(), &vec![bare(s("x"))]).unwrap_err();
    assert_eq!(error.kind, ErrorKind::UnexpectedArgument);
    assert_eq!(
        no_field().from_attribute_args(&registry(), &vec![]).unwrap(),
        Record { fields: vec![] }
    );
}

fn round_trip(annotation: &Annotation, record: Record) {
    let registry = registry();
    let meta = annotation.to_tokens(&registry, &record).unwrap();
    assert_eq!(annotation.from_meta(&registry, &meta).unwrap(), record);
}

#[test]
fn records_round_trip() {
    round_trip(
        &simple(),
        Record {
            fields: vec![
                Some(Value::Integer(Integer::new(true, 2147483648))),
                Some(integer(65535)),
                Some(Value::Float("1.5e3".to_string())),
                Some(text("te\"st")),
                Some(Value::Enum(1)),
                Some(Value::Enum(0)),
            ],
        },
    );
    round_trip(&tuple(), Record { fields: vec![None] });
    round_trip(&tuple(), Record { fields: vec![Some(text("x"))] });
    round_trip(&no_field(), Record { fields: vec![] });
    let simple_record = simple().from_attribute_args(&registry(), &simple_arguments()).unwrap();
    round_trip(
        &full(),
        Record {
            fields: vec![
                Some(Value::Object(simple_record)),
                Some(Value::List(vec![text("1"), text("2")])),
                Some(Value::Mapping(vec![
                    ("b".to_string(), Value::Enum(1)),
                    ("a".to_string(), Value::Enum(0)),
                ])),
            ],
        },
    );
    round_trip(
        &nested(),
        Record {
            fields: vec![
                Some(Value::Mapping(vec![(
                    "x".to_string(),
                    Value::Object(Record { fields: vec![Some(text("s"))] }),
                )])),
                Some(Value::Mapping(vec![(
                    "k".to_string(),
                    Value::List(vec![Value::Enum(2), Value::Enum(2)]),
                )])),
                None,
            ],
        },
    );
}

#[test]
fn serialised_form_of_a_record() {
    let record = simple().from_attribute_args(&registry(), &simple_arguments()).unwrap();
    let meta = simple().to_tokens(&registry(), &record).unwrap();
    let mut expected = simple_arguments();
    expected.insert(4, nv("enum1", s("variant_c")));
    assert_eq!(meta, Meta::List(MetaList { path: path("Simple"), nested: expected }));
    assert_eq!(
        no_field().to_tokens(&registry(), &Record { fields: vec![] }),
        Some(Meta::Path(path("NoField")))
    );
    assert_eq!(
        Type::Integer(IntegerWidth::I8).to_token_token_stream(
            &registry(),
            &Value::Integer(Integer::new(true, 128)),
            "x",
            false
        ),
        Some(bare(int_lit("-128")))
    );
}

#[test]
fn records_that_are_not_of_the_schema_are_not_serialised() {
    let registry = registry();
    let fields = &tuple().fields;
    assert_eq!(fields.get_to_token_token_stream(&registry, &Record { fields: vec![] }), None);
    assert_eq!(
        fields.get_to_token_token_stream(&registry, &Record { fields: vec![Some(integer(1))] }),
        None
    );
    let schema = flag_schema();
    assert_eq!(
        schema.to_tokens(
            &registry,
            &Record { fields: vec![Some(integer(1)), None, Some(text("x"))] }
        ),
        None
    );
    assert_eq!(
        schema.to_tokens(
            &registry,
            &Record {
                fields: vec![Some(integer(1 << 40)), Some(Value::Bool(true)), Some(text("x"))]
            }
        ),
        None
    );
    assert_eq!(
        Type::Enum("TestEnum".to_string()).to_token_token_stream(
            &registry,
            &Value::Enum(3),
            "e",
            true
        ),
        None
    );
    let pair = Fields::UnnamedField(vec![
        UnnamedFiled {
            index: 0,
            field_type: FieldType::OptionalField(Type::Bool),
            default: None,
        },
        UnnamedFiled {
            index: 1,
            field_type: FieldType::OptionalField(Type::Bool),
            default: None,
        },
    ]);
    assert_eq!(
        pair.get_to_token_token_stream(
            &registry,
            &Record { fields: vec![None, Some(Value::Bool(true))] }
        ),
        None
    );
    assert_eq!(
        pair.get_to_token_token_stream(
            &registry,
            &Record { fields: vec![Some(Value::Bool(true)), None] }
        ),
        Some(vec![bare(Lit::Bool(true))])
    );
}

#[test]
fn float_literals_hold_float_text() {
    let mut args = simple_arguments();
    args[2] = nv("float", float_lit("1e-3"));
    let record = simple().from_attribute_args(&registry(), &args).unwrap();
    assert_eq!(record.get(2), Some(&Value::Float("1e-3".to_string())));
    args[2] = nv("float", float_lit("1e"));
    let error = simple().from_attribute_args(&registry(), &args).unwrap_err();
    assert_eq!(error.kind, ErrorKind::InvalidLiteralKind);
    assert_eq!(error.message, "expected float lit to be a float");
    args[2] = nv("float", int_lit("1"));
    let error = simple().from_attribute_args(&registry(), &args).unwrap_err();
    assert_eq!(error.message, "expected float lit to be a float");
    assert_eq!(
        Type::Float(annotation_rs::number::FloatWidth::F64).to_token_token_stream(
            &registry(),
            &Value::Float("x".to_string()),
            "f",
            true
        ),
        None
    );
}

#[test]
fn first_field_of_a_key_wins() {
    let twice = Fields::NamedFields(vec![
        NamedField {
            name: "first".to_string(),
            path: "key".to_string(),
            default: None,
            field_type: FieldType::OptionalField(Type::Bool),
        },
        NamedField {
            name: "second".to_string(),
            path: "key".to_string(),
            default: None,
            field_type: FieldType::OptionalField(Type::Bool),
        },
    ]);
    let record = twice
        .parse_attributes_args_token_stream(&Registry::new(), &vec![nv("key", Lit::Bool(true))])
        .unwrap();
    assert_eq!(record, Record { fields: vec![Some(Value::Bool(true)), None] });
}
