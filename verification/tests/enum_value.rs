use annotation_rs::declaration::{Data, DeriveInput, SynFields, Variant};
use annotation_rs::enum_value::{EnumItem, EnumValue};
use annotation_rs::error::{Error, ErrorKind};
use annotation_rs::syntax::{Lit, Marker, Meta, MetaList, MetaNameValue, NestedMeta, Path};

fn path(name: &str) -> Path {
    Path { leading_colon: false, segments: vec![name.to_string()] }
}

fn value_marker(marker: &str, value: &str) -> Marker {
    Marker {
        path: path(marker),
        meta: Some(Meta::List(MetaList {
            path: path(marker),
            nested: vec![NestedMeta::Lit(Lit::Str(value.to_string()))],
        })),
    }
}

fn variant(name: &str, attrs: Vec<Marker>) -> Variant {
    Variant { attrs, ident: name.to_string() }
}

fn declaration(marker: &str, names: [&str; 3]) -> DeriveInput {
    DeriveInput {
        attrs: vec![],
        ident: "TestEnum".to_string(),
        data: Data::Enum(vec![
            variant(names[0], vec![value_marker(marker, "aaa")]),
            variant(names[1], vec![]),
            variant(names[2], vec![]),
        ]),
    }
}

fn fixture() -> EnumValue {
    EnumValue::from_ast(&declaration("variant_value", ["VariantA", "VariantB", "VariantC"]))
        .unwrap()
}

fn variant_of(test_enum: &EnumValue, value: &str) -> String {
    test_enum.items[test_enum.from_str(value).unwrap()].ident.clone()
}

#[test]
pub fn test_enum_value_test_impl_of_enum() {
    let test_enum = EnumValue::from_ast(&declaration("enum_item_value", ["A", "B", "C"])).unwrap();
    let value = test_enum.from_str("aaa").unwrap();
    assert_eq!(test_enum.items[value].ident, "A");
}

#[test]
pub fn test_enum_test_impl_of_enum() {
    let test_enum = EnumValue::from_ast(&declaration("enum_item_value", ["A", "B", "C"])).unwrap();
    let value = test_enum.from_str("aaa").unwrap();
    assert_eq!(value, 0);
}

#[test]
pub fn test_enum() {
    let test_enum = fixture();
    assert_eq!(variant_of(&test_enum, "aaa"), "VariantA");
    assert_eq!(variant_of(&test_enum, "variant_b"), "VariantB");
    assert_eq!(variant_of(&test_enum, "variant_c"), "VariantC");
}

#[test]
pub fn enums_test_enum() {
    let test_enum = fixture();
    assert_eq!(test_enum.from_str("aaa").unwrap(), 0);
    assert_eq!(test_enum.from_str("variant_b").unwrap(), 1);
    assert_eq!(test_enum.from_str("variant_c").unwrap(), 2);
}

#[test]
pub fn test_enum_value_test_enum() {
    let test_enum = fixture();
    assert_eq!(test_enum.from_str("aaa"), Ok(0));
    assert_eq!(test_enum.from_str("variant_b"), Ok(1));
    assert_eq!(test_enum.from_str("variant_c"), Ok(2));
}

#[test]
fn unknown_string_is_an_error() {
    let test_enum = fixture();
    let error = test_enum.from_str("zzz").unwrap_err();
    assert_eq!(error.get_message(), "Unexpected TestEnum value: zzz");
    assert_eq!(error, Error::new("Unexpected TestEnum value: zzz"));
    assert!(test_enum.from_str("variant_a").is_err());
    assert!(test_enum.from_str("AAA").is_err());
    assert!(test_enum.from_str("aa").is_err());
    assert!(test_enum.from_str("").is_err());
}

#[test]
fn every_variant_reads_back_from_its_literal() {
    let test_enum = fixture();
    for variant in 0..3 {
        match test_enum.to_tokens(variant) {
            Some(Lit::Str(key)) => assert_eq!(test_enum.from_str(&key), Ok(variant)),
            other => panic!("no string literal: {:?}", other),
        }
    }
    assert_eq!(test_enum.to_tokens(0), Some(Lit::Str("aaa".to_string())));
    assert_eq!(test_enum.to_tokens(3), None);
}

#[test]
fn first_variant_of_a_string_wins() {
    let twice = EnumValue {
        ident: "Twice".to_string(),
        items: vec![
            EnumItem { ident: "First".to_string(), value: "same".to_string() },
            EnumItem { ident: "Second".to_string(), value: "same".to_string() },
        ],
        mod_path: None,
    };
    assert_eq!(twice.from_str("same"), Ok(0));
    assert_eq!(twice.to_tokens(1), Some(Lit::Str("same".to_string())));
    assert!(twice.items[1].to_pattern_arm("same"));
    assert!(!twice.items[1].to_pattern_arm("Same"));
}

#[test]
fn default_key_is_the_snake_case_of_the_name() {
    let item = |name: &str| EnumItem::from_ast(&variant(name, vec![])).unwrap().value;
    assert_eq!(item("VariantB"), "variant_b");
    assert_eq!(item("XMLHttpRequest"), "xml_http_request");
    assert_eq!(item("already_snake"), "already_snake");
}

#[test]
fn last_marker_decides_the_key() {
    let item = EnumItem::from_ast(&variant(
        "A",
        vec![
            value_marker("variant_value", "first"),
            value_marker("other", "skipped"),
            value_marker("variant_value", "second"),
        ],
    ))
    .unwrap();
    assert_eq!(item, EnumItem { ident: "A".to_string(), value: "second".to_string() });
}

#[test]
fn malformed_variant_markers_are_errors() {
    let with = |marker: Marker| EnumItem::from_ast(&variant("A", vec![marker])).unwrap_err();
    let empty = Marker {
        path: path("variant_value"),
        meta: Some(Meta::List(MetaList { path: path("variant_value"), nested: vec![] })),
    };
    let error = with(empty);
    assert_eq!(error.kind, ErrorKind::MalformedMarker);
    assert_eq!(error.message, "Unexpected nested segment");
    let not_literal = Marker {
        path: path("variant_value"),
        meta: Some(Meta::List(MetaList {
            path: path("variant_value"),
            nested: vec![NestedMeta::Meta(Meta::Path(path("x")))],
        })),
    };
    assert_eq!(with(not_literal).message, "Meta of enum_item_value must be Lit List");
    let not_list = Marker {
        path: path("variant_value"),
        meta: Some(Meta::NameValue(MetaNameValue {
            path: path("variant_value"),
            lit: Lit::Str("x".to_string()),
        })),
    };
    assert_eq!(with(not_list).message, "Meta of enum_item_value must be Lit List");
    let not_string = Marker {
        path: path("variant_value"),
        meta: Some(Meta::List(MetaList {
            path: path("variant_value"),
            nested: vec![NestedMeta::Lit(Lit::Bool(true))],
        })),
    };
    let error = with(not_string);
    assert_eq!(error.kind, ErrorKind::InvalidLiteralKind);
    assert_eq!(error.message, "expected variant_value lit to be a string");
    let unparsed = Marker { path: path("variant_value"), meta: None };
    assert_eq!(with(unparsed).message, "Unable to parse marker");
}

#[test]
fn enum_descriptor_is_built_from_an_enum_only() {
    let input = DeriveInput {
        attrs: vec![],
        ident: "S".to_string(),
        data: Data::Struct(SynFields::Unit),
    };
    let error = EnumValue::from_ast(&input).unwrap_err();
    assert_eq!(error.kind, ErrorKind::UnexpectedDeclaration);
    assert_eq!(error.message, "EnumValue can only be created from Enum");
}

#[test]
fn mod_path_is_read_from_its_marker() {
    let mod_path = |value: Lit| Marker {
        path: path("mod_path"),
        meta: Some(Meta::NameValue(MetaNameValue { path: path("mod_path"), lit: value })),
    };
    let mut input = declaration("variant_value", ["A", "B", "C"]);
    input.attrs = vec![mod_path(Lit::Str("objects::enums".to_string()))];
    assert_eq!(EnumValue::from_ast(&input).unwrap().mod_path, Some("objects::enums".to_string()));
    input.attrs = vec![mod_path(Lit::Bool(true))];
    assert_eq!(EnumValue::from_ast(&input).unwrap_err().kind, ErrorKind::InvalidLiteralKind);
    input.attrs = vec![];
    assert_eq!(EnumValue::from_ast(&input).unwrap().mod_path, None);
}
