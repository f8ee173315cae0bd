use oai_enum::bridge::RemoteBridge;
use oai_enum::catalog::{wrap_to, Catalog, GenerateError, VariantSource};
use oai_enum::codec::{parse_int, DecodeError};
use oai_enum::generate::{generate, EnumDefinition};
use oai_enum::json::{int_to_json, JsonNumber, JsonValue};
use oai_enum::registry::Registry;
use oai_enum::rename::{apply_rename_rule_variant, RenameRule};
use oai_enum::repr::{detect_rust_repr, parse_oai_enum_repr, resolve_repr, AttrMeta, EnumRepr};
use oai_enum::text::str_eq;

fn unit(ident: &str) -> VariantSource {
    VariantSource { ident: ident.to_string(), rename: None, discriminant: None, has_fields: false }
}

fn with_disc(ident: &str, d: i128) -> VariantSource {
    VariantSource { ident: ident.to_string(), rename: None, discriminant: Some(d), has_fields: false }
}

fn definition(ident: &str, variants: Vec<VariantSource>) -> EnumDefinition {
    EnumDefinition {
        ident: ident.to_string(),
        path: ident.to_string(),
        variants,
        rename: None,
        rename_all: None,
        repr: None,
        attrs: Vec::new(),
        description: None,
        deprecated: false,
        external_docs: None,
        remote: None,
    }
}

fn numeric(kind: &str, variants: Vec<VariantSource>) -> Catalog {
    let mut def = definition("E", variants);
    def.repr = Some(kind.to_string());
    generate(&def).unwrap().catalog
}

fn strings(v: &[&str]) -> Vec<String> {
    v.iter().map(|x| x.to_string()).collect()
}

fn s(v: &str) -> JsonValue {
    JsonValue::String(v.to_string())
}

#[test]
fn override_names_the_four_kinds() {
    assert_eq!(parse_oai_enum_repr(&Some("i32".to_string())), Some(EnumRepr::I32));
    assert_eq!(parse_oai_enum_repr(&Some("i64".to_string())), Some(EnumRepr::I64));
    assert_eq!(parse_oai_enum_repr(&Some("u32".to_string())), Some(EnumRepr::U32));
    assert_eq!(parse_oai_enum_repr(&Some("u64".to_string())), Some(EnumRepr::U64));
    assert_eq!(parse_oai_enum_repr(&Some("u8".to_string())), None);
    assert_eq!(parse_oai_enum_repr(&None), None);
}

#[test]
fn native_repr_first_attribute_last_kind() {
    let attrs = vec![
        AttrMeta::Other,
        AttrMeta::List { path: Some("derive".to_string()), nested: vec![Some("u32".to_string())] },
        AttrMeta::List { path: Some("repr".to_string()), nested: vec![Some("C".to_string())] },
        AttrMeta::List {
            path: Some("repr".to_string()),
            nested: vec![Some("i64".to_string()), None, Some("u64".to_string())],
        },
        AttrMeta::List { path: Some("repr".to_string()), nested: vec![Some("i32".to_string())] },
    ];
    assert_eq!(detect_rust_repr(&attrs), Some(EnumRepr::U64));
    assert_eq!(detect_rust_repr(&vec![AttrMeta::Other]), None);
}

#[test]
fn override_wins_over_native_repr() {
    let attrs = vec![AttrMeta::List {
        path: Some("repr".to_string()),
        nested: vec![Some("i32".to_string())],
    }];
    assert_eq!(resolve_repr(&Some("u64".to_string()), &attrs), Some(EnumRepr::U64));
    assert_eq!(resolve_repr(&Some("x".to_string()), &attrs), Some(EnumRepr::I32));
    assert_eq!(resolve_repr(&None, &Vec::new()), None);
}

#[test]
fn string_equality() {
    assert!(str_eq("abc", "abc"));
    assert!(!str_eq("abc", "abd"));
    assert!(!str_eq("abc", "ab"));
}

#[test]
fn rename_rules() {
    let id = || "CreateUser".to_string();
    assert_eq!(apply_rename_rule_variant(None, id()), "CreateUser");
    assert_eq!(apply_rename_rule_variant(Some(RenameRule::Lower), id()), "createuser");
    assert_eq!(apply_rename_rule_variant(Some(RenameRule::Upper), id()), "CREATEUSER");
    assert_eq!(apply_rename_rule_variant(Some(RenameRule::Camel), id()), "createUser");
    assert_eq!(apply_rename_rule_variant(Some(RenameRule::Snake), id()), "create_user");
    assert_eq!(apply_rename_rule_variant(Some(RenameRule::ScreamingSnake), id()), "CREATE_USER");
    assert_eq!(apply_rename_rule_variant(Some(RenameRule::Kebab), id()), "create-user");
    assert_eq!(apply_rename_rule_variant(Some(RenameRule::ScreamingKebab), id()), "CREATE-USER");
    assert_eq!(
        apply_rename_rule_variant(Some(RenameRule::Pascal), "create_user".to_string()),
        "CreateUser"
    );
}

#[test]
fn declaration_order_is_kept() {
    let g = generate(&definition("MyEnum", vec![unit("CreateUser"), unit("DeleteUser")])).unwrap();
    let schema = g.schema();
    assert_eq!(schema.enum_items, vec![s("CreateUser"), s("DeleteUser")]);
    assert_eq!(schema.format, None);
    assert_eq!(g.catalog.variants[1].ident, "DeleteUser");
}

#[test]
fn camel_case_rule_decodes_canonical_name() {
    let mut def = definition("MyEnum", vec![unit("CreateUser")]);
    def.rename_all = Some(RenameRule::Camel);
    let g = generate(&def).unwrap();
    assert_eq!(g.catalog.variants[0].name, "createUser");
    assert_eq!(g.catalog.decode_json(&Some(s("createUser"))), Ok(0));
    assert_eq!(g.catalog.decode_json(&Some(s("CreateUser"))), Err(DecodeError::InvalidValue));
}

#[test]
fn variant_rename_overrides_rule() {
    let mut delete = unit("DeleteUser");
    delete.rename = Some("delete_user".to_string());
    let mut def = definition("MyEnum", vec![unit("CreateUser"), delete]);
    def.rename_all = Some(RenameRule::ScreamingKebab);
    let g = generate(&def).unwrap();
    let c = &g.catalog;
    assert_eq!(c.variants[0].name, "CREATE-USER");
    assert_eq!(c.decode_json(&Some(s("delete_user"))), Ok(1));
    assert_eq!(c.decode_json(&Some(s("DeleteUser"))), Err(DecodeError::InvalidValue));
    assert_eq!(c.decode_parameter("delete_user"), Ok(1));
    assert_eq!(c.decode_parameter("DeleteUser"), Err(DecodeError::InvalidValue));
}

#[test]
fn string_mode_wrong_kinds() {
    let g = generate(&definition("MyEnum", vec![unit("A")])).unwrap();
    let c = &g.catalog;
    assert_eq!(c.decode_json(&None), Err(DecodeError::WrongType));
    assert_eq!(c.decode_json(&Some(JsonValue::Null)), Err(DecodeError::WrongType));
    assert_eq!(c.decode_json(&Some(JsonValue::Bool(true))), Err(DecodeError::WrongType));
    assert_eq!(c.decode_json(&Some(JsonValue::Array)), Err(DecodeError::WrongType));
    assert_eq!(
        c.decode_json(&Some(JsonValue::Number(JsonNumber::PosInt(0)))),
        Err(DecodeError::WrongType)
    );
}

#[test]
fn signed_modes_have_no_bounds() {
    for kind in ["i32", "i64"] {
        let mut def = definition("E", vec![with_disc("A", -5)]);
        def.repr = Some(kind.to_string());
        let schema = generate(&def).unwrap().schema();
        assert_eq!(schema.minimum, None);
        assert_eq!(schema.maximum, None);
        assert_eq!(schema.enum_items, vec![JsonValue::Number(JsonNumber::NegInt(-5))]);
    }
    let mut def = definition("E", vec![with_disc("A", 7)]);
    def.repr = Some("i64".to_string());
    assert_eq!(generate(&def).unwrap().schema().format, Some("int64".to_string()));
}

#[test]
fn unsigned_64_has_minimum_only() {
    let mut def = definition("E", vec![with_disc("A", 18446744073709551615)]);
    def.repr = Some("u64".to_string());
    let g = generate(&def).unwrap();
    let schema = g.schema();
    assert_eq!(schema.ty, "integer");
    assert_eq!(schema.format, Some("int64".to_string()));
    assert_eq!(schema.minimum, Some(0));
    assert_eq!(schema.maximum, None);
    let big = JsonValue::Number(JsonNumber::PosInt(u64::MAX));
    assert_eq!(schema.enum_items, vec![big.clone()]);
    assert_eq!(g.catalog.decode_json(&Some(big)), Ok(0));
    assert_eq!(g.catalog.decode_parameter("18446744073709551615"), Ok(0));
    assert_eq!(g.catalog.decode_parameter("18446744073709551616"), Err(DecodeError::InvalidFormat));
}

#[test]
fn implicit_discriminants_follow_previous() {
    let c = numeric("i32", vec![unit("A"), with_disc("B", 5), unit("C")]);
    let d: Vec<i128> = c.variants.iter().map(|v| v.discriminant).collect();
    assert_eq!(d, vec![0, 5, 6]);
    assert_eq!(c.decode_parameter("6"), Ok(2));
}

#[test]
fn integer_mode_decode_failures() {
    let c = numeric("i32", vec![with_disc("A", -3), with_disc("B", 1)]);
    assert_eq!(c.decode_json(&Some(s("1"))), Err(DecodeError::WrongType));
    assert_eq!(c.decode_json(&Some(JsonValue::Number(JsonNumber::Float))), Err(DecodeError::WrongType));
    assert_eq!(c.decode_json(&Some(JsonValue::Number(JsonNumber::PosInt(7)))), Err(DecodeError::InvalidValue));
    assert_eq!(c.decode_json(&Some(JsonValue::Number(JsonNumber::NegInt(-3)))), Ok(0));
    assert_eq!(c.decode_json(&Some(JsonValue::Number(JsonNumber::PosInt(4294967297)))), Ok(1));
    assert_eq!(c.decode_parameter("-3"), Ok(0));
    assert_eq!(c.decode_parameter("+1"), Ok(1));
    assert_eq!(c.decode_parameter("2"), Err(DecodeError::InvalidValue));
    assert_eq!(c.decode_parameter("x"), Err(DecodeError::InvalidFormat));
    assert_eq!(c.decode_parameter(""), Err(DecodeError::InvalidFormat));
    assert_eq!(c.decode_parameter("4294967297"), Err(DecodeError::InvalidFormat));
    assert_eq!(c.encode_json(0), JsonValue::Number(JsonNumber::NegInt(-3)));
}

#[test]
fn unsigned_mode_rejects_negative() {
    let c = numeric("u32", vec![with_disc("A", 0)]);
    assert_eq!(c.decode_json(&Some(JsonValue::Number(JsonNumber::NegInt(-1)))), Err(DecodeError::WrongType));
    assert_eq!(c.decode_parameter("-0"), Err(DecodeError::InvalidFormat));
    assert_eq!(c.decode_json(&Some(JsonValue::Number(JsonNumber::PosInt(4294967296)))), Ok(0));
}

#[test]
fn integer_parsing() {
    assert_eq!(parse_int("-2147483648", EnumRepr::I32), Some(-2147483648));
    assert_eq!(parse_int("2147483648", EnumRepr::I32), None);
    assert_eq!(parse_int("+", EnumRepr::I64), None);
    assert_eq!(parse_int("-", EnumRepr::I64), None);
    assert_eq!(parse_int("007", EnumRepr::U32), Some(7));
    assert_eq!(parse_int("1 ", EnumRepr::U32), None);
    assert_eq!(parse_int("99999999999999999999999999", EnumRepr::U64), None);
}

#[test]
fn multipart_fields() {
    let c = numeric("u32", vec![with_disc("A", 0), with_disc("B", 1)]);
    assert_eq!(c.decode_multipart(&None), Err(DecodeError::MissingInput));
    assert_eq!(c.decode_multipart(&Some("1".to_string())), Ok(1));
    assert_eq!(c.decode_multipart(&Some("z".to_string())), Err(DecodeError::InvalidFormat));
}

#[test]
fn every_variant_round_trips() {
    let c = numeric("i64", vec![with_disc("A", -9), unit("B"), with_disc("C", 40)]);
    for i in 0..c.variants.len() {
        assert_eq!(c.decode_json(&Some(c.encode_json(i))), Ok(i));
        let text = c.variants[i].discriminant.to_string();
        assert_eq!(c.decode_parameter(&text), Ok(i));
    }
    let g = generate(&definition("S", vec![unit("X"), unit("Y")])).unwrap();
    for i in 0..2 {
        assert_eq!(g.catalog.decode_json(&Some(g.catalog.encode_json(i))), Ok(i));
        assert_eq!(g.catalog.decode_parameter(&g.catalog.variants[i].name), Ok(i));
    }
}

#[test]
fn int_json_numbers() {
    assert_eq!(int_to_json(0), JsonValue::Number(JsonNumber::PosInt(0)));
    assert_eq!(int_to_json(-1), JsonValue::Number(JsonNumber::NegInt(-1)));
    assert_eq!(JsonNumber::PosInt(u64::MAX).as_i64(), None);
    assert_eq!(JsonNumber::PosInt(5).as_i64(), Some(5));
    assert_eq!(JsonNumber::NegInt(-5).as_u64(), None);
    assert_eq!(JsonNumber::Float.as_u64(), None);
}

#[test]
fn non_unit_variant_fails() {
    let mut b = unit("B");
    b.has_fields = true;
    let mut c = unit("C");
    c.has_fields = true;
    let r = generate(&definition("E", vec![unit("A"), b, c]));
    assert_eq!(r.err(), Some(GenerateError::NonUnitVariant(1)));
}

#[test]
fn discriminants_are_cast_to_the_kind() {
    let c = numeric("u32", vec![with_disc("A", 4294967295), unit("B")]);
    let d: Vec<i128> = c.variants.iter().map(|v| v.discriminant).collect();
    assert_eq!(d, vec![4294967295, 0]);
    assert_eq!(c.encode_json(1), JsonValue::Number(JsonNumber::PosInt(0)));
    assert_eq!(c.decode_parameter("0"), Ok(1));

    let c = numeric("u64", vec![with_disc("A", -1)]);
    assert_eq!(c.variants[0].discriminant, 18446744073709551615);
    assert_eq!(c.encode_json(0), JsonValue::Number(JsonNumber::PosInt(u64::MAX)));

    let c = numeric("i32", vec![with_disc("A", 2147483647), unit("B"), with_disc("C", 4294967298)]);
    let d: Vec<i128> = c.variants.iter().map(|v| v.discriminant).collect();
    assert_eq!(d, vec![2147483647, -2147483648, 2]);

    let c = numeric("i64", vec![with_disc("A", i128::MAX), unit("B")]);
    let d: Vec<i128> = c.variants.iter().map(|v| v.discriminant).collect();
    assert_eq!(d, vec![-1, 0]);
}

#[test]
fn remote_mismatch_fails() {
    let mut def = definition("E", vec![unit("A"), unit("B")]);
    def.remote = Some(strings(&["A", "C"]));
    assert_eq!(generate(&def).err(), Some(GenerateError::RemoteMissing(1)));
    let mut def = definition("E", vec![unit("A"), unit("B")]);
    def.remote = Some(strings(&["B", "A", "D"]));
    assert_eq!(generate(&def).err(), Some(GenerateError::RemoteExtra(2)));
}

#[test]
fn bridge_round_trips_reordered() {
    let b = RemoteBridge::new(&strings(&["A", "B", "C"]), &strings(&["C", "A", "B"])).unwrap();
    for i in 0..3 {
        assert_eq!(b.remote_to_local(b.local_to_remote(i)), i);
        assert_eq!(b.local_to_remote(b.remote_to_local(i)), i);
    }
    assert_eq!(b.local_to_remote(0), 1);
}

#[test]
fn same_type_registers_twice() {
    let g = generate(&definition("E", vec![unit("A")])).unwrap();
    let mut registry = Registry::new();
    assert_eq!(g.register(&mut registry), Ok(()));
    assert_eq!(g.register(&mut registry), Ok(()));
    assert_eq!(registry.entries.len(), 1);
    let mut other = definition("E", vec![unit("B")]);
    other.path = "m::E".to_string();
    let h = generate(&other).unwrap();
    assert_eq!(h.register(&mut registry), Err(GenerateError::DuplicateName));
    assert_eq!(registry.entries.len(), 1);
    assert_eq!(registry.schema("E").unwrap().enum_items, vec![s("A")]);
}

#[test]
fn rule_names() {
    assert_eq!(RenameRule::from_name("camelCase"), Some(RenameRule::Camel));
    assert_eq!(RenameRule::from_name("SCREAMING-KEBAB-CASE"), Some(RenameRule::ScreamingKebab));
    assert_eq!(RenameRule::from_name("snake_case"), Some(RenameRule::Snake));
    assert_eq!(RenameRule::from_name("camelcase"), None);
}

#[test]
fn casting_matches_as() {
    assert_eq!(wrap_to(EnumRepr::U32, -1), (-1i64 as u32) as i128);
    assert_eq!(wrap_to(EnumRepr::I32, 3000000000), (3000000000i64 as i32) as i128);
    assert_eq!(wrap_to(EnumRepr::U64, -5), (-5i128 as u64) as i128);
    assert_eq!(wrap_to(EnumRepr::I64, i128::MIN), (i128::MIN as i64) as i128);
    assert_eq!(wrap_to(EnumRepr::I64, -7), -7);
}
