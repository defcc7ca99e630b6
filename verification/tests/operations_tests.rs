use bitfields::assignments::{
    generate_setting_fields_default_values_tokens, generate_setting_fields_from_bits_tokens,
    generate_setting_fields_to_zero_tokens, run_assignments, AssignedValue, FieldAssignment,
};
use bitfields::bitfield::{bitfield, GeneratedBitfield, IntoBitsFunction, StructShape};
use bitfields::bitfield_attribute::{
    Argument, ArgumentValue, AttributeArguments, BitOrder, BitfieldAttribute, ValueKind,
};
use bitfields::bitfield_field::{
    BitsArguments, FieldAccess, FieldDeclaration, FieldType, Visibility,
};
use bitfields::bits::{extract_bits, field_mask, insert_bits};
use bitfields::error::{ArgumentError, BitfieldError, FieldError, OperationError};
use bitfields::generation::{
    bits_constant_name, builder_name, builder_setter_name, checked_builder_setter_name,
    checked_setter_name, generate_field_getters_functions_tokens, generate_setter_impl_tokens,
    inverted_getter_name, offset_constant_name, setter_name, BitsDocumentation, BlockedBits,
    BuilderSetter, Comparison, DebugField, FieldConstants, GetterKind,
};
use bitfields::layout::{
    add_integer_literals_to_expr, calculate_field_offset, check_bitfield_names_unique,
    check_bitfield_type_contain_field_bits, check_default_value_fit_in_field,
    create_expr_lit_with_integer_suffix, do_parse_field, parse_fields, sum_bits,
    StructDeclaration,
};
use bitfields::number_parser::ParsedNumber;
use bitfields::operations::{
    bits_of_value, checked_set_field, does_field_have_getter, does_field_have_setter, get_field,
    get_field_inverted, set_field, sign_extend_bits, signed_of_value, swap_bytes_of, FieldValue,
};
use bitfields::diagnostics::describe;
use bitfields::layout::packed_declaration_index;
use bitfields::text::{decimal, str_equals, uppercase};
use bitfields::types::IntegerType;

fn value(tokens: &str) -> ArgumentValue {
    let digits = |s: &str| s.chars().next().map_or(false, |c| c.is_ascii_digit());
    let float = tokens.contains('.')
        || (!tokens.starts_with("0x") && (tokens.ends_with("f32") || tokens.ends_with("f64")));
    let kind = if tokens == "true" {
        ValueKind::Boolean(true)
    } else if tokens == "false" {
        ValueKind::Boolean(false)
    } else if float {
        ValueKind::Other
    } else if digits(tokens) {
        ValueKind::Integer
    } else if tokens.starts_with('-') && digits(tokens[1..].trim_start()) {
        ValueKind::UnaryInteger
    } else if tokens.chars().all(|c| c.is_ascii_alphanumeric() || c == '_') && !tokens.is_empty() {
        ValueKind::Identifier
    } else {
        ValueKind::Other
    };
    ArgumentValue { kind, tokens: tokens.to_string() }
}

fn arguments(pairs: &[(&str, &str)]) -> Vec<Argument> {
    pairs.iter().map(|(key, tokens)| Argument { key: key.to_string(), value: value(tokens) }).collect()
}

fn attribute(ty: &str, pairs: &[(&str, &str)]) -> AttributeArguments {
    AttributeArguments { ty: Some(ty.to_string()), arguments: arguments(pairs) }
}

fn plain(name: &str, ty: &str) -> FieldDeclaration {
    FieldDeclaration {
        name: name.to_string(),
        ty: ty.to_string(),
        vis: Visibility::Inherited,
        bits_attribute: None,
        default_constant: 0,
        zero_constant: 0,
    }
}

fn bits(name: &str, ty: &str, bits: Option<u8>, pairs: &[(&str, &str)]) -> FieldDeclaration {
    FieldDeclaration {
        name: name.to_string(),
        ty: ty.to_string(),
        vis: Visibility::Inherited,
        bits_attribute: Some(BitsArguments { is_list: true, bits, arguments: arguments(pairs) }),
        default_constant: 0,
        zero_constant: 0,
    }
}

fn constant(mut field: FieldDeclaration, value: u128) -> FieldDeclaration {
    field.default_constant = value;
    field
}

fn declare(fields: Vec<FieldDeclaration>) -> StructDeclaration {
    StructDeclaration {
        name: "Bitfield".to_string(),
        vis: Visibility::Public,
        attributes: Vec::new(),
        named_fields: true,
        fields,
    }
}

fn compile(
    ty: &str,
    pairs: &[(&str, &str)],
    fields: Vec<FieldDeclaration>,
) -> Result<GeneratedBitfield, BitfieldError> {
    bitfield(&attribute(ty, pairs), &declare(fields))
}

fn generate(ty: &str, pairs: &[(&str, &str)], fields: Vec<FieldDeclaration>) -> GeneratedBitfield {
    compile(ty, pairs, fields).unwrap()
}

fn u(v: u128) -> Option<FieldValue> {
    Some(FieldValue::Unsigned(v))
}

fn i(v: i128) -> Option<FieldValue> {
    Some(FieldValue::Signed(v))
}

fn b(v: bool) -> Option<FieldValue> {
    Some(FieldValue::Bool(v))
}

fn abcd(pairs: &[(&str, &str)]) -> GeneratedBitfield {
    generate(
        "u32",
        pairs,
        vec![
            bits("a", "u8", None, &[("default", "0x12")]),
            bits("b", "u8", None, &[("default", "0x34")]),
            bits("c", "u8", None, &[("default", "0x56")]),
            bits("d", "u8", None, &[("default", "0x78")]),
        ],
    )
}

fn mixed(pairs: &[(&str, &str)]) -> GeneratedBitfield {
    generate(
        "u32",
        pairs,
        vec![
            bits("a", "u8", Some(3), &[("default", "5")]),
            bits("flag", "bool", None, &[("access", "ro")]),
            bits("s", "i16", Some(9), &[("default", "-200")]),
            bits("w", "u16", Some(9), &[("access", "wo")]),
            bits("hidden", "u8", Some(2), &[("access", "none"), ("default", "2")]),
            plain("n", "i8"),
        ],
    )
}

fn policy(ty: &str, pairs: &[(&str, &str)]) -> BitfieldAttribute {
    BitfieldAttribute::parse(&attribute(ty, pairs)).unwrap()
}

#[test]
fn round_trip_without_padding() {
    for pairs in [
        &[][..],
        &[("order", "msb")][..],
        &[("from_endian", "little"), ("into_endian", "little")][..],
        &[("order", "msb"), ("from_endian", "little"), ("into_endian", "little")][..],
    ] {
        let bitfield = mixed(pairs);
        for x in [0u128, 1, 0x1234_5678, 0xFFFF_FFFF, 0x8000_0001, 0xDEAD_BEEF, 0x0F0F_F0F0] {
            assert_eq!(bitfield.into_bits(bitfield.from_bits(x)), x);
            assert_eq!(bitfield.into_bits(bitfield.from(x)), x);
            assert_eq!(bitfield.from(x), bitfield.from_bits(x));
        }
    }
}

#[test]
fn round_trip_with_padding_needs_the_padding_at_rest() {
    let bitfield = generate(
        "u16",
        &[],
        vec![plain("a", "u8"), bits("_p", "u8", Some(8), &[("default", "0xAB")])],
    );

    assert_eq!(bitfield.into_bits(bitfield.from_bits(0xAB12)), 0xAB12);
    assert_eq!(bitfield.into_bits(bitfield.from_bits(0xFF12)), 0xAB12);
}

#[test]
fn round_trip_needs_the_same_endianness() {
    let bitfield = abcd(&[("from_endian", "little")]);

    assert_eq!(bitfield.into_bits(bitfield.from_bits(0x11223344)), 0x44332211);
}

#[test]
fn round_trip_at_every_width() {
    for (ty, max) in [
        ("u8", u8::MAX as u128),
        ("u16", u16::MAX as u128),
        ("u32", u32::MAX as u128),
        ("u64", u64::MAX as u128),
        ("u128", u128::MAX),
    ] {
        for pairs in [&[][..], &[("from_endian", "little"), ("into_endian", "little")][..]] {
            let bitfield = generate(ty, pairs, vec![plain("a", ty)]);
            for x in [0, 1, max, max / 3, max - 1] {
                assert_eq!(bitfield.into_bits(bitfield.from_bits(x)), x);
            }
        }
    }
}

#[test]
fn defaults_respected() {
    let bitfield = mixed(&[]);
    for x in [0u128, 0xFFFF_FFFF, 0x1234_5678, 0xCAFE_F00D] {
        let with = bitfield.from_bits_with_defaults(x);
        let without = bitfield.from_bits(x);
        assert_eq!(bitfield.get(with, "a"), u(5));
        assert_eq!(bitfield.get(with, "s"), i(-200));
        assert_eq!(extract_bits(with, 22, 2), 2);
        assert_eq!(bitfield.get(with, "flag"), bitfield.get(without, "flag"));
        assert_eq!(extract_bits(with, 13, 9), extract_bits(without, 13, 9));
        assert_eq!(bitfield.get(with, "n"), bitfield.get(without, "n"));
    }
}

#[test]
fn truncation_of_unsigned_fields() {
    let bitfield = generate(
        "u16",
        &[],
        vec![plain("a", "u8"), bits("b", "u8", Some(4), &[]), bits("_padding", "u8", Some(4), &[])],
    );

    let mut value = bitfield.new();
    assert!(bitfield.set(&mut value, "a", FieldValue::Unsigned(0xFF)));
    assert!(bitfield.set(&mut value, "b", FieldValue::Unsigned(0x12)));
    assert_eq!(bitfield.get(value, "a"), u(0xFF));
    assert_eq!(bitfield.get(value, "b"), u(0x2));
    assert!(bitfield.checked_set(&mut value, "b", FieldValue::Unsigned(0x12)).is_err());
    for v in [0u128, 1, 15, 16, 0xABCD, u128::MAX] {
        assert!(bitfield.set(&mut value, "b", FieldValue::Unsigned(v)));
        assert_eq!(bitfield.get(value, "b"), u(v & 0xF));
        assert_eq!(bitfield.get(value, "a"), u(0xFF));
    }
}

#[test]
fn truncation_of_signed_fields() {
    let bitfield = generate(
        "u16",
        &[],
        vec![bits("s", "i8", Some(5), &[]), bits("t", "i16", Some(11), &[])],
    );

    let mut value = bitfield.new();
    for (v, expected) in [(0i128, 0i128), (15, 15), (16, -16), (-1, -1), (-16, -16), (-17, 15), (31, -1), (32, 0)] {
        assert!(bitfield.set(&mut value, "s", FieldValue::Signed(v)));
        assert_eq!(bitfield.get(value, "s"), i(expected));
    }
    assert!(bitfield.set(&mut value, "t", FieldValue::Signed(-1024)));
    assert_eq!(bitfield.get(value, "t"), i(-1024));
    assert!(bitfield.set(&mut value, "t", FieldValue::Signed(1024)));
    assert_eq!(bitfield.get(value, "t"), i(-1024));
    assert_eq!(bitfield.get(value, "s"), i(0));
}

#[test]
fn checked_rejection_of_unsigned_fields() {
    let bitfield = mixed(&[]);
    let mut value = bitfield.from_bits(0x1234_5678);
    let before = value;

    for v in [8u128, 9, 255, u128::MAX] {
        assert_eq!(
            bitfield.checked_set(&mut value, "a", FieldValue::Unsigned(v)),
            Err(OperationError::ValueTooLargeForField)
        );
        assert_eq!(value, before);
    }
    for v in [0u128, 1, 7] {
        assert_eq!(bitfield.checked_set(&mut value, "a", FieldValue::Unsigned(v)), Ok(()));
        assert_eq!(bitfield.get(value, "a"), u(v));
    }
    assert_eq!(
        bitfield.checked_set(&mut value, "w", FieldValue::Unsigned(0x200)),
        Err(OperationError::ValueTooLargeForField)
    );
    assert_eq!(bitfield.checked_set(&mut value, "w", FieldValue::Unsigned(0x1FF)), Ok(()));
    assert_eq!(extract_bits(value, 13, 9), 0x1FF);
}

#[test]
fn checked_rejection_of_signed_fields_compares_in_the_type() {
    let bitfield = mixed(&[]);
    let mut value = bitfield.new();

    assert_eq!(bitfield.checked_set(&mut value, "s", FieldValue::Signed(255)), Ok(()));
    assert_eq!(
        bitfield.checked_set(&mut value, "s", FieldValue::Signed(512)),
        Err(OperationError::ValueTooLargeForField)
    );
    assert_eq!(bitfield.checked_set(&mut value, "s", FieldValue::Signed(-1)), Ok(()));
    assert_eq!(bitfield.get(value, "s"), i(-1));
    assert_eq!(bitfield.checked_set(&mut value, "n", FieldValue::Signed(-5)), Ok(()));
    assert_eq!(bitfield.get(value, "n"), i(-5));
    for v in [0i128, 5, 127, -128] {
        assert_eq!(bitfield.checked_set(&mut value, "n", FieldValue::Signed(v)), Ok(()));
        assert_eq!(bitfield.get(value, "n"), i(v));
    }
    let setter = bitfield.field_setters.iter().find(|setter| setter.field == 5).unwrap();
    assert_eq!(setter.checked_setter.comparison, Comparison::Nothing);
    assert!(setter.checked_setter.checked);
}

#[test]
fn checked_setters_of_signed_fields_as_wide_as_their_type_refuse_nothing() {
    let bitfield = generate("u8", &[], vec![plain("a", "i8")]);
    let mut value = bitfield.new();

    for v in [5i128, 0, 127, -1, -128] {
        assert_eq!(bitfield.checked_set(&mut value, "a", FieldValue::Signed(v)), Ok(()));
        assert_eq!(bitfield.get(value, "a"), i(v));
        assert_eq!(bitfield.into_bits(value), (v as u128) & 0xFF);
    }
    let wide = generate("u128", &[], vec![bits("a", "i128", None, &[])]);
    let mut value = 0;
    for v in [5i128, i128::MAX, i128::MIN] {
        assert_eq!(wide.checked_set(&mut value, "a", FieldValue::Signed(v)), Ok(()));
        assert_eq!(wide.get(value, "a"), i(v));
    }
}

#[test]
fn zero_of_a_custom_type() {
    let mut custom = bits("c", "CustomType", Some(4), &[]);
    custom.zero_constant = 0x3;
    let mut primitive = bits("p", "u8", Some(4), &[]);
    primitive.zero_constant = 0x7;
    let bitfield = generate("u8", &[], vec![custom, primitive]);

    assert_eq!(bitfield.fields[0].zero_value, 0x3);
    assert_eq!(bitfield.fields[1].zero_value, 0);
    assert_eq!(bitfield.new(), 0x03);
    assert_eq!(bitfield.new_without_defaults(), 0x03);
    let mut value = bitfield.from_bits(0xFF);
    assert_eq!(value, 0xFF);
    bitfield.clear_bits(&mut value);
    assert_eq!(value, 0x03);
    assert_eq!(bitfield.builder_new_without_defaults().build(), 0x03);
}

#[test]
fn padding_follows_from_the_name() {
    let bitfield = generate(
        "u16",
        &[],
        vec![bits("a", "u8", None, &[("access", "ro")]), plain("_b", "u8")],
    );

    assert!(!bitfield.fields[0].padding);
    assert!(bitfield.fields[1].padding);
    assert_eq!(bitfield.fields[1].access, FieldAccess::NoAccess);
    let mut value = bitfield.from_bits(0xFFFF);
    assert_eq!(value, 0x00FF);
    bitfield.set_bits(&mut value, 0xFFFF);
    assert_eq!(value, 0x00FF);
    bitfield.clear_bits(&mut value);
    assert_eq!(value, 0x00FF);
}

#[test]
fn checked_setters_of_booleans_refuse_nothing() {
    let bitfield = generate("u8", &[], vec![plain("a", "bool"), bits("_p", "u8", Some(7), &[])]);
    let mut value = bitfield.new();

    assert_eq!(bitfield.checked_set(&mut value, "a", FieldValue::Bool(true)), Ok(()));
    assert_eq!(bitfield.get(value, "a"), b(true));
    assert_eq!(bitfield.checked_set(&mut value, "a", FieldValue::Bool(false)), Ok(()));
    assert_eq!(bitfield.get(value, "a"), b(false));
}

#[test]
fn layout_completeness() {
    for total in 1..=16u8 {
        let result = compile(
            "u8",
            &[],
            vec![bits("a", "u16", Some(total), &[])],
        );
        if total == 8 {
            let bitfield = result.unwrap();
            assert_eq!(sum_bits(&bitfield.fields), 8);
        } else if total < 8 {
            assert_eq!(
                result.unwrap_err(),
                BitfieldError::LayoutBudgetUnderfilled {
                    total: total as u128,
                    bits: 8,
                    remaining: 8 - total
                }
            );
        } else {
            assert_eq!(
                result.unwrap_err(),
                BitfieldError::LayoutBudgetExceeded { total: total as u128, bits: 8 }
            );
        }
    }
}

#[test]
fn layout_of_very_many_bits() {
    let fields = (0..40).map(|k| plain(&format!("f{k}"), "u64")).collect();

    assert_eq!(
        compile("u128", &[("order", "msb")], fields).unwrap_err(),
        BitfieldError::LayoutBudgetExceeded { total: 2560, bits: 128 }
    );
}

#[test]
fn bit_order_symmetry() {
    let plain4 = || vec![plain("a", "u8"), plain("b", "u8"), plain("c", "u8"), plain("d", "u8")];
    let lsb = generate("u32", &[("order", "lsb")], plain4());
    let msb = generate("u32", &[("order", "msb")], plain4());

    assert_eq!(lsb.fields.iter().map(|f| f.offset).collect::<Vec<_>>(), vec![0, 8, 16, 24]);
    assert_eq!(msb.fields.iter().map(|f| f.offset).collect::<Vec<_>>(), vec![24, 16, 8, 0]);
    for (bitfield, expected) in [(&lsb, 0x78563412u128), (&msb, 0x12345678)] {
        let mut value = bitfield.new();
        for (name, v) in [("a", 0x12), ("b", 0x34), ("c", 0x56), ("d", 0x78)] {
            assert!(bitfield.set(&mut value, name, FieldValue::Unsigned(v)));
        }
        assert_eq!(bitfield.into_bits(value), expected);
    }
}

#[test]
fn offsets_in_both_orders() {
    let fields = || {
        vec![
            bits("a", "u8", Some(3), &[]),
            bits("b", "u16", Some(9), &[]),
            plain("c", "bool"),
            bits("d", "u8", Some(3), &[]),
        ]
    };
    let lsb = generate("u16", &[], fields());
    let msb = generate("u16", &[("order", "msb")], fields());

    assert_eq!(lsb.fields.iter().map(|f| f.offset).collect::<Vec<_>>(), vec![0, 3, 12, 13]);
    assert_eq!(msb.fields.iter().map(|f| f.offset).collect::<Vec<_>>(), vec![13, 4, 3, 0]);
    assert_eq!(calculate_field_offset(4, &policy("u16", &[]), &lsb.fields), 16);
    assert_eq!(calculate_field_offset(4, &policy("u16", &[("order", "msb")]), &msb.fields), 0);
    assert_eq!(calculate_field_offset(4, &policy("u32", &[("order", "msb")]), &msb.fields), 12);
    assert_eq!(calculate_field_offset(16, &policy("u32", &[("order", "msb")]), &msb.fields), 0);
    assert_eq!(calculate_field_offset(17, &policy("u32", &[("order", "msb")]), &msb.fields), 0);
    assert_eq!(calculate_field_offset(8, &policy("u32", &[]), &Vec::new()), 0);
    assert_eq!(calculate_field_offset(8, &policy("u32", &[("order", "msb")]), &Vec::new()), 24);
}

#[test]
fn offsets_beyond_the_bitfield() {
    let attribute = policy("u128", &[]);
    let declarations: Vec<FieldDeclaration> =
        (0..3).map(|k| plain(&format!("f{k}"), "u128")).collect();
    let (fields, _) = parse_fields(&attribute, &declare(declarations)).unwrap();

    assert_eq!(fields.iter().map(|f| f.offset).collect::<Vec<_>>(), vec![0, 128, 255]);
    assert_eq!(sum_bits(&fields), 384);
    assert_eq!(calculate_field_offset(1, &attribute, &fields), 255);
}

#[test]
fn endianness_of_the_input() {
    let little = generate(
        "u32",
        &[("from_endian", "little")],
        vec![plain("a", "u8"), bits("b", "u16", Some(13), &[]), bits("c", "i16", Some(11), &[])],
    );
    let big = generate(
        "u32",
        &[],
        vec![plain("a", "u8"), bits("b", "u16", Some(13), &[]), bits("c", "i16", Some(11), &[])],
    );

    assert_eq!(little.from_bits(0x44332211), big.from_bits(0x11223344));
    for x in [0u128, 0x0102_0304, 0xFFEE_DDCC, 0x8000_0000] {
        assert_eq!(little.from_bits(x), big.from_bits(swap_bytes_of(x, 32)));
        assert_eq!(
            little.from_bits_with_defaults(x),
            big.from_bits_with_defaults(swap_bytes_of(x, 32))
        );
        assert_eq!(little.from(x), big.from(swap_bytes_of(x, 32)));
        assert_eq!(little.from(x), little.from_bits(x));
        assert_eq!(big.from(x), big.from_bits(x));
    }
}

#[test]
fn bytes_in_reverse_order() {
    assert_eq!(swap_bytes_of(0x12, 8), 0x12);
    assert_eq!(swap_bytes_of(0x1122, 16), 0x2211);
    assert_eq!(swap_bytes_of(0x11223344, 32), 0x44332211);
    assert_eq!(swap_bytes_of(0x1122334455667788, 64), 0x8877665544332211);
    assert_eq!(
        swap_bytes_of(0x00112233445566778899aabbccddeeff, 128),
        0xffeeddccbbaa99887766554433221100
    );
    for (x, bits) in [(0xABCDu128, 16u8), (0xDEADBEEF, 32), (u64::MAX as u128 - 5, 64), (u128::MAX / 7, 128)] {
        assert_eq!(swap_bytes_of(swap_bytes_of(x, bits), bits), x);
    }
}

#[test]
fn padding_default_isolation() {
    let bitfield = generate(
        "u32",
        &[("bit_ops", "true")],
        vec![
            bits("a", "u8", None, &[("default", "0x12")]),
            bits("_p", "u8", Some(8), &[("default", "0xAB")]),
            bits("c", "u8", None, &[]),
            bits("_q", "u8", Some(8), &[]),
        ],
    );
    let check = |value: u128| {
        assert_eq!(extract_bits(value, 8, 8), 0xAB);
        assert_eq!(extract_bits(value, 24, 8), 0);
        assert_eq!(bitfield.into_bits(value) & 0xFF00_FF00, 0x0000_AB00);
    };

    check(bitfield.new());
    check(bitfield.new_without_defaults());
    check(bitfield.from_bits(0xFFFF_FFFF));
    check(bitfield.from_bits_with_defaults(0xFFFF_FFFF));
    check(bitfield.from(0xFFFF_FFFF));
    check(bitfield.builder_new().build());
    check(bitfield.builder_new_without_defaults().build());
    let mut value = bitfield.from_bits(0xFFFF_FFFF);
    bitfield.clear_bits(&mut value);
    check(value);
    assert_eq!(value, 0x0000_AB00);
    value = bitfield.from_bits(0xFFFF_FFFF);
    bitfield.clear_bits_with_defaults(&mut value);
    check(value);
    assert_eq!(value, 0x0000_AB12);
    bitfield.set_bits(&mut value, 0x1234_5678);
    check(value);
    assert_eq!(value, 0x0034_AB78);
    bitfield.set_bits_with_defaults(&mut value, 0xFFFF_FFFF);
    check(value);
    assert_eq!(value, 0x00FF_AB12);
    assert!(bitfield.set(&mut value, "a", FieldValue::Unsigned(0xFFFF)));
    assert!(bitfield.set(&mut value, "c", FieldValue::Unsigned(0xFFFF)));
    check(value);
    for index in 0..40 {
        bitfield.set_bit(&mut value, index, index % 2 == 0);
        check(value);
    }
    assert_eq!(bitfield.get(value, "_p"), None);
    assert_eq!(bitfield.get(value, "_q"), None);
    assert!(!bitfield.set(&mut value, "_p", FieldValue::Unsigned(0)));
    assert_eq!(
        bitfield.checked_set(&mut value, "_q", FieldValue::Unsigned(0)),
        Err(OperationError::NoSuchSetter)
    );
    check(value);
}

#[test]
fn scenario_read_only_boolean() {
    let bitfield = generate(
        "u16",
        &[],
        vec![
            bits("a", "u8", Some(4), &[]),
            bits("ro_bool", "bool", None, &[("access", "ro")]),
            bits("b", "u8", Some(3), &[]),
            bits("c", "u8", Some(8), &[]),
        ],
    );

    let value = bitfield.from_bits(0xFFFF);
    assert_eq!(bitfield.get(value, "a"), u(0xF));
    assert_eq!(bitfield.get(value, "ro_bool"), b(true));
    assert_eq!(bitfield.get(value, "b"), u(0x7));
    assert_eq!(bitfield.get(value, "c"), u(0xFF));
    let value = bitfield.from_bits(0xFFEF);
    assert_eq!(bitfield.get(value, "a"), u(0xF));
    assert_eq!(bitfield.get(value, "ro_bool"), b(false));
    assert_eq!(bitfield.get(value, "b"), u(0x7));
    assert_eq!(bitfield.get(value, "c"), u(0xFF));
}

#[test]
fn scenario_many_read_only_fields() {
    let bitfield = generate(
        "u64",
        &[],
        vec![
            bits("ro1", "u8", Some(8), &[("access", "ro")]),
            bits("rw1", "u8", Some(8), &[]),
            bits("ro2", "u8", Some(8), &[("access", "ro")]),
            bits("rw2", "u8", Some(8), &[]),
            bits("large", "u32", Some(32), &[]),
        ],
    );

    let value = bitfield.from_bits(0x1122334455667788);
    assert_eq!(bitfield.get(value, "ro1"), u(0x88));
    assert_eq!(bitfield.get(value, "rw1"), u(0x77));
    assert_eq!(bitfield.get(value, "ro2"), u(0x66));
    assert_eq!(bitfield.get(value, "rw2"), u(0x55));
    assert_eq!(bitfield.get(value, "large"), u(0x11223344));
    assert_eq!(bitfield.into_bits(value), 0x1122334455667788);
}

#[test]
fn read_only_fields_are_set_from_bits_but_not_by_set_bits() {
    let bitfield = generate(
        "u32",
        &[],
        vec![
            bits("a", "u8", None, &[("default", "0x12")]),
            bits("b", "u8", None, &[("default", "0x34"), ("access", "ro")]),
            bits("c", "u8", None, &[("default", "0x56")]),
            bits("_d", "u8", None, &[("default", "0x78")]),
        ],
    );

    let mut value = bitfield.new();
    assert_eq!(bitfield.into_bits(value), 0x78563412);
    bitfield.set_bits(&mut value, 0x11223344);
    assert_eq!(bitfield.get(value, "a"), u(0x44));
    assert_eq!(bitfield.get(value, "b"), u(0x34));
    assert_eq!(bitfield.get(value, "c"), u(0x22));
    assert_eq!(bitfield.into_bits(value), 0x78223444);
    let value = bitfield.from_bits(0x11223344);
    assert_eq!(bitfield.get(value, "b"), u(0x33));
    assert_eq!(bitfield.into_bits(value), 0x78223344);
    let value = bitfield.from(0x11223344);
    assert_eq!(bitfield.get(value, "b"), u(0x33));
    let value = bitfield.from_bits_with_defaults(0x11223344);
    assert_eq!(bitfield.into_bits(value), 0x78563412);
    let mut value = bitfield.from_bits(0x11223344);
    bitfield.set_bits_with_defaults(&mut value, 0xFFFF_FFFF);
    assert_eq!(bitfield.into_bits(value), 0x78563312);
    bitfield.clear_bits_with_defaults(&mut value);
    assert_eq!(bitfield.into_bits(value), 0x78563312);
    bitfield.clear_bits(&mut value);
    assert_eq!(bitfield.into_bits(value), 0x78003300);
    assert_eq!(bitfield.new_without_defaults(), 0x78000000);
}

#[test]
fn bits_are_read_one_by_one() {
    let bitfield = generate(
        "u8",
        &[("bit_ops", "true")],
        vec![
            bits("a", "u8", Some(2), &[("default", "0b11")]),
            bits("b", "u8", Some(2), &[("default", "0b00")]),
            bits("c", "u8", Some(2), &[("default", "0b10"), ("access", "wo")]),
            bits("_d", "u8", Some(2), &[("default", "0b01")]),
        ],
    );

    let value = bitfield.new();
    assert_eq!(value, 0b01_10_00_11);
    assert!(bitfield.get_bit(value, 0));
    assert!(bitfield.get_bit(value, 1));
    assert!(!bitfield.get_bit(value, 2));
    assert!(!bitfield.get_bit(value, 3));
    assert!(!bitfield.get_bit(value, 4));
    assert!(!bitfield.get_bit(value, 5));
    assert_eq!(bitfield.checked_get_bit(value, 4), Err(OperationError::NoReadAccessAtBit));
    assert_eq!(bitfield.checked_get_bit(value, 5), Err(OperationError::NoReadAccessAtBit));
    assert!(bitfield.get_bit(value, 6));
    assert!(!bitfield.get_bit(value, 7));
    assert_eq!(bitfield.checked_get_bit(value, 6), Ok(true));
    assert_eq!(bitfield.checked_get_bit(value, 7), Ok(false));
    assert!(!bitfield.get_bit(value, 50));
    assert_eq!(bitfield.checked_get_bit(value, 50), Err(OperationError::IndexOutOfBounds));
    assert!(!bitfield.get_bit(value, 8));
    assert_eq!(bitfield.checked_get_bit(value, 8), Err(OperationError::IndexOutOfBounds));
    assert_eq!(
        bitfield.get_bit_operations.as_ref().unwrap().blocked,
        vec![BlockedBits { start: 4, end: 6 }]
    );
    assert_eq!(bitfield.get_bit_operations.as_ref().unwrap().bits, 8);
}

#[test]
fn bits_are_written_one_by_one() {
    let bitfield = generate(
        "u8",
        &[("bit_ops", "true")],
        vec![
            bits("a", "u8", Some(2), &[]),
            bits("b", "u8", Some(2), &[("default", "0b11")]),
            bits("c", "u8", Some(2), &[("default", "0b11"), ("access", "ro")]),
            bits("_d", "u8", Some(2), &[("default", "0b00")]),
        ],
    );

    let mut value = bitfield.new();
    bitfield.set_bit(&mut value, 0, true);
    bitfield.set_bit(&mut value, 1, true);
    bitfield.set_bit(&mut value, 2, false);
    bitfield.set_bit(&mut value, 3, false);
    bitfield.set_bit(&mut value, 4, false);
    bitfield.set_bit(&mut value, 5, false);
    assert_eq!(
        bitfield.checked_set_bit(&mut value, 4, false),
        Err(OperationError::NoWriteAccessAtBit)
    );
    assert_eq!(
        bitfield.checked_set_bit(&mut value, 5, false),
        Err(OperationError::NoWriteAccessAtBit)
    );
    bitfield.set_bit(&mut value, 6, true);
    bitfield.set_bit(&mut value, 7, true);
    assert_eq!(
        bitfield.checked_set_bit(&mut value, 6, true),
        Err(OperationError::NoWriteAccessAtBit)
    );
    assert_eq!(
        bitfield.checked_set_bit(&mut value, 8, true),
        Err(OperationError::IndexOutOfBounds)
    );
    bitfield.set_bit(&mut value, 8, true);
    bitfield.set_bit(&mut value, 200, true);
    assert_eq!(bitfield.into_bits(value), 0b110011);
    assert_eq!(bitfield.checked_set_bit(&mut value, 0, false), Ok(()));
    assert_eq!(bitfield.into_bits(value), 0b110010);
    assert_eq!(
        bitfield.set_bit_operations.as_ref().unwrap().blocked,
        vec![BlockedBits { start: 4, end: 6 }, BlockedBits { start: 6, end: 8 }]
    );
}

#[test]
fn bit_operations_are_generated_only_on_demand() {
    let bitfield = abcd(&[]);

    assert!(bitfield.get_bit_operations.is_none());
    assert!(bitfield.set_bit_operations.is_none());
    assert!(bitfield.set_bits_function.is_some());
    assert!(bitfield.clear_bits_function.is_some());
    let bitfield = abcd(&[("set_bits", "false"), ("clear_bits", "false")]);
    assert!(bitfield.set_bits_function.is_none());
    assert!(bitfield.set_bits_with_defaults_function.is_none());
    assert!(bitfield.clear_bits_function.is_none());
    assert!(bitfield.clear_bits_with_defaults_function.is_none());
}

#[test]
fn errors_of_single_fields() {
    let attribute = policy("u32", &[]);
    let error = |field: FieldDeclaration| do_parse_field(&attribute, &field, &Vec::new()).unwrap_err();
    let mut not_a_list = bits("a", "u8", None, &[]);
    not_a_list.bits_attribute.as_mut().unwrap().is_list = false;

    assert_eq!(error(not_a_list), FieldError::BitsAttributeNotList);
    assert_eq!(error(plain("a", "usize")), FieldError::AmbiguousWidthFieldType);
    assert_eq!(error(plain("a", "isize")), FieldError::AmbiguousWidthFieldType);
    assert_eq!(error(plain("a", "CustomType")), FieldError::MissingExplicitWidth);
    assert_eq!(error(bits("a", "CustomType", None, &[])), FieldError::MissingExplicitWidth);
    assert_eq!(error(bits("a", "u8", Some(0), &[])), FieldError::ZeroWidthField);
    assert_eq!(error(bits("a", "CustomType", Some(0), &[])), FieldError::ZeroWidthField);
    assert_eq!(
        error(bits("a", "u8", Some(9), &[])),
        FieldError::FieldTooWideForDeclaredType {
            integer_type: IntegerType::U8,
            type_bits: 8,
            bits: 9
        }
    );
    assert_eq!(
        error(bits("a", "bool", Some(2), &[])),
        FieldError::FieldTooWideForDeclaredType {
            integer_type: IntegerType::Bool,
            type_bits: 1,
            bits: 2
        }
    );
    assert_eq!(
        error(bits("a", "u8", Some(4), &[("default", "16")])),
        FieldError::DefaultValueExceedsFieldWidth { value: 16, negative: false, bits: 4 }
    );
    assert_eq!(
        error(bits("a", "i8", Some(4), &[("default", "-16")])),
        FieldError::DefaultValueExceedsFieldWidth { value: 16, negative: true, bits: 4 }
    );
    assert_eq!(
        error(bits("a", "i8", None, &[("default", "200")])),
        FieldError::DefaultValueExceedsTypeRange {
            value: 200,
            negative: false,
            integer_type: IntegerType::I8
        }
    );
    assert_eq!(
        error(bits("a", "i8", None, &[("default", "-129")])),
        FieldError::DefaultValueExceedsTypeRange {
            value: 129,
            negative: true,
            integer_type: IntegerType::I8
        }
    );
    assert_eq!(
        error(bits("a", "u8", None, &[("default", "1.0")])),
        FieldError::FloatDefaultValueUnsupported
    );
    assert_eq!(
        error(bits("_a", "u8", None, &[("access", "rw")])),
        FieldError::PaddingFieldWithExplicitAccess
    );
    assert_eq!(error(bits("a", "usize", Some(4), &[])), FieldError::UnexpectedConfiguration);
    assert_eq!(error(bits("a", "isize", None, &[])), FieldError::UnexpectedConfiguration);
    assert_eq!(
        error(bits("a", "i8", None, &[("default", "true")])),
        FieldError::UnexpectedConfiguration
    );
    assert_eq!(
        error(bits("a", "u8", None, &[("access", "all")])),
        FieldError::Argument { index: 0, error: ArgumentError::InvalidAccess }
    );
    assert_eq!(
        error(bits("a", "u8", None, &[("default", "1"), ("ignore", "1")])),
        FieldError::Argument { index: 1, error: ArgumentError::ExpectedBoolean }
    );
    assert_eq!(
        error(bits("a", "u8", None, &[("bits", "1")])),
        FieldError::Argument { index: 0, error: ArgumentError::UnknownArgument }
    );
}

#[test]
fn errors_come_in_order() {
    let result = compile(
        "u8",
        &[],
        vec![plain("a", "u8"), plain("a", "u8"), bits("c", "u8", Some(0), &[])],
    );
    assert_eq!(
        result.unwrap_err(),
        BitfieldError::Field { index: 2, error: FieldError::ZeroWidthField }
    );
    let result = compile("u8", &[], vec![plain("a", "u8"), plain("a", "u8")]);
    assert_eq!(result.unwrap_err(), BitfieldError::LayoutBudgetExceeded { total: 16, bits: 8 });
    let result = compile("u8", &[("order", "up")], vec![plain("a", "CustomType")]);
    assert_eq!(
        result.unwrap_err(),
        BitfieldError::Attribute(bitfields::error::AttributeError::Argument {
            index: 0,
            error: ArgumentError::InvalidOrder
        })
    );
    let mut declaration = declare(vec![plain("a", "u8")]);
    declaration.named_fields = false;
    assert_eq!(
        bitfield(&attribute("u8", &[]), &declaration).unwrap_err(),
        BitfieldError::NonNamedFields
    );
    let result = compile(
        "u32",
        &[],
        vec![
            plain("a", "u8"),
            bits("_a", "u8", None, &[]),
            bits("_a", "u8", None, &[]),
            plain("a", "u8"),
        ],
    );
    assert_eq!(result.unwrap_err(), BitfieldError::DuplicateFieldName { index: 3 });
}

#[test]
fn described_fields() {
    let attribute = policy("u32", &[]);
    let field = do_parse_field(&attribute, &plain("_pad", "i16"), &Vec::new()).unwrap();
    assert_eq!(field.name, "_pad");
    assert_eq!(field.ty, "i16");
    assert_eq!(field.bits, 16);
    assert_eq!(field.offset, 0);
    assert!(!field.unsigned);
    assert!(field.padding);
    assert_eq!(field.access, FieldAccess::NoAccess);
    assert_eq!(field.field_type, FieldType::IntegerFieldType);
    assert!(field.vis.is_none());
    assert!(field.default_value_tokens.is_none());
    assert!(!does_field_have_getter(&field) && !does_field_have_setter(&field));

    let previous = vec![field];
    let field = do_parse_field(
        &attribute,
        &bits("x", "i8", Some(6), &[("default", "-3"), ("access", "wo")]),
        &previous,
    )
    .unwrap();
    assert_eq!(field.bits, 6);
    assert_eq!(field.offset, 16);
    assert!(!field.unsigned);
    assert!(!field.padding);
    assert_eq!(field.access, FieldAccess::WriteOnly);
    assert_eq!(field.default_value_tokens, Some("-3i8".to_string()));
    assert_eq!(field.default_value, u128::MAX - 2);
    assert!(!does_field_have_getter(&field) && does_field_have_setter(&field));

    let field = do_parse_field(
        &attribute,
        &bits("x", "i8", Some(6), &[("default", "3i8")]),
        &previous,
    )
    .unwrap();
    assert_eq!(field.default_value_tokens, Some("3i8".to_string()));
    assert_eq!(field.default_value, 3);

    let field = do_parse_field(
        &attribute,
        &constant(bits("x", "Nested", Some(6), &[("default", "Nested::new()")]), 0x2A),
        &previous,
    )
    .unwrap();
    assert!(field.unsigned);
    assert_eq!(field.field_type, FieldType::CustomFieldType);
    assert_eq!(field.default_value_tokens, Some("Nested::new()".to_string()));
    assert_eq!(field.default_value, 0x2A);

    let field =
        do_parse_field(&attribute, &bits("x", "u64", Some(99), &[("ignore", "true")]), &previous)
            .unwrap();
    assert!(field.ignore);
    assert_eq!(field.bits, 0);
    assert_eq!(field.offset, 0);
    assert_eq!(field.access, FieldAccess::ReadOnly);
    assert!(matches!(field.vis, Some(Visibility::Inherited)));
}

#[test]
fn ignored_fields_stay_out_of_the_layout() {
    let bitfield = generate(
        "u16",
        &[],
        vec![
            plain("a", "u8"),
            bits("field_id", "u8", None, &[("ignore", "true")]),
            plain("b", "u8"),
            bits("field_custom", "CustomType", Some(99), &[("ignore", "true")]),
        ],
    );

    assert_eq!(bitfield.shape, StructShape::WithFields);
    assert_eq!(bitfield.fields.iter().map(|f| f.name.clone()).collect::<Vec<_>>(), vec!["a", "b"]);
    assert_eq!(
        bitfield.ignored_fields.iter().map(|f| f.name.clone()).collect::<Vec<_>>(),
        vec!["field_id", "field_custom"]
    );
    assert_eq!(bitfield.fields[1].offset, 8);
    assert_eq!(bitfield.get(bitfield.from_bits(0x1234), "b"), u(0x12));
    assert_eq!(bitfield.get(0, "field_id"), None);
    assert_eq!(abcd(&[]).shape, StructShape::Tuple);
}

#[test]
fn checks_of_the_layout() {
    let attribute = policy("u16", &[]);
    let (fields, _) = parse_fields(
        &attribute,
        &declare(vec![plain("a", "u8"), plain("_b", "u8"), plain("_b", "u8"), plain("a", "bool")]),
    )
    .unwrap();

    assert_eq!(
        check_bitfield_type_contain_field_bits(&attribute, &fields),
        Err(BitfieldError::LayoutBudgetExceeded { total: 25, bits: 16 })
    );
    assert_eq!(
        check_bitfield_type_contain_field_bits(&policy("u32", &[]), &fields),
        Err(BitfieldError::LayoutBudgetUnderfilled { total: 25, bits: 32, remaining: 7 })
    );
    assert_eq!(
        check_bitfield_names_unique(&fields),
        Err(BitfieldError::DuplicateFieldName { index: 3 })
    );
    assert_eq!(check_bitfield_names_unique(&fields[..3].to_vec()), Ok(()));
    assert_eq!(check_bitfield_type_contain_field_bits(&attribute, &fields[..2].to_vec()), Ok(()));
}

#[test]
fn default_values_are_checked_against_width_and_type() {
    let parsed = |number, negative, has_integer_suffix| {
        Ok(Some(ParsedNumber { number, negative, has_integer_suffix }))
    };

    assert_eq!(check_default_value_fit_in_field("255", 8, "u8"), parsed(255, false, false));
    assert_eq!(check_default_value_fit_in_field("-128", 8, "i8"), parsed(128, true, false));
    assert_eq!(check_default_value_fit_in_field("A_VAL", 8, "u8"), Ok(None));
    assert_eq!(check_default_value_fit_in_field("true", 1, "bool"), parsed(1, false, false));
    assert_eq!(
        check_default_value_fit_in_field("340282366920938463463374607431768211455", 128, "u128"),
        parsed(u128::MAX, false, false)
    );
    assert_eq!(
        check_default_value_fit_in_field("170141183460469231731687303715884105728", 128, "i128"),
        Err(FieldError::DefaultValueExceedsTypeRange {
            value: 1 << 127,
            negative: false,
            integer_type: IntegerType::I128
        })
    );
    assert_eq!(
        check_default_value_fit_in_field("-170141183460469231731687303715884105728", 128, "i128"),
        parsed(1 << 127, true, false)
    );
    assert_eq!(
        check_default_value_fit_in_field("256", 8, "u16"),
        Err(FieldError::DefaultValueExceedsFieldWidth { value: 256, negative: false, bits: 8 })
    );
    assert_eq!(
        check_default_value_fit_in_field("256", 16, "u8"),
        Err(FieldError::DefaultValueExceedsTypeRange {
            value: 256,
            negative: false,
            integer_type: IntegerType::U8
        })
    );
    assert_eq!(
        check_default_value_fit_in_field("2", 8, "bool"),
        Err(FieldError::DefaultValueExceedsTypeRange {
            value: 2,
            negative: false,
            integer_type: IntegerType::Bool
        })
    );
    assert_eq!(
        check_default_value_fit_in_field("65536", 32, "i16"),
        Err(FieldError::DefaultValueExceedsTypeRange {
            value: 65536,
            negative: false,
            integer_type: IntegerType::I16
        })
    );
    assert_eq!(
        check_default_value_fit_in_field("1", 0, "u8"),
        Err(FieldError::DefaultValueExceedsFieldWidth { value: 1, negative: false, bits: 0 })
    );
    assert_eq!(
        check_default_value_fit_in_field("1", 8, "CustomType"),
        Err(FieldError::UnexpectedConfiguration)
    );
    assert_eq!(
        check_default_value_fit_in_field("0.5", 8, "u8"),
        Err(FieldError::FloatDefaultValueUnsupported)
    );
}

#[test]
fn literals_get_the_name_of_the_type() {
    assert_eq!(create_expr_lit_with_integer_suffix("12", "i16"), Ok("12i16".to_string()));
    assert_eq!(
        create_expr_lit_with_integer_suffix("12", "Custom"),
        Err(FieldError::UnexpectedConfiguration)
    );
    assert_eq!(add_integer_literals_to_expr(&value("-1"), "i8"), Ok("-1i8".to_string()));
    assert_eq!(add_integer_literals_to_expr(&value("0x7F"), "i64"), Ok("0x7Fi64".to_string()));
    assert_eq!(
        add_integer_literals_to_expr(&value("true"), "i8"),
        Err(FieldError::UnexpectedConfiguration)
    );
    assert_eq!(
        add_integer_literals_to_expr(&value("A_VAL"), "i8"),
        Err(FieldError::UnexpectedConfiguration)
    );
}

#[test]
fn names_of_the_operations() {
    assert_eq!(bits_constant_name("ro_bool"), "RO_BOOL_BITS");
    assert_eq!(offset_constant_name("a1"), "A1_OFFSET");
    assert_eq!(setter_name("a"), "set_a");
    assert_eq!(checked_setter_name("a"), "checked_set_a");
    assert_eq!(builder_setter_name("a"), "with_a");
    assert_eq!(checked_builder_setter_name("a"), "checked_with_a");
    assert_eq!(inverted_getter_name("a"), "neg_a");
    assert_eq!(builder_name("Bitfield"), "BitfieldBuilder");
    assert_eq!(uppercase("aZ_09\u{e9}"), "AZ_09\u{e9}");
    assert!(str_equals("abc", "abc") && !str_equals("abc", "abd") && !str_equals("ab", "abc"));
    assert_eq!(decimal(0), "0");
    assert_eq!(decimal(9), "9");
    assert_eq!(decimal(10), "10");
    assert_eq!(decimal(1234567890), "1234567890");
    assert_eq!(decimal(u128::MAX), u128::MAX.to_string());
}

#[test]
fn generated_constants_getters_and_setters() {
    let bitfield = mixed(&[("order", "msb")]);

    assert_eq!(
        bitfield.field_constants,
        vec![
            FieldConstants { field: 0, bits: 3, offset: 29 },
            FieldConstants { field: 1, bits: 1, offset: 28 },
            FieldConstants { field: 2, bits: 9, offset: 19 },
            FieldConstants { field: 3, bits: 9, offset: 10 },
            FieldConstants { field: 5, bits: 8, offset: 0 },
        ]
    );
    let getters = &bitfield.field_getters;
    assert_eq!(getters.iter().map(|g| g.field).collect::<Vec<_>>(), vec![0, 1, 2, 5]);
    assert_eq!(
        getters.iter().map(|g| g.kind).collect::<Vec<_>>(),
        vec![GetterKind::Integer, GetterKind::Bool, GetterKind::Integer, GetterKind::Integer]
    );
    assert_eq!(
        getters.iter().map(|g| g.sign_extend_shift).collect::<Vec<_>>(),
        vec![None, None, Some(7), Some(0)]
    );
    assert_eq!(
        getters.iter().map(|g| (g.first_bit, g.last_bit)).collect::<Vec<_>>(),
        vec![(29, 31), (28, 28), (19, 27), (0, 7)]
    );
    assert_eq!(
        getters.iter().map(|g| g.documentation).collect::<Vec<_>>(),
        vec![
            BitsDocumentation::Descending,
            BitsDocumentation::SingleBit,
            BitsDocumentation::SignExtended,
            BitsDocumentation::SignExtended
        ]
    );
    assert!(getters.iter().all(|g| !g.inverted));
    let inverted =
        generate_field_getters_functions_tokens(&bitfield.attribute, &bitfield.fields, true);
    assert!(inverted.iter().all(|g| g.inverted));
    let setters = &bitfield.field_setters;
    assert_eq!(setters.iter().map(|s| s.field).collect::<Vec<_>>(), vec![0, 2, 3, 5]);
    assert_eq!(setters[0].setter.comparison, Comparison::Nothing);
    assert!(!setters[0].setter.checked);
    assert_eq!(setters[0].checked_setter.comparison, Comparison::InFieldType);
    assert!(setters[0].checked_setter.checked);
    assert_eq!((setters[1].setter.bits, setters[1].setter.offset), (9, 19));
    assert_eq!(setters[1].documentation, BitsDocumentation::Descending);
    let read_only = generate_setter_impl_tokens(&bitfield.fields[1], true);
    assert!(read_only.named_constants);
    assert_eq!(read_only.comparison, Comparison::Nothing);
    assert_eq!(
        bitfield.builder.as_ref().unwrap().setters,
        vec![
            BuilderSetter { field: 0, first_bit: 29, end_bit: 32 },
            BuilderSetter { field: 2, first_bit: 19, end_bit: 28 },
            BuilderSetter { field: 3, first_bit: 10, end_bit: 19 },
            BuilderSetter { field: 5, first_bit: 0, end_bit: 8 },
        ]
    );
    assert_eq!(
        bitfield.debug_implementation.as_ref().unwrap()[0],
        DebugField { field: 0, bits: 3, offset: 29 }
    );
    let lsb = mixed(&[]);
    assert_eq!(
        lsb.debug_implementation.as_ref().unwrap()[0],
        DebugField { field: 5, bits: 8, offset: 24 }
    );
    assert_eq!(lsb.field_getters[0].documentation, BitsDocumentation::Ascending);
    assert_eq!(
        bitfield.into_bits_function,
        Some(IntoBitsFunction { swap_bytes: false })
    );
    assert!(!bitfield.from_bits_function.as_ref().unwrap().swap_bytes);
    let little = mixed(&[("from_endian", "little"), ("into_endian", "little")]);
    assert!(little.from_bits_function.as_ref().unwrap().swap_bytes);
    assert!(little.from_bits_with_defaults_function.as_ref().unwrap().swap_bytes);
    assert!(little.from_bitfield_type.as_ref().unwrap().swap_bytes);
    assert!(!bitfield.from_bitfield_type.as_ref().unwrap().swap_bytes);
    assert_eq!(little.into_bitfield_type, Some(IntoBitsFunction { swap_bytes: true }));
}

#[test]
fn custom_fields_compare_in_the_backing_type() {
    let bitfield = generate(
        "u8",
        &[],
        vec![bits("c", "CustomType", Some(3), &[]), bits("_p", "u8", Some(5), &[])],
    );

    assert_eq!(bitfield.field_getters[0].kind, GetterKind::Custom);
    assert!(bitfield.field_setters[0].setter.custom);
    assert_eq!(bitfield.field_setters[0].checked_setter.comparison, Comparison::InBackingType);
    let mut value = bitfield.new();
    assert_eq!(
        bitfield.checked_set(&mut value, "c", FieldValue::Unsigned(8)),
        Err(OperationError::ValueTooLargeForField)
    );
    assert_eq!(bitfield.checked_set(&mut value, "c", FieldValue::Unsigned(7)), Ok(()));
    assert_eq!(bitfield.get(value, "c"), u(7));
}

#[test]
fn generated_assignments() {
    let bitfield = mixed(&[]);
    let step = |field, value, through_setter| FieldAssignment { field, value, through_setter };

    assert_eq!(
        generate_setting_fields_default_values_tokens(&bitfield.fields),
        vec![
            step(0, AssignedValue::Default, true),
            step(1, AssignedValue::Zero, false),
            step(2, AssignedValue::Default, true),
            step(3, AssignedValue::Zero, true),
            step(4, AssignedValue::Default, false),
            step(5, AssignedValue::Zero, true),
        ]
    );
    assert_eq!(
        generate_setting_fields_to_zero_tokens(&bitfield.fields, true),
        (0..6).map(|k| step(k, AssignedValue::Zero, k != 1 && k != 4)).collect::<Vec<_>>()
    );
    assert_eq!(
        generate_setting_fields_to_zero_tokens(&bitfield.fields, false),
        [0, 2, 3, 4, 5].iter().map(|k| step(*k, AssignedValue::Zero, *k != 4)).collect::<Vec<_>>()
    );
    assert_eq!(
        generate_setting_fields_from_bits_tokens(&bitfield.fields, false, true),
        (0..6).map(|k| step(k, AssignedValue::Bits, k != 1 && k != 4)).collect::<Vec<_>>()
    );
    assert_eq!(
        generate_setting_fields_from_bits_tokens(&bitfield.fields, true, false),
        vec![
            step(0, AssignedValue::Default, true),
            step(2, AssignedValue::Default, true),
            step(3, AssignedValue::Bits, true),
            step(4, AssignedValue::Default, false),
            step(5, AssignedValue::Bits, true),
        ]
    );
    let padded = generate(
        "u16",
        &[],
        vec![plain("a", "u8"), bits("_p", "u8", None, &[("default", "3")])],
    );
    assert_eq!(
        generate_setting_fields_to_zero_tokens(&padded.fields, false),
        vec![step(0, AssignedValue::Zero, true), step(1, AssignedValue::Default, false)]
    );
    assert_eq!(
        generate_setting_fields_from_bits_tokens(&padded.fields, false, false),
        vec![step(0, AssignedValue::Bits, true), step(1, AssignedValue::Default, false)]
    );
    assert_eq!(bitfield.new_function, Some(generate_setting_fields_default_values_tokens(&bitfield.fields)));
    let mut storage = 0xFFFF_FFFF;
    run_assignments(
        &bitfield.fields,
        &vec![step(0, AssignedValue::Zero, true), step(5, AssignedValue::Bits, true)],
        0x1200_0000,
        &mut storage,
    );
    assert_eq!(storage, 0x12FF_FFF8);
}

#[test]
fn new_values() {
    let bitfield = mixed(&[]);

    let value = bitfield.new();
    assert_eq!(bitfield.get(value, "a"), u(5));
    assert_eq!(bitfield.get(value, "flag"), b(false));
    assert_eq!(bitfield.get(value, "s"), i(-200));
    assert_eq!(bitfield.get(value, "w"), None);
    assert_eq!(bitfield.get(value, "hidden"), None);
    assert_eq!(bitfield.get(value, "n"), i(0));
    assert_eq!(bitfield.get(value, "missing"), None);
    assert_eq!(value, 5 | ((512 - 200) << 4) | (2 << 22));
    assert_eq!(bitfield.new_without_defaults(), 0);
    assert_eq!(bitfield.field_index("s"), Some(2));
    assert_eq!(bitfield.field_index("t"), None);
    let with_a = bitfield.builder_new().checked_with(&bitfield, "a", FieldValue::Unsigned(7));
    assert_eq!(bitfield.get(with_a.unwrap().build(), "a"), u(7));
    assert_eq!(
        bitfield.builder_new().checked_with(&bitfield, "a", FieldValue::Unsigned(8)),
        Err(OperationError::ValueTooLargeForField)
    );
    assert_eq!(
        bitfield.debug_string(value),
        "Bitfield { n: 0, hidden: 2, w: 0, s: 312, flag: 0, a: 5 }"
    );
    let empty_name = generate("u8", &[], vec![plain("only", "u8")]);
    assert_eq!(empty_name.debug_string(255), "Bitfield { only: 255 }");
}

#[test]
fn getters_of_inverted_bits() {
    let bitfield = generate(
        "u16",
        &[],
        vec![bits("a", "u8", Some(4), &[]), bits("s", "i8", Some(4), &[]), plain("f", "bool"), bits("_p", "u8", Some(7), &[])],
    );
    let value = bitfield.from_bits(0b1_0110_0101);

    assert_eq!(get_field(&bitfield.fields[0], value), FieldValue::Unsigned(0b0101));
    assert_eq!(get_field_inverted(&bitfield.fields[0], value), FieldValue::Unsigned(0b1010));
    assert_eq!(get_field(&bitfield.fields[1], value), FieldValue::Signed(6));
    assert_eq!(get_field_inverted(&bitfield.fields[1], value), FieldValue::Signed(-7));
    assert_eq!(get_field(&bitfield.fields[2], value), FieldValue::Bool(true));
    assert_eq!(get_field_inverted(&bitfield.fields[2], value), FieldValue::Bool(false));
}

#[test]
fn values_as_bits() {
    assert_eq!(bits_of_value(FieldValue::Bool(true)), 1);
    assert_eq!(bits_of_value(FieldValue::Bool(false)), 0);
    assert_eq!(bits_of_value(FieldValue::Unsigned(77)), 77);
    assert_eq!(bits_of_value(FieldValue::Signed(77)), 77);
    assert_eq!(bits_of_value(FieldValue::Signed(-1)), u128::MAX);
    assert_eq!(bits_of_value(FieldValue::Signed(i128::MIN)), 1 << 127);
    assert_eq!(signed_of_value(FieldValue::Bool(true)), 1);
    assert_eq!(signed_of_value(FieldValue::Unsigned(77)), 77);
    assert_eq!(signed_of_value(FieldValue::Unsigned(u128::MAX)), -1);
    assert_eq!(signed_of_value(FieldValue::Unsigned(1 << 127)), i128::MIN);
    assert_eq!(signed_of_value(FieldValue::Signed(-9)), -9);
    assert_eq!(sign_extend_bits(0b0111, 4), 7);
    assert_eq!(sign_extend_bits(0b1000, 4), -8);
    assert_eq!(sign_extend_bits(1, 1), -1);
    assert_eq!(sign_extend_bits(0, 1), 0);
    assert_eq!(sign_extend_bits(u128::MAX, 128), -1);
    assert_eq!(sign_extend_bits(1 << 127, 128), i128::MIN);
    assert_eq!(sign_extend_bits((1 << 127) - 1, 128), i128::MAX);
}

#[test]
fn masks_and_fields() {
    assert_eq!(field_mask(0), 0);
    assert_eq!(field_mask(1), 1);
    assert_eq!(field_mask(8), 0xFF);
    assert_eq!(field_mask(127), u128::MAX >> 1);
    assert_eq!(field_mask(128), u128::MAX);
    assert_eq!(extract_bits(0xABCD, 4, 8), 0xBC);
    assert_eq!(extract_bits(u128::MAX, 0, 128), u128::MAX);
    assert_eq!(extract_bits(1 << 127, 127, 1), 1);
    assert_eq!(insert_bits(0xABCD, 4, 8, 0x12), 0xA12D);
    assert_eq!(insert_bits(0xABCD, 4, 8, 0xF12), 0xA12D);
    assert_eq!(insert_bits(0, 127, 1, 1), 1 << 127);
    assert_eq!(insert_bits(u128::MAX, 0, 128, 5), 5);
}

#[test]
fn fields_of_128_bits() {
    let bitfield = generate("u128", &[("bit_ops", "true")], vec![bits("a", "i128", None, &[("default", "-1")])]);

    let mut value = bitfield.new();
    assert_eq!(value, u128::MAX);
    assert_eq!(bitfield.get(value, "a"), i(-1));
    assert!(bitfield.set(&mut value, "a", FieldValue::Signed(i128::MIN)));
    assert_eq!(bitfield.get(value, "a"), i(i128::MIN));
    assert!(bitfield.get_bit(value, 127));
    assert!(!bitfield.get_bit(value, 128));
    let unsigned = generate("u128", &[], vec![bits("a", "u128", None, &[("default", "5")])]);
    assert_eq!(unsigned.get(unsigned.new(), "a"), u(5));
    let mut value = 0;
    assert_eq!(unsigned.checked_set(&mut value, "a", FieldValue::Unsigned(u128::MAX)), Ok(()));
    assert_eq!(unsigned.get(value, "a"), u(u128::MAX));
}

#[test]
fn setters_on_single_fields() {
    let bitfield = mixed(&[]);
    let mut value = 0;

    set_field(&bitfield.fields[1], &mut value, FieldValue::Bool(true));
    assert_eq!(value, 0b1000);
    assert_eq!(checked_set_field(&bitfield.fields[0], &mut value, FieldValue::Unsigned(8)),
        Err(OperationError::ValueTooLargeForField));
    assert_eq!(value, 0b1000);
    assert_eq!(checked_set_field(&bitfield.fields[0], &mut value, FieldValue::Unsigned(6)), Ok(()));
    assert_eq!(value, 0b1110);
    assert_eq!(OperationError::IndexOutOfBounds.message(), "Index out of bounds.");
    assert_eq!(OperationError::NoReadAccessAtBit.message(), "Can't read from a write-only field.");
    assert_eq!(
        OperationError::NoWriteAccessAtBit.message(),
        "Can't write to a non-writable or padding field."
    );
    assert_eq!(OperationError::NoSuchSetter.message(), "The field has no setter.");
    assert_eq!(BitOrder::Lsb, bitfield.attribute.bit_order);
}

#[test]
fn generated_getters_and_setters_evaluate() {
    for pairs in [&[][..], &[("order", "msb")][..]] {
        let bitfield = mixed(pairs);
        for x in [0u128, 0xFFFF_FFFF, 0x1234_5678, 0x8765_4321, 0x0F0F_0F0F] {
            let value = bitfield.from_bits(x);
            for getter in bitfield.field_getters.iter() {
                let field = &bitfield.fields[getter.field];
                assert_eq!(getter.read(value), get_field(field, value));
                assert_eq!(getter.read_inverted(value), get_field_inverted(field, value));
                assert_eq!(Some(getter.read(value)), bitfield.get(value, &field.name));
            }
            for setter in bitfield.field_setters.iter() {
                let field = &bitfield.fields[setter.field];
                for v in [
                    FieldValue::Unsigned(0),
                    FieldValue::Unsigned(5),
                    FieldValue::Unsigned(0x1FF),
                    FieldValue::Unsigned(0x200),
                    FieldValue::Signed(-1),
                    FieldValue::Signed(-256),
                    FieldValue::Signed(255),
                    FieldValue::Signed(256),
                    FieldValue::Bool(true),
                ] {
                    let (mut by_setter, mut by_field) = (value, value);
                    setter.write(&mut by_setter, v);
                    set_field(field, &mut by_field, v);
                    assert_eq!(by_setter, by_field);
                    let (mut by_setter, mut by_field) = (value, value);
                    assert_eq!(
                        setter.checked_write(&mut by_setter, v),
                        checked_set_field(field, &mut by_field, v)
                    );
                    assert_eq!(by_setter, by_field);
                }
            }
        }
    }
    let bitfield = mixed(&[]);
    let mut value = 0;
    bitfield.field_setters[1].write(&mut value, FieldValue::Signed(-3));
    assert_eq!(value, (512 - 3) << 4);
    assert_eq!(bitfield.field_getters[2].read(value), FieldValue::Signed(-3));
    assert_eq!(bitfield.field_getters[2].read_inverted(value), FieldValue::Signed(2));
    assert_eq!(
        bitfield.field_setters[1].checked_write(&mut value, FieldValue::Signed(512)),
        Err(OperationError::ValueTooLargeForField)
    );
    assert_eq!(value, (512 - 3) << 4);
}

#[test]
fn signedness_follows_the_declared_type() {
    let attribute = policy("u8", &[]);
    let field = do_parse_field(&attribute, &plain("a", "i8"), &Vec::new()).unwrap();

    assert_eq!(field.bits, 8);
    assert_eq!(field.offset, 0);
    assert_eq!(field.access, FieldAccess::ReadWrite);
    assert!(!field.padding);
    assert!(!field.ignore);
    assert!(!field.unsigned);
    for (ty, unsigned) in [
        ("u8", true),
        ("u16", true),
        ("u32", true),
        ("u64", true),
        ("u128", true),
        ("bool", true),
        ("i8", false),
        ("i16", false),
        ("i32", false),
        ("i64", false),
        ("i128", false),
    ] {
        let policy = policy("u128", &[]);
        let plain_field = do_parse_field(&policy, &plain("a", ty), &Vec::new()).unwrap();
        let with_attribute =
            do_parse_field(&policy, &bits("a", ty, None, &[]), &Vec::new()).unwrap();
        assert_eq!(plain_field.unsigned, unsigned);
        assert_eq!(with_attribute.unsigned, unsigned);
    }
    let bitfield = generate("u8", &[], vec![plain("a", "i8")]);
    assert_eq!(bitfield.field_getters[0].sign_extend_shift, Some(0));
    assert_eq!(bitfield.field_getters[0].documentation, BitsDocumentation::SignExtended);
    assert_eq!(bitfield.get(bitfield.from_bits(0xFF), "a"), i(-1));
}

#[test]
fn conversion_from_the_backing_integer_is_from_bits() {
    let plain4 = || vec![plain("a", "u8"), plain("b", "u8"), plain("c", "u8"), plain("d", "u8")];
    let little = generate("u32", &[("from_endian", "little")], plain4());

    let value = little.from(0x44332211);
    assert_eq!(value, little.from_bits(0x44332211));
    assert_eq!(little.get(value, "a"), u(0x44));
    assert_eq!(little.get(value, "d"), u(0x11));
    let both = generate(
        "u32",
        &[("from_endian", "little"), ("into_endian", "little")],
        vec![
            plain("a", "u8"),
            bits("r", "u8", None, &[("access", "ro")]),
            plain("c", "u16"),
        ],
    );
    for x in [0u128, 0x44332211, 0xFFFF_0000, 0x8000_0001] {
        assert_eq!(both.into_bits(both.from(x)), x);
    }
    assert_eq!(both.get(both.from(0x44332211), "r"), u(0x33));
    let big = generate("u32", &[], plain4());
    assert_eq!(big.get(big.from(0x44332211), "a"), u(0x11));
}

#[test]
fn errors_are_told_with_what_they_are_about() {
    let tell = |pairs: &[(&str, &str)], fields: Vec<FieldDeclaration>| {
        let arguments = attribute("u16", pairs);
        let declaration = declare(fields);
        let error = bitfield(&arguments, &declaration).unwrap_err();
        describe(&error, &arguments, &declaration)
    };
    let two = || vec![plain("a", "u8"), plain("b", "u8")];

    assert_eq!(tell(&[("neg", "true")], two()), "Unknown 'bitfield' argument: neg");
    assert_eq!(
        tell(&[("new", "false"), ("order", "up")], two()),
        "Invalid order: 'up', must be either 'lsb' or 'msb'."
    );
    assert_eq!(
        tell(&[("into_endian", "middle")], two()),
        "Invalid endian: 'middle', must be either 'little' or 'big'."
    );
    assert_eq!(tell(&[("order", "1")], two()), "Failed to parse the 'order' arg '1'.");
    assert_eq!(
        tell(&[("from_endian", "true")], two()),
        "Failed to parse the 'from_endian' arg 'true', must be either 'little' or 'big'."
    );
    assert_eq!(
        tell(&[("bit_ops", "yes")], two()),
        "Failed to parse the 'bit_ops' arg 'yes', must be either 'true' or 'false'."
    );
    assert_eq!(
        tell(&[], vec![plain("a", "u8"), bits("b", "u8", None, &[("ignore", "3")])]),
        "Failed to parse the 'ignore' arg '3', must be either 'true' or 'false'."
    );
    assert_eq!(
        tell(&[], vec![plain("a", "u8"), bits("b", "u8", None, &[("wide", "3")])]),
        "Unknown 'bits' argument: wide"
    );
    assert_eq!(
        tell(&[], vec![plain("a", "u8"), bits("b", "u8", None, &[("access", "all")])]),
        "Unable to parse access value, expected 'ro', 'wo', 'rw', or 'none'"
    );
    assert_eq!(
        tell(
            &[],
            vec![
                bits("skipped", "u64", None, &[("ignore", "true")]),
                plain("first", "u8"),
                bits("first", "u8", None, &[("ignore", "true")]),
                plain("first", "u8"),
            ]
        ),
        "The field name 'first' is duplicated, each field must have a unique name."
    );
    assert_eq!(
        tell(&[], vec![plain("a", "u8")]),
        "The total number of bits of the fields (8 bits) is less than the number of bits of the bitfield type 'u16' (16 bits), you can add a padding field (prefixed with '_') to fill the remaining '8 bits'."
    );
    assert_eq!(
        tell(&[], vec![plain("a", "u8"), bits("b", "u8", Some(9), &[])]),
        "The field type \"u8\" (8 bits) is too small to hold the specified '9 bits'."
    );
    let arguments = attribute("u16", &[]);
    let declaration = declare(two());
    assert_eq!(
        describe(&BitfieldError::DuplicateFieldName { index: 7 }, &arguments, &declaration),
        "The field name is duplicated, each field must have a unique name."
    );
}

#[test]
fn packed_fields_are_found_among_the_declarations() {
    let declarations = vec![
        bits("i0", "u64", None, &[("ignore", "true")]),
        plain("p0", "u8"),
        bits("p1", "u8", Some(3), &[("ignore", "false")]),
        bits("i1", "Custom", Some(99), &[("ignore", "false"), ("ignore", "true")]),
        plain("p2", "bool"),
    ];

    assert_eq!(packed_declaration_index(&declarations, 0), Some(1));
    assert_eq!(packed_declaration_index(&declarations, 1), Some(2));
    assert_eq!(packed_declaration_index(&declarations, 2), Some(4));
    assert_eq!(packed_declaration_index(&declarations, 3), None);
    assert_eq!(packed_declaration_index(&Vec::new(), 0), None);
}
