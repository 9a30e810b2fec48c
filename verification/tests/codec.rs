use fluvio_codec::bound::{PropAttrsType, SymbolTable};
use fluvio_codec::codec::{
    decode_field, decode_struct, decode_value, encode_field, encode_struct, encode_value,
    value_fits, SkipLog,
};
use fluvio_codec::error::{CodecError, SchemaError};
use fluvio_codec::schema::{FieldSchema, StructureSchema};
use fluvio_codec::value::{FieldType, Scalar, ScalarType, Value};
use fluvio_codec::wire::{decode_scalar, encode_scalar, scalar_is_writable, WireFault};

fn field(name: Option<&str>, ty: FieldType, min: i16, max: Option<i16>) -> FieldSchema {
    FieldSchema {
        name: name.map(|n| n.to_string()),
        ty,
        min_version: PropAttrsType::Int(min),
        max_version: max.map(PropAttrsType::Int),
        default_value: None,
        varint: false,
        ignorable: false,
    }
}

fn int32(v: i32) -> Value {
    Value::Scalar(Scalar::Int32(v))
}

fn as_int32(v: &Value) -> i32 {
    match v {
        Value::Scalar(Scalar::Int32(x)) => *x,
        other => panic!("not a 32 bit integer: {:?}", other),
    }
}

fn encode_one(field: &FieldSchema, symbols: &SymbolTable, version: i16, value: &Value) -> Vec<u8> {
    let mut dest = Vec::new();
    let mut log = SkipLog::new(false);
    encode_field(field, symbols, version, value, &mut dest, &mut log).unwrap();
    dest
}

fn decode_one(field: &FieldSchema, symbols: &SymbolTable, version: i16, src: &[u8]) -> (Value, usize) {
    let mut log = SkipLog::new(false);
    decode_field(field, symbols, version, src, &mut log).unwrap()
}

fn written(v: Scalar, varint: bool) -> Vec<u8> {
    let mut dest = Vec::new();
    encode_scalar(&v, varint, &mut dest).unwrap();
    dest
}

fn read(ty: ScalarType, varint: bool, src: &[u8]) -> Result<(String, usize), WireFault> {
    decode_scalar(ty, varint, src).map(|(v, used)| (format!("{:?}", v), used))
}

fn shown(v: Scalar, used: usize) -> Result<(String, usize), WireFault> {
    Ok((format!("{:?}", v), used))
}

#[test]
fn fixed_width_integers_are_big_endian() {
    let mut dest = vec![9u8];
    encode_scalar(&Scalar::Int32(5), false, &mut dest).unwrap();
    assert_eq!(dest, vec![9, 0, 0, 0, 5]);

    assert_eq!(written(Scalar::Int16(-1), false), vec![0xff, 0xff]);
    assert_eq!(written(Scalar::Int16(258), false), vec![1, 2]);
    assert_eq!(written(Scalar::Int8(-128), false), vec![0x80]);
    assert_eq!(written(Scalar::Int32(i32::MIN), false), vec![0x80, 0, 0, 0]);
    assert_eq!(written(Scalar::Int64(0x0102030405060708), false), vec![1, 2, 3, 4, 5, 6, 7, 8]);
    assert_eq!(written(Scalar::Int64(i64::MIN), false), vec![0x80, 0, 0, 0, 0, 0, 0, 0]);
    assert_eq!(written(Scalar::Int64(-2), false), vec![0xff; 7].into_iter().chain([0xfe]).collect::<Vec<u8>>());

    assert_eq!(read(ScalarType::Int32, false, &[0, 0, 0, 5, 7]), shown(Scalar::Int32(5), 4));
    assert_eq!(read(ScalarType::Int16, false, &[0xff, 0xfe]), shown(Scalar::Int16(-2), 2));
    assert_eq!(
        read(ScalarType::Int64, false, &[0x80, 0, 0, 0, 0, 0, 0, 0]),
        shown(Scalar::Int64(i64::MIN), 8)
    );
    assert_eq!(read(ScalarType::Int8, false, &[0x7f]), shown(Scalar::Int8(127), 1));
    assert_eq!(read(ScalarType::Int32, false, &[0, 0, 0]), Err(WireFault::UnexpectedEof));
    assert_eq!(read(ScalarType::Int8, false, &[]), Err(WireFault::UnexpectedEof));
}

#[test]
fn variable_length_integers_shrink_with_magnitude() {
    let cases: Vec<(i64, Vec<u8>)> = vec![
        (0, vec![0]),
        (-1, vec![1]),
        (1, vec![2]),
        (-2, vec![3]),
        (63, vec![126]),
        (-64, vec![127]),
        (64, vec![0x80, 0x01]),
        (300, vec![0xd8, 0x04]),
        (i64::MAX, vec![0xfe, 0xff, 0xff, 0xff, 0xff, 0xff, 0xff, 0xff, 0xff, 0x01]),
        (i64::MIN, vec![0xff, 0xff, 0xff, 0xff, 0xff, 0xff, 0xff, 0xff, 0xff, 0x01]),
    ];
    for (value, bytes) in cases {
        assert_eq!(written(Scalar::Int64(value), true), bytes);
        assert_eq!(read(ScalarType::Int64, true, &bytes), shown(Scalar::Int64(value), bytes.len()));
    }
    assert_eq!(written(Scalar::Int32(300), true), vec![0xd8, 0x04]);
    assert_eq!(written(Scalar::Int8(-1), true), vec![1]);
}

#[test]
fn variable_length_integers_are_held_to_their_type() {
    // 300 does not fit eight bits.
    assert_eq!(read(ScalarType::Int8, true, &[0xd8, 0x04]), Err(WireFault::TypeMismatch));
    assert_eq!(read(ScalarType::Int16, true, &[0xd8, 0x04]), shown(Scalar::Int16(300), 2));
    // The bytes end before the number does.
    assert_eq!(read(ScalarType::Int16, true, &[0xd8]), Err(WireFault::UnexpectedEof));
    assert_eq!(read(ScalarType::Int16, true, &[]), Err(WireFault::UnexpectedEof));
    // More than ten bytes are not read.
    assert_eq!(read(ScalarType::Int64, true, &[0x80; 11]), Err(WireFault::TypeMismatch));
    assert_eq!(
        read(ScalarType::Int64, true, &[0x80, 0x80, 0x80, 0x80, 0x80, 0x80, 0x80, 0x80, 0x80, 0x00]),
        shown(Scalar::Int64(0), 10)
    );
    // Ten groups can hold more than sixty-four bits.
    assert_eq!(
        read(ScalarType::Int64, true, &[0xff, 0xff, 0xff, 0xff, 0xff, 0xff, 0xff, 0xff, 0xff, 0x7f]),
        Err(WireFault::TypeMismatch)
    );
}

#[test]
fn scalars_have_their_wire_forms() {
    assert_eq!(written(Scalar::Bool(true), false), vec![1]);
    assert_eq!(written(Scalar::Bool(false), true), vec![0]);
    assert_eq!(written(Scalar::Int16(-2), false), vec![0xff, 0xfe]);
    assert_eq!(written(Scalar::Int16(-2), true), vec![3]);
    assert_eq!(written(Scalar::Text("hé".to_string()), true), vec![0, 3, b'h', 0xc3, 0xa9]);
    assert_eq!(written(Scalar::Text(String::new()), false), vec![0, 0]);

    assert_eq!(read(ScalarType::Bool, false, &[1, 0]), shown(Scalar::Bool(true), 1));
    assert_eq!(read(ScalarType::Bool, false, &[0]), shown(Scalar::Bool(false), 1));
    assert_eq!(
        read(ScalarType::Text, false, &[0, 3, b'h', 0xc3, 0xa9, 7]),
        shown(Scalar::Text("hé".to_string()), 5)
    );
    assert_eq!(read(ScalarType::Text, true, &[0, 0]), shown(Scalar::Text(String::new()), 2));
}

#[test]
fn bytes_of_another_type_are_refused() {
    assert_eq!(read(ScalarType::Bool, false, &[2]), Err(WireFault::TypeMismatch));
    // A negative length.
    assert_eq!(read(ScalarType::Text, false, &[0xff, 0xff]), Err(WireFault::TypeMismatch));
    // Bytes that are no UTF-8.
    assert_eq!(read(ScalarType::Text, false, &[0, 2, 0xc3, 0x28]), Err(WireFault::TypeMismatch));
    // A text that is cut short.
    assert_eq!(read(ScalarType::Text, false, &[0, 3, b'a', b'b']), Err(WireFault::UnexpectedEof));
    assert_eq!(read(ScalarType::Text, false, &[0]), Err(WireFault::UnexpectedEof));
    assert_eq!(read(ScalarType::Bool, false, &[]), Err(WireFault::UnexpectedEof));
}

#[test]
fn long_text_cannot_be_written() {
    assert!(scalar_is_writable(&Scalar::Text("a".repeat(32767))));
    assert!(!scalar_is_writable(&Scalar::Text("a".repeat(32768))));
    assert!(scalar_is_writable(&Scalar::Int64(i64::MIN)));

    let mut dest = vec![1u8];
    assert_eq!(
        encode_scalar(&Scalar::Text("a".repeat(32768)), false, &mut dest),
        Err(WireFault::TypeMismatch)
    );
    assert_eq!(dest, vec![1u8]);

    let f = field(Some("name"), FieldType::Scalar(ScalarType::Text), 0, None);
    let mut log = SkipLog::new(false);
    let long = Value::Scalar(Scalar::Text("a".repeat(32768)));
    match encode_field(&f, &SymbolTable::new(), 0, &long, &mut dest, &mut log) {
        Err(CodecError::TypeMismatch { field }) => assert_eq!(field, Some("name".to_string())),
        other => panic!("unexpected {:?}", other),
    }
    assert_eq!(dest, vec![1u8]);
}

#[test]
fn arrays_carry_their_count() {
    let ty = FieldType::Array(ScalarType::Int32);
    let value = Value::Array(vec![Scalar::Int32(1), Scalar::Int32(-1)]);
    assert!(value_fits(&ty, &value));
    let mut dest = Vec::new();
    encode_value(&ty, &value, false, &mut dest).unwrap();
    assert_eq!(dest, vec![0, 0, 0, 2, 0, 0, 0, 1, 0xff, 0xff, 0xff, 0xff]);

    let (read, used) = decode_value(&ty, false, &dest).unwrap();
    assert_eq!(used, 12);
    match read {
        Value::Array(items) => {
            assert_eq!(items.len(), 2);
            assert!(matches!(items[0], Scalar::Int32(1)));
            assert!(matches!(items[1], Scalar::Int32(-1)));
        }
        other => panic!("unexpected {:?}", other),
    }

    let mut dest = Vec::new();
    encode_value(&ty, &value, true, &mut dest).unwrap();
    assert_eq!(dest, vec![0, 0, 0, 2, 2, 1]);

    let mut dest = Vec::new();
    encode_value(&ty, &Value::Array(Vec::new()), false, &mut dest).unwrap();
    assert_eq!(dest, vec![0, 0, 0, 0]);

    let mut dest = vec![5u8];
    assert_eq!(encode_value(&ty, &int32(1), false, &mut dest), Err(WireFault::TypeMismatch));
    assert_eq!(dest, vec![5u8]);

    assert_eq!(decode_value(&ty, false, &[0xff, 0xff, 0xff, 0xff]).unwrap_err(), WireFault::TypeMismatch);
    assert_eq!(decode_value(&ty, false, &[0, 0, 0, 2, 0, 0, 0, 1]).unwrap_err(), WireFault::UnexpectedEof);
    assert_eq!(decode_value(&ty, false, &[0, 0]).unwrap_err(), WireFault::UnexpectedEof);
    assert_eq!(
        decode_value(&FieldType::Other("Records".to_string()), false, &[0, 0]).unwrap_err(),
        WireFault::TypeMismatch
    );
}

#[test]
fn values_are_held_to_the_type_of_their_field() {
    assert!(value_fits(&FieldType::Scalar(ScalarType::Int32), &int32(1)));
    assert!(!value_fits(&FieldType::Scalar(ScalarType::Int64), &int32(1)));
    assert!(!value_fits(&FieldType::Array(ScalarType::Int32), &int32(1)));
    assert!(!value_fits(
        &FieldType::Array(ScalarType::Int32),
        &Value::Array(vec![Scalar::Int32(1), Scalar::Int64(1)])
    ));
    assert!(!value_fits(&FieldType::Other("X".to_string()), &int32(1)));

    let f = field(Some("n"), FieldType::Scalar(ScalarType::Int64), 0, None);
    let mut dest = Vec::new();
    let mut log = SkipLog::new(false);
    match encode_field(&f, &SymbolTable::new(), 0, &int32(1), &mut dest, &mut log) {
        Err(CodecError::TypeMismatch { field }) => assert_eq!(field, Some("n".to_string())),
        other => panic!("unexpected {:?}", other),
    }
    assert!(dest.is_empty());
}

#[test]
fn field_is_on_the_wire_exactly_within_its_bounds() {
    let symbols = SymbolTable::new();
    let f = field(Some("f"), FieldType::Scalar(ScalarType::Int32), 3, Some(6));
    for version in -2i16..10 {
        let bytes = encode_one(&f, &symbols, version, &int32(77));
        let present = (3..=6).contains(&version);
        assert_eq!(!bytes.is_empty(), present, "version {}", version);
        if present {
            assert_eq!(bytes, vec![0, 0, 0, 77]);
            let (value, used) = decode_one(&f, &symbols, version, &bytes);
            assert_eq!(as_int32(&value), 77);
            assert_eq!(used, 4);
        } else {
            let (value, used) = decode_one(&f, &symbols, version, &[1, 2, 3, 4]);
            assert_eq!(as_int32(&value), 0);
            assert_eq!(used, 0);
        }
    }
    let f = field(Some("f"), FieldType::Scalar(ScalarType::Int32), 3, None);
    assert!(encode_one(&f, &symbols, 2, &int32(1)).is_empty());
    assert_eq!(encode_one(&f, &symbols, 3, &int32(1)).len(), 4);
    assert_eq!(encode_one(&f, &symbols, i16::MAX, &int32(1)).len(), 4);
}

#[test]
fn current_leader_epoch_is_there_from_version_nine() {
    let symbols = SymbolTable::new();
    let f = field(Some("current_leader_epoch"), FieldType::Scalar(ScalarType::Int32), 9, None);

    let bytes = encode_one(&f, &symbols, 5, &int32(42));
    assert_eq!(bytes.len(), 0);
    let (value, used) = decode_one(&f, &symbols, 5, &bytes);
    assert_eq!(as_int32(&value), 0);
    assert_eq!(used, 0);

    let bytes = encode_one(&f, &symbols, 10, &int32(42));
    assert_eq!(bytes, vec![0, 0, 0, 42]);
    let (value, used) = decode_one(&f, &symbols, 10, &bytes);
    assert_eq!(as_int32(&value), 42);
    assert_eq!(used, 4);
}

#[test]
fn isolation_level_is_there_from_version_four() {
    let symbols = SymbolTable::new();
    let f = FieldSchema {
        default_value: Some("1".to_string()),
        ..field(Some("isolation_level"), FieldType::Scalar(ScalarType::Int8), 4, None)
    };
    let level = Value::Scalar(Scalar::Int8(0));

    assert!(encode_one(&f, &symbols, 3, &level).is_empty());
    let (value, used) = decode_one(&f, &symbols, 3, &[0]);
    assert!(matches!(value, Value::Scalar(Scalar::Int8(1))));
    assert_eq!(used, 0);

    for version in [4i16, 5, 10, i16::MAX] {
        assert_eq!(encode_one(&f, &symbols, version, &level), vec![0]);
        let (value, used) = decode_one(&f, &symbols, version, &[0]);
        assert!(matches!(value, Value::Scalar(Scalar::Int8(0))));
        assert_eq!(used, 1);
    }
}

#[test]
fn absent_field_takes_its_default_or_zero() {
    let symbols = SymbolTable::new();
    let zero_cases: Vec<(ScalarType, Scalar)> = vec![
        (ScalarType::Bool, Scalar::Bool(false)),
        (ScalarType::Int8, Scalar::Int8(0)),
        (ScalarType::Int16, Scalar::Int16(0)),
        (ScalarType::Int32, Scalar::Int32(0)),
        (ScalarType::Int64, Scalar::Int64(0)),
        (ScalarType::Text, Scalar::Text(String::new())),
    ];
    for (ty, zero) in zero_cases {
        let f = field(Some("f"), FieldType::Scalar(ty), 5, None);
        let (value, used) = decode_one(&f, &symbols, 0, &[9, 9, 9]);
        assert_eq!(format!("{:?}", value), format!("{:?}", Value::Scalar(zero)));
        assert_eq!(used, 0);
    }
    let default_cases: Vec<(ScalarType, &str, Scalar)> = vec![
        (ScalarType::Bool, "true", Scalar::Bool(true)),
        (ScalarType::Int8, "-128", Scalar::Int8(-128)),
        (ScalarType::Int16, "-1", Scalar::Int16(-1)),
        (ScalarType::Int32, "2147483647", Scalar::Int32(i32::MAX)),
        (ScalarType::Int64, "-9223372036854775808", Scalar::Int64(i64::MIN)),
        (ScalarType::Text, "none", Scalar::Text("none".to_string())),
    ];
    for (ty, text, expected) in default_cases {
        let f = FieldSchema {
            default_value: Some(text.to_string()),
            ..field(Some("f"), FieldType::Scalar(ty), 5, None)
        };
        let (value, used) = decode_one(&f, &symbols, 4, &[]);
        assert_eq!(format!("{:?}", value), format!("{:?}", Value::Scalar(expected)));
        assert_eq!(used, 0);
    }
    let f = field(Some("f"), FieldType::Array(ScalarType::Int16), 5, None);
    let (value, _) = decode_one(&f, &symbols, 4, &[]);
    match value {
        Value::Array(items) => assert!(items.is_empty()),
        other => panic!("unexpected {:?}", other),
    }
}

#[test]
fn default_of_another_type_is_a_mismatch() {
    let symbols = SymbolTable::new();
    let mut log = SkipLog::new(false);
    for (ty, text) in [
        (FieldType::Scalar(ScalarType::Int8), "128"),
        (FieldType::Scalar(ScalarType::Int32), "abc"),
        (FieldType::Scalar(ScalarType::Bool), "1"),
        (FieldType::Array(ScalarType::Int32), "1"),
    ] {
        let f = FieldSchema { default_value: Some(text.to_string()), ..field(Some("f"), ty, 5, None) };
        match decode_field(&f, &symbols, 0, &[], &mut log) {
            Err(CodecError::TypeMismatch { field }) => assert_eq!(field, Some("f".to_string())),
            other => panic!("unexpected {:?}", other),
        }
    }
    // A type without a rule has a default no more than a run has.
    let f = FieldSchema {
        default_value: Some("1".to_string()),
        ..field(None, FieldType::Other("Records".to_string()), 5, None)
    };
    match decode_field(&f, &symbols, 0, &[], &mut log) {
        Err(CodecError::TypeMismatch { field }) => assert_eq!(field, None),
        other => panic!("unexpected {:?}", other),
    }
}

#[test]
fn a_type_without_a_rule_can_only_be_left_out() {
    let symbols = SymbolTable::new();
    let mut log = SkipLog::new(true);
    let f = field(Some("records"), FieldType::Other("Records".to_string()), 5, None);

    // Not on the wire: no bytes, and the zero value when read.
    let mut dest = vec![3u8];
    encode_field(&f, &symbols, 4, &Value::Zero, &mut dest, &mut log).unwrap();
    assert_eq!(dest, vec![3]);
    match decode_field(&f, &symbols, 4, &[1, 2], &mut log).unwrap() {
        (Value::Zero, 0) => {}
        other => panic!("unexpected {:?}", other),
    }
    assert_eq!(log.events.len(), 2);

    // On the wire: there is no rule to write or read it by.
    match encode_field(&f, &symbols, 5, &Value::Zero, &mut dest, &mut log) {
        Err(CodecError::TypeMismatch { field }) => assert_eq!(field.as_deref(), Some("records")),
        other => panic!("unexpected {:?}", other),
    }
    assert_eq!(dest, vec![3]);
    match decode_field(&f, &symbols, 5, &[1, 2], &mut log) {
        Err(CodecError::TypeMismatch { field }) => assert_eq!(field.as_deref(), Some("records")),
        other => panic!("unexpected {:?}", other),
    }
    assert!(!value_fits(&FieldType::Other("Records".to_string()), &Value::Zero));
}

#[test]
fn truncated_field_is_unexpected_eof() {
    let symbols = SymbolTable::new();
    let mut log = SkipLog::new(false);
    let f = field(Some("offset"), FieldType::Scalar(ScalarType::Int64), 0, None);
    let bytes = encode_one(&f, &symbols, 1, &Value::Scalar(Scalar::Int64(5)));
    for cut in 0..bytes.len() {
        match decode_field(&f, &symbols, 1, &bytes[..cut], &mut log) {
            Err(CodecError::UnexpectedEof { field }) => {
                assert_eq!(field, Some("offset".to_string()))
            }
            other => panic!("unexpected {:?}", other),
        }
    }
}

#[test]
fn bound_that_is_a_function_resolves_at_use() {
    let f = FieldSchema {
        min_version: PropAttrsType::Fn("compute_min".to_string()),
        ..field(Some("f"), FieldType::Scalar(ScalarType::Int32), 0, None)
    };
    let mut symbols = SymbolTable::new();
    let mut log = SkipLog::new(false);
    let mut dest = Vec::new();
    match encode_field(&f, &symbols, 5, &int32(1), &mut dest, &mut log) {
        Err(CodecError::UnresolvedBound { field, bound }) => {
            assert_eq!(field, Some("f".to_string()));
            assert_eq!(bound, "compute_min");
        }
        other => panic!("unexpected {:?}", other),
    }
    assert!(dest.is_empty());
    match decode_field(&f, &symbols, 5, &[0, 0, 0, 1], &mut log) {
        Err(CodecError::UnresolvedBound { field, bound }) => {
            assert_eq!(field, Some("f".to_string()));
            assert_eq!(bound, "compute_min");
        }
        other => panic!("unexpected {:?}", other),
    }
    // A constant of the same name is no function.
    symbols.define_constant("compute_min".to_string(), 2);
    assert!(f.resolve_bounds(&symbols).is_err());

    symbols.define_function("compute_min".to_string(), 6);
    assert_eq!(f.resolve_bounds(&symbols).unwrap(), (6, None));
    assert!(encode_one(&f, &symbols, 5, &int32(1)).is_empty());
    assert_eq!(encode_one(&f, &symbols, 6, &int32(1)), vec![0, 0, 0, 1]);
    let (value, used) = decode_one(&f, &symbols, 6, &[0, 0, 0, 1]);
    assert_eq!(as_int32(&value), 1);
    assert_eq!(used, 4);
}

#[test]
fn names_that_resolve_out_of_order_are_refused() {
    let f = FieldSchema {
        min_version: PropAttrsType::Lit("OLDEST".to_string()),
        max_version: Some(PropAttrsType::Fn("newest".to_string())),
        ..field(Some("f"), FieldType::Scalar(ScalarType::Int32), 0, None)
    };
    let mut symbols = SymbolTable::new();
    symbols.define_constant("OLDEST".to_string(), 5);
    symbols.define_function("newest".to_string(), 4);
    let mut log = SkipLog::new(true);
    let mut dest = vec![7u8];
    for version in [0i16, 4, 5, 9] {
        match encode_field(&f, &symbols, version, &int32(1), &mut dest, &mut log) {
            Err(CodecError::InvalidBounds(SchemaError::InvalidMinMaxOrdering {
                field,
                min,
                max,
            })) => {
                assert_eq!(field, Some("f".to_string()));
                assert_eq!((min, max), (5, 4));
            }
            other => panic!("unexpected {:?}", other),
        }
        match decode_field(&f, &symbols, version, &[0, 0, 0, 1], &mut log) {
            Err(CodecError::InvalidBounds(SchemaError::InvalidMinMaxOrdering { .. })) => {}
            other => panic!("unexpected {:?}", other),
        }
    }
    assert_eq!(dest, vec![7u8]);
    assert!(log.events.is_empty());
    assert_eq!(
        f.resolve_bounds(&symbols).unwrap_err().message(),
        "On f, max version is less than min version (min: 5, max: 4)"
    );

    // A minimum that resolves to a negative number, without a maximum.
    let f = FieldSchema {
        min_version: PropAttrsType::Fn("oldest".to_string()),
        ..field(None, FieldType::Scalar(ScalarType::Int32), 0, None)
    };
    symbols.define_function("oldest".to_string(), -1);
    match f.is_present(&symbols, 3, &mut log) {
        Err(CodecError::InvalidBounds(SchemaError::NegativeMinVersion { field, min })) => {
            assert_eq!(field, None);
            assert_eq!(min, -1);
        }
        other => panic!("unexpected {:?}", other),
    }
    // Numbers that are out of order in a schema made by hand are refused alike.
    let f = field(Some("g"), FieldType::Scalar(ScalarType::Int32), 3, Some(2));
    let schema = StructureSchema { fields: vec![f] };
    match encode_struct(&schema, &symbols, 3, &[int32(1)], &mut dest, &mut log) {
        Err(CodecError::InvalidBounds(SchemaError::InvalidMinMaxOrdering { min, max, .. })) => {
            assert_eq!((min, max), (3, 2))
        }
        other => panic!("unexpected {:?}", other),
    }
    match decode_struct(&schema, &symbols, 3, &[0, 0, 0, 1], &mut log) {
        Err(CodecError::InvalidBounds(SchemaError::InvalidMinMaxOrdering { .. })) => {}
        other => panic!("unexpected {:?}", other),
    }
    assert_eq!(dest, vec![7u8]);

    // In order, the same names give a verdict.
    let mut symbols = SymbolTable::new();
    symbols.define_constant("OLDEST".to_string(), 4);
    symbols.define_function("newest".to_string(), 4);
    let f = FieldSchema {
        min_version: PropAttrsType::Lit("OLDEST".to_string()),
        max_version: Some(PropAttrsType::Fn("newest".to_string())),
        ..field(Some("f"), FieldType::Scalar(ScalarType::Int32), 0, None)
    };
    assert_eq!(f.resolve_bounds(&symbols).unwrap(), (4, Some(4)));
    assert_eq!(encode_one(&f, &symbols, 4, &int32(1)), vec![0, 0, 0, 1]);
    assert!(encode_one(&f, &symbols, 5, &int32(1)).is_empty());
}

#[test]
fn unresolved_maximum_names_the_maximum() {
    let f = FieldSchema {
        max_version: Some(PropAttrsType::Lit("NEWEST".to_string())),
        ..field(None, FieldType::Scalar(ScalarType::Int32), 0, None)
    };
    let mut symbols = SymbolTable::new();
    match f.resolve_bounds(&symbols) {
        Err(CodecError::UnresolvedBound { field, bound }) => {
            assert_eq!(field, None);
            assert_eq!(bound, "NEWEST");
        }
        other => panic!("unexpected {:?}", other),
    }
    symbols.define_constant("NEWEST".to_string(), 4);
    assert_eq!(f.resolve_bounds(&symbols).unwrap(), (0, Some(4)));
}

#[test]
fn skipped_fields_are_recorded_when_asked_for() {
    let symbols = SymbolTable::new();
    let named = field(Some("epoch"), FieldType::Scalar(ScalarType::Int32), 3, Some(6));
    let unnamed = field(None, FieldType::Scalar(ScalarType::Int32), 9, None);

    let mut log = SkipLog::new(true);
    let mut dest = Vec::new();
    encode_field(&named, &symbols, 7, &int32(1), &mut dest, &mut log).unwrap();
    encode_field(&named, &symbols, 4, &int32(1), &mut dest, &mut log).unwrap();
    decode_field(&unnamed, &symbols, 2, &[], &mut log).unwrap();
    assert_eq!(log.events.len(), 2);
    assert_eq!(log.events[0].field, Some("epoch".to_string()));
    assert_eq!(log.events[0].version, 7);
    assert_eq!(log.events[0].min, 3);
    assert_eq!(log.events[0].max, Some(6));
    assert_eq!(log.events[1].field, None);
    assert_eq!(log.events[1].version, 2);
    assert_eq!(log.events[1].min, 9);
    assert_eq!(log.events[1].max, None);
    assert_eq!(
        log.events[0].message(),
        "Field: <epoch> is skipped because version: 7 is outside min: 3, max: 6"
    );
    assert_eq!(
        log.events[1].message(),
        "Field from tuple struct: is skipped because version: 2 is less than min: 9"
    );

    let mut log = SkipLog::new(false);
    encode_field(&named, &symbols, 7, &int32(1), &mut dest, &mut log).unwrap();
    assert!(log.events.is_empty());
    assert!(named.is_present(&symbols, 3, &mut log).unwrap());
    assert!(!named.is_present(&symbols, 2, &mut log).unwrap());
}

fn sample_schema() -> StructureSchema {
    StructureSchema {
        fields: vec![
            field(Some("index"), FieldType::Scalar(ScalarType::Int32), 0, None),
            FieldSchema {
                varint: true,
                ..field(Some("epoch"), FieldType::Scalar(ScalarType::Int32), 9, None)
            },
            field(Some("name"), FieldType::Scalar(ScalarType::Text), 0, Some(5)),
            FieldSchema {
                default_value: Some("-1".to_string()),
                ..field(Some("offset"), FieldType::Scalar(ScalarType::Int64), 5, None)
            },
            field(Some("ids"), FieldType::Array(ScalarType::Int16), 0, None),
        ],
    }
}

fn sample_values() -> Vec<Value> {
    vec![
        int32(7),
        int32(300),
        Value::Scalar(Scalar::Text("t".to_string())),
        Value::Scalar(Scalar::Int64(9)),
        Value::Array(vec![Scalar::Int16(1)]),
    ]
}

#[test]
fn structure_is_written_in_declaration_order() {
    let symbols = SymbolTable::new();
    let schema = sample_schema();
    let values = sample_values();
    let mut log = SkipLog::new(true);

    let mut dest = vec![0xaa];
    encode_struct(&schema, &symbols, 5, &values, &mut dest, &mut log).unwrap();
    assert_eq!(
        dest,
        vec![0xaa, 0, 0, 0, 7, 0, 1, b't', 0, 0, 0, 0, 0, 0, 0, 9, 0, 0, 0, 1, 0, 1]
    );
    assert_eq!(log.events.len(), 1);
    assert_eq!(log.events[0].field, Some("epoch".to_string()));

    let mut dest = Vec::new();
    encode_struct(&schema, &symbols, 9, &values, &mut dest, &mut log).unwrap();
    assert_eq!(
        dest,
        vec![0, 0, 0, 7, 0xd8, 0x04, 0, 0, 0, 0, 0, 0, 0, 9, 0, 0, 0, 1, 0, 1]
    );

    let mut dest = Vec::new();
    encode_struct(&schema, &symbols, 0, &values, &mut dest, &mut log).unwrap();
    assert_eq!(dest, vec![0, 0, 0, 7, 0, 1, b't', 0, 0, 0, 1, 0, 1]);
}

#[test]
fn structure_round_trips_at_the_same_version() {
    let symbols = SymbolTable::new();
    let schema = sample_schema();
    let values = sample_values();
    for version in 0i16..12 {
        let mut log = SkipLog::new(false);
        let mut dest = Vec::new();
        encode_struct(&schema, &symbols, version, &values, &mut dest, &mut log).unwrap();
        dest.extend_from_slice(&[0xee, 0xee]);
        let (found, used) = decode_struct(&schema, &symbols, version, &dest, &mut log).unwrap();
        assert_eq!(used, dest.len() - 2);
        assert_eq!(found.len(), 5);
        assert_eq!(as_int32(&found[0]), 7);
        assert_eq!(as_int32(&found[1]), if version >= 9 { 300 } else { 0 });
        match &found[2] {
            Value::Scalar(Scalar::Text(s)) => assert_eq!(s, if version <= 5 { "t" } else { "" }),
            other => panic!("unexpected {:?}", other),
        }
        match &found[3] {
            Value::Scalar(Scalar::Int64(v)) => assert_eq!(*v, if version >= 5 { 9 } else { -1 }),
            other => panic!("unexpected {:?}", other),
        }
        match &found[4] {
            Value::Array(items) => assert!(matches!(items[0], Scalar::Int16(1))),
            other => panic!("unexpected {:?}", other),
        }
    }
}

#[test]
fn truncated_structure_gives_no_values() {
    let symbols = SymbolTable::new();
    let schema = sample_schema();
    let values = sample_values();
    for version in [0i16, 5, 9] {
        let mut log = SkipLog::new(false);
        let mut dest = Vec::new();
        encode_struct(&schema, &symbols, version, &values, &mut dest, &mut log).unwrap();
        for cut in 0..dest.len() {
            match decode_struct(&schema, &symbols, version, &dest[..cut], &mut log) {
                Err(CodecError::UnexpectedEof { field }) => assert!(field.is_some()),
                other => panic!("unexpected at {}: {:?}", cut, other),
            }
        }
    }
}

#[test]
fn failed_structure_leaves_the_buffer_alone() {
    let symbols = SymbolTable::new();
    let schema = sample_schema();
    let mut log = SkipLog::new(false);

    let mut values = sample_values();
    values[3] = int32(1);
    let mut dest = vec![1, 2, 3];
    match encode_struct(&schema, &symbols, 6, &values, &mut dest, &mut log) {
        Err(CodecError::TypeMismatch { field }) => assert_eq!(field, Some("offset".to_string())),
        other => panic!("unexpected {:?}", other),
    }
    assert_eq!(dest, vec![1, 2, 3]);
    // The same value is no fault where the field is not on the wire.
    assert!(encode_struct(&schema, &symbols, 4, &values, &mut dest, &mut log).is_ok());

    let mut dest = vec![1, 2, 3];
    let values = sample_values();
    match encode_struct(&schema, &symbols, 6, &values[..4], &mut dest, &mut log) {
        Err(CodecError::TypeMismatch { field }) => assert_eq!(field, None),
        other => panic!("unexpected {:?}", other),
    }
    assert_eq!(dest, vec![1, 2, 3]);
}

#[test]
fn empty_structure_takes_no_bytes() {
    let symbols = SymbolTable::new();
    let schema = StructureSchema { fields: Vec::new() };
    let mut log = SkipLog::new(true);
    let mut dest = Vec::new();
    encode_struct(&schema, &symbols, 3, &[], &mut dest, &mut log).unwrap();
    assert!(dest.is_empty());
    let (found, used) = decode_struct(&schema, &symbols, 3, &[1, 2], &mut log).unwrap();
    assert!(found.is_empty());
    assert_eq!(used, 0);
    assert!(log.events.is_empty());
}
