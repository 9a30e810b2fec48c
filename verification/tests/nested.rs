use fluvio_codec::bound::{PropAttrsType, SymbolTable};
use fluvio_codec::codec::{decode_field, decode_struct, encode_field, encode_struct, SkipLog};
use fluvio_codec::error::CodecError;
use fluvio_codec::schema::{FieldSchema, StructureSchema};
use fluvio_codec::value::{FieldType, Scalar, ScalarType, Value};

fn field(name: &str, ty: FieldType, min: i16, default: Option<&str>) -> FieldSchema {
    FieldSchema {
        name: Some(name.to_string()),
        ty,
        min_version: PropAttrsType::Int(min),
        max_version: None,
        default_value: default.map(|d| d.to_string()),
        varint: false,
        ignorable: false,
    }
}

/// A point: `x` from the start, `y` from version 2 on, 7 where it is not
/// on the wire.
fn point() -> StructureSchema {
    StructureSchema {
        fields: vec![
            field("x", FieldType::Scalar(ScalarType::Int16), 0, None),
            field("y", FieldType::Scalar(ScalarType::Int16), 2, Some("7")),
        ],
    }
}

fn point_value(x: i16, y: i16) -> Vec<Value> {
    vec![Value::Scalar(Scalar::Int16(x)), Value::Scalar(Scalar::Int16(y))]
}

fn shown(v: &Value) -> String {
    format!("{:?}", v)
}

#[test]
fn a_structure_has_the_bytes_of_its_fields() {
    let mut symbols = SymbolTable::new();
    let place = symbols.define_structure(point());
    assert_eq!(place, 0);
    let f = field("origin", FieldType::Struct(place), 0, None);
    let value = Value::Struct(point_value(1, 2));

    let mut log = SkipLog::new(true);
    let mut dest = vec![9u8];
    encode_field(&f, &symbols, 2, &value, &mut dest, &mut log).unwrap();
    assert_eq!(dest, vec![9, 0, 1, 0, 2]);

    assert!(log.events.is_empty());

    let mut dest = Vec::new();
    encode_field(&f, &symbols, 1, &value, &mut dest, &mut log).unwrap();
    assert_eq!(dest, vec![0, 1]);
    assert_eq!(log.events.len(), 1);
    assert_eq!(log.events[0].field.as_deref(), Some("y"));
    assert_eq!(log.events[0].version, 1);
    assert_eq!(log.events[0].min, 2);
    assert_eq!(log.events[0].max, None);
}

#[test]
fn a_structure_is_read_back_with_its_defaults() {
    let mut symbols = SymbolTable::new();
    let place = symbols.define_structure(point());
    let f = field("origin", FieldType::Struct(place), 0, None);
    let mut log = SkipLog::new(false);

    let (found, used) = decode_field(&f, &symbols, 2, &[0, 1, 0, 2, 5], &mut log).unwrap();
    assert_eq!(used, 4);
    assert_eq!(shown(&found), shown(&Value::Struct(point_value(1, 2))));

    let (found, used) = decode_field(&f, &symbols, 1, &[0, 1, 0, 2, 5], &mut log).unwrap();
    assert_eq!(used, 2);
    assert_eq!(shown(&found), shown(&Value::Struct(point_value(1, 7))));
}

#[test]
fn a_run_of_structures_has_its_count_in_front() {
    let mut symbols = SymbolTable::new();
    let place = symbols.define_structure(point());
    let f = field("corners", FieldType::StructArray(place), 0, None);
    let value = Value::StructArray(vec![point_value(1, 2), point_value(3, 4)]);
    let mut log = SkipLog::new(false);

    let mut dest = Vec::new();
    encode_field(&f, &symbols, 2, &value, &mut dest, &mut log).unwrap();
    assert_eq!(dest, vec![0, 0, 0, 2, 0, 1, 0, 2, 0, 3, 0, 4]);
    let (found, used) = decode_field(&f, &symbols, 2, &dest, &mut log).unwrap();
    assert_eq!(used, 12);
    assert_eq!(shown(&found), shown(&value));

    let mut dest = Vec::new();
    encode_field(&f, &symbols, 0, &value, &mut dest, &mut log).unwrap();
    assert_eq!(dest, vec![0, 0, 0, 2, 0, 1, 0, 3]);
    let (found, used) = decode_field(&f, &symbols, 0, &dest, &mut log).unwrap();
    assert_eq!(used, 8);
    assert_eq!(
        shown(&found),
        shown(&Value::StructArray(vec![point_value(1, 7), point_value(3, 7)]))
    );

    let mut dest = Vec::new();
    encode_field(&f, &symbols, 2, &Value::StructArray(Vec::new()), &mut dest, &mut log).unwrap();
    assert_eq!(dest, vec![0, 0, 0, 0]);
}

#[test]
fn a_structure_that_is_absent_has_the_absent_values_of_its_fields() {
    let mut symbols = SymbolTable::new();
    let place = symbols.define_structure(point());
    let one = field("origin", FieldType::Struct(place), 3, None);
    let many = field("corners", FieldType::StructArray(place), 3, None);
    let mut log = SkipLog::new(true);

    let mut dest = Vec::new();
    encode_field(&one, &symbols, 2, &Value::Struct(point_value(1, 2)), &mut dest, &mut log).unwrap();
    assert!(dest.is_empty());
    assert_eq!(log.events.len(), 1);
    assert_eq!(log.events[0].field.as_deref(), Some("origin"));

    let (found, used) = decode_field(&one, &symbols, 2, &[1, 2, 3], &mut log).unwrap();
    assert_eq!(used, 0);
    assert_eq!(shown(&found), shown(&Value::Struct(point_value(0, 7))));

    let (found, used) = decode_field(&many, &symbols, 2, &[1, 2, 3], &mut log).unwrap();
    assert_eq!(used, 0);
    assert_eq!(shown(&found), shown(&Value::StructArray(Vec::new())));
    assert_eq!(log.events.len(), 3);

    let with_default = field("origin", FieldType::Struct(place), 3, Some("1"));
    match decode_field(&with_default, &symbols, 2, &[], &mut log).unwrap_err() {
        CodecError::TypeMismatch { field } => assert_eq!(field.as_deref(), Some("origin")),
        other => panic!("another error: {:?}", other),
    }
}

#[test]
fn a_structure_must_be_held_by_the_table() {
    let symbols = SymbolTable::new();
    let f = field("origin", FieldType::Struct(0), 0, None);
    let mut log = SkipLog::new(false);
    let mut dest = vec![1u8];
    match encode_field(&f, &symbols, 0, &Value::Struct(point_value(1, 2)), &mut dest, &mut log)
        .unwrap_err()
    {
        CodecError::TypeMismatch { field } => assert_eq!(field.as_deref(), Some("origin")),
        other => panic!("another error: {:?}", other),
    }
    assert_eq!(dest, vec![1]);
    match decode_field(&f, &symbols, 0, &[0, 1, 0, 2], &mut log).unwrap_err() {
        CodecError::TypeMismatch { field } => assert_eq!(field.as_deref(), Some("origin")),
        other => panic!("another error: {:?}", other),
    }
    let many = field("corners", FieldType::StructArray(4), 0, None);
    match decode_field(&many, &symbols, 0, &[0, 0, 0, 0], &mut log).unwrap_err() {
        CodecError::TypeMismatch { field } => assert_eq!(field.as_deref(), Some("corners")),
        other => panic!("another error: {:?}", other),
    }
}

#[test]
fn a_structure_holds_only_structures_before_it() {
    let mut symbols = SymbolTable::new();
    // The structure at place 0 names itself, which it may not.
    let place = symbols.define_structure(StructureSchema {
        fields: vec![
            field("x", FieldType::Scalar(ScalarType::Int16), 0, None),
            field("next", FieldType::StructArray(0), 0, None),
        ],
    });
    let f = field("chain", FieldType::Struct(place), 0, None);
    let value = Value::Struct(vec![
        Value::Scalar(Scalar::Int16(1)),
        Value::StructArray(Vec::new()),
    ]);
    let mut log = SkipLog::new(false);
    let mut dest = vec![1u8];
    match encode_field(&f, &symbols, 0, &value, &mut dest, &mut log).unwrap_err() {
        CodecError::TypeMismatch { field } => assert_eq!(field.as_deref(), Some("next")),
        other => panic!("another error: {:?}", other),
    }
    assert_eq!(dest, vec![1]);
    match decode_field(&f, &symbols, 0, &[0, 1, 0, 0, 0, 0], &mut log).unwrap_err() {
        CodecError::TypeMismatch { field } => assert_eq!(field.as_deref(), Some("next")),
        other => panic!("another error: {:?}", other),
    }
}

#[test]
fn structures_within_structures_are_written() {
    let mut symbols = SymbolTable::new();
    let inner = symbols.define_structure(point());
    let outer = symbols.define_structure(StructureSchema {
        fields: vec![
            field("name", FieldType::Scalar(ScalarType::Text), 0, None),
            field("corners", FieldType::StructArray(inner), 0, None),
        ],
    });
    assert_eq!((inner, outer), (0, 1));
    let schema = StructureSchema {
        fields: vec![
            field("count", FieldType::Scalar(ScalarType::Int8), 0, None),
            field("shapes", FieldType::StructArray(outer), 1, None),
        ],
    };
    let shape = vec![
        Value::Scalar(Scalar::Text("ab".to_string())),
        Value::StructArray(vec![point_value(1, 2)]),
    ];
    let values = vec![Value::Scalar(Scalar::Int8(5)), Value::StructArray(vec![shape])];

    let mut log = SkipLog::new(true);
    let mut dest = Vec::new();
    encode_struct(&schema, &symbols, 2, &values, &mut dest, &mut log).unwrap();
    assert_eq!(
        dest,
        vec![5, 0, 0, 0, 1, 0, 2, b'a', b'b', 0, 0, 0, 1, 0, 1, 0, 2]
    );
    let (found, used) = decode_struct(&schema, &symbols, 2, &dest, &mut log).unwrap();
    assert_eq!(used, dest.len());
    assert_eq!(format!("{:?}", found), format!("{:?}", values));

    assert!(log.events.is_empty());

    // At version 1 the points have no `y`, which is recorded for each.
    let mut dest = Vec::new();
    encode_struct(&schema, &symbols, 1, &values, &mut dest, &mut log).unwrap();
    assert_eq!(dest, vec![5, 0, 0, 0, 1, 0, 2, b'a', b'b', 0, 0, 0, 1, 0, 1]);
    assert_eq!(log.events.len(), 1);
    assert_eq!(log.events[0].field.as_deref(), Some("y"));
    let (found, used) = decode_struct(&schema, &symbols, 1, &dest, &mut log).unwrap();
    assert_eq!(used, dest.len());
    assert_eq!(log.events.len(), 2);
    assert_eq!(log.events[1].field.as_deref(), Some("y"));
    let back = vec![
        Value::Scalar(Scalar::Int8(5)),
        Value::StructArray(vec![vec![
            Value::Scalar(Scalar::Text("ab".to_string())),
            Value::StructArray(vec![point_value(1, 7)]),
        ]]),
    ];
    assert_eq!(format!("{:?}", found), format!("{:?}", back));

    let mut dest = Vec::new();
    encode_struct(&schema, &symbols, 0, &values, &mut dest, &mut log).unwrap();
    assert_eq!(dest, vec![5]);
    assert_eq!(log.events.len(), 3);
    assert_eq!(log.events[2].field.as_deref(), Some("shapes"));
}

#[test]
fn records_of_a_structure_go_with_a_fault_behind_it() {
    let mut symbols = SymbolTable::new();
    let place = symbols.define_structure(point());
    let schema = StructureSchema {
        fields: vec![
            field("corners", FieldType::StructArray(place), 0, None),
            field("depth", FieldType::Scalar(ScalarType::Int32), 0, None),
        ],
    };
    let rows = Value::StructArray(vec![point_value(1, 2), point_value(3, 4)]);

    // The last value is of another type: the records of the points go.
    let values = vec![rows, Value::Scalar(Scalar::Int16(1))];
    let mut log = SkipLog::new(true);
    let mut dest = vec![7u8];
    match encode_struct(&schema, &symbols, 1, &values, &mut dest, &mut log).unwrap_err() {
        CodecError::TypeMismatch { field } => assert_eq!(field.as_deref(), Some("depth")),
        other => panic!("another error: {:?}", other),
    }
    assert_eq!(dest, vec![7]);
    assert!(log.events.is_empty());

    // The bytes end within the last field: the same.
    let src = vec![0u8, 0, 0, 2, 0, 1, 0, 3, 0, 0];
    match decode_struct(&schema, &symbols, 1, &src, &mut log).unwrap_err() {
        CodecError::UnexpectedEof { field } => assert_eq!(field.as_deref(), Some("depth")),
        other => panic!("another error: {:?}", other),
    }
    assert!(log.events.is_empty());

    // With all the bytes there, each point leaves its record.
    let src = vec![0u8, 0, 0, 2, 0, 1, 0, 3, 0, 0, 0, 9];
    let (found, used) = decode_struct(&schema, &symbols, 1, &src, &mut log).unwrap();
    assert_eq!(used, 12);
    assert_eq!(found.len(), 2);
    let skipped: Vec<Option<&str>> = log.events.iter().map(|e| e.field.as_deref()).collect();
    assert_eq!(skipped, vec![Some("y"), Some("y")]);

    // A log that keeps no records stays empty.
    let mut quiet = SkipLog::new(false);
    decode_struct(&schema, &symbols, 1, &src, &mut quiet).unwrap();
    assert!(quiet.events.is_empty());
}

#[test]
fn a_fault_within_a_structure_leaves_nothing_behind() {
    let mut symbols = SymbolTable::new();
    let place = symbols.define_structure(point());
    let f = field("corners", FieldType::StructArray(place), 0, None);
    let mut log = SkipLog::new(false);

    // The second row holds a value of another type.
    let rows = vec![
        point_value(1, 2),
        vec![Value::Scalar(Scalar::Int16(3)), Value::Scalar(Scalar::Int32(4))],
    ];
    let mut dest = vec![8u8, 9];
    match encode_field(&f, &symbols, 2, &Value::StructArray(rows), &mut dest, &mut log).unwrap_err() {
        CodecError::TypeMismatch { field } => assert_eq!(field.as_deref(), Some("y")),
        other => panic!("another error: {:?}", other),
    }
    assert_eq!(dest, vec![8, 9]);

    // A row with too few values.
    let rows = vec![vec![Value::Scalar(Scalar::Int16(3))]];
    match encode_field(&f, &symbols, 2, &Value::StructArray(rows), &mut dest, &mut log).unwrap_err() {
        CodecError::TypeMismatch { field } => assert_eq!(field, None),
        other => panic!("another error: {:?}", other),
    }
    assert_eq!(dest, vec![8, 9]);

    // A value that is no run of structures.
    match encode_field(&f, &symbols, 2, &Value::Struct(point_value(1, 2)), &mut dest, &mut log)
        .unwrap_err()
    {
        CodecError::TypeMismatch { field } => assert_eq!(field.as_deref(), Some("corners")),
        other => panic!("another error: {:?}", other),
    }
    assert_eq!(dest, vec![8, 9]);
}

#[test]
fn structures_that_are_cut_short_are_not_read() {
    let mut symbols = SymbolTable::new();
    let place = symbols.define_structure(point());
    let f = field("corners", FieldType::StructArray(place), 0, None);
    let mut log = SkipLog::new(false);
    let whole = vec![0u8, 0, 0, 2, 0, 1, 0, 2, 0, 3, 0, 4];
    for k in 0..whole.len() {
        match decode_field(&f, &symbols, 2, &whole[..k], &mut log).unwrap_err() {
            CodecError::UnexpectedEof { field } => {
                let name = if k < 4 {
                    "corners"
                } else if (k - 4) % 4 < 2 {
                    "x"
                } else {
                    "y"
                };
                assert_eq!(field.as_deref(), Some(name), "cut at {}", k);
            }
            other => panic!("another error: {:?}", other),
        }
    }
    match decode_field(&f, &symbols, 2, &[0xff, 0xff, 0xff, 0xff], &mut log).unwrap_err() {
        CodecError::TypeMismatch { field } => assert_eq!(field.as_deref(), Some("corners")),
        other => panic!("another error: {:?}", other),
    }
}
