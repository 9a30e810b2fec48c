use fluvio_codec::error::{CodecError, Expected, SchemaError};

#[test]
fn schema_errors_name_the_attribute_and_the_expression() {
    let e = SchemaError::InvalidBoundExpression {
        attribute: "min_version".to_string(),
        expression: "1 + 2".to_string(),
        expected: Expected::LitPathUnary,
    };
    assert_eq!(
        e.message(),
        "Expected min_version attribute to be a Lit/Path/Unary: `min_version = \"...\"`, found `1 + 2`"
    );
    let e = SchemaError::InvalidBoundExpression {
        attribute: "max_version".to_string(),
        expression: "a::b".to_string(),
        expected: Expected::ValidPath,
    };
    assert_eq!(
        e.message(),
        "Attribute max_version needs to be a valid Path: `max_version = \"...\"`, found `a::b`"
    );
    let e = SchemaError::InvalidBoundExpression {
        attribute: "m".to_string(),
        expression: "99999".to_string(),
        expected: Expected::ValidInt,
    };
    assert_eq!(e.message(), "Expected m to be valid Int: `m = \"...\"`, found `99999`");
    let e = SchemaError::InvalidBoundExpression {
        attribute: "m".to_string(),
        expression: "true".to_string(),
        expected: Expected::StrOrInt,
    };
    assert_eq!(
        e.message(),
        "Expected m attribute to be a LitStr or LitInt: `m = \"...\"`, found `true`"
    );
    let e = SchemaError::InvalidBoundExpression {
        attribute: "default".to_string(),
        expression: "1".to_string(),
        expected: Expected::Str,
    };
    assert_eq!(
        e.message(),
        "Expected default attribute to be a string: `default = \"...\"`, found `1`"
    );
    let e = SchemaError::InvalidBoundExpression {
        attribute: "m".to_string(),
        expression: "\"a b\"".to_string(),
        expected: Expected::Identifier,
    };
    assert_eq!(
        e.message(),
        "Expected m attribute to name a constant or a function: `m = \"...\"`, found `\"a b\"`"
    );
    let e = SchemaError::InvalidBoundExpression {
        attribute: "m".to_string(),
        expression: "x".to_string(),
        expected: Expected::Int,
    };
    assert_eq!(e.message(), "Expected m attribute to be an int: `m = \"...\"`, found `x`");
    let e = SchemaError::InvalidBoundExpression {
        attribute: "m".to_string(),
        expression: String::new(),
        expected: Expected::Lit,
    };
    assert_eq!(e.message(), "Expected m attribute to be a Lit: `m = \"...\"`, found ``");
}

#[test]
fn schema_errors_name_the_form_that_was_expected() {
    let e = SchemaError::InvalidBoundExpression {
        attribute: "fluvio".to_string(),
        expression: "3".to_string(),
        expected: Expected::List,
    };
    assert_eq!(e.message(), "Expected fluvio attribute to be a list: `fluvio = \"...\"`, found `3`");
    let e = SchemaError::InvalidBoundExpression {
        attribute: "ignorable".to_string(),
        expression: "1".to_string(),
        expected: Expected::Flag,
    };
    assert_eq!(
        e.message(),
        "Expected ignorable attribute to stand alone: `ignorable = \"...\"`, found `1`"
    );
}

#[test]
fn schema_errors_name_the_field_and_the_bounds() {
    let e = SchemaError::DuplicateAttribute { attribute: "default".to_string() };
    assert_eq!(e.message(), "fluvio attribute already specified: default");

    let e = SchemaError::InvalidMinMaxOrdering { field: Some("epoch".to_string()), min: 5, max: -4 };
    assert_eq!(e.message(), "On epoch, max version is less than min version (min: 5, max: -4)");
    let e = SchemaError::InvalidMinMaxOrdering { field: None, min: 5, max: 4 };
    assert_eq!(e.message(), "Max version is less than min version (min: 5, max: 4)");

    let e = SchemaError::NegativeMinVersion { field: Some("epoch".to_string()), min: -32768 };
    assert_eq!(e.message(), "On epoch, min version must be positive (min: -32768)");
    let e = SchemaError::NegativeMinVersion { field: None, min: -1 };
    assert_eq!(e.message(), "Min version must be positive (min: -1)");

    assert_eq!(SchemaError::MissingFieldName.message(), "Named field must have an `ident`.");
}

#[test]
fn codec_errors_name_the_field() {
    let e = CodecError::UnexpectedEof { field: Some("epoch".to_string()) };
    assert_eq!(e.message(), "Not enough bytes for field: <epoch>");
    let e = CodecError::UnexpectedEof { field: None };
    assert_eq!(e.message(), "Not enough bytes for field of tuple struct");
    let e = CodecError::UnresolvedBound {
        field: Some("epoch".to_string()),
        bound: "compute_min".to_string(),
    };
    assert_eq!(e.message(), "Unresolved version bound `compute_min` of field: <epoch>");
    let e = CodecError::TypeMismatch { field: Some("epoch".to_string()) };
    assert_eq!(e.message(), "Type mismatch in field: <epoch>");
    let e = CodecError::InvalidBounds(SchemaError::NegativeMinVersion { field: None, min: -2 });
    assert_eq!(e.message(), "Min version must be positive (min: -2)");
}
