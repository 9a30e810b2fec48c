use fluvio_codec::ast::{Expr, Lit, LitInt, LitStr, Path, PathSegment};
use fluvio_codec::bound::{PropAttrsType, SymbolTable};
use fluvio_codec::decimal::{format_signed, format_unsigned, parse_signed, parse_unsigned};
use fluvio_codec::error::{Expected, SchemaError};
use fluvio_codec::ident::is_ident;
use fluvio_codec::text::{is_white_space, str_eq, trim};
use fluvio_codec::util::{get_attr_type_from_expr, get_expr_value, get_lit_int, get_lit_str};

fn number(digits: &str) -> Expr {
    Expr::Lit(Lit::Int(LitInt::new(digits.to_string())))
}

fn text(value: &str) -> Expr {
    Expr::Lit(Lit::Str(LitStr::new(value.to_string())))
}

fn expected_of(result: Result<PropAttrsType, SchemaError>) -> (String, String, Expected) {
    match result {
        Err(SchemaError::InvalidBoundExpression { attribute, expression, expected }) => {
            (attribute, expression, expected)
        }
        other => panic!("not an invalid bound expression: {:?}", other),
    }
}

#[test]
fn integer_literal_is_a_constant() {
    match get_attr_type_from_expr("min_version", &number("9")).unwrap() {
        PropAttrsType::Int(v) => assert_eq!(v, 9),
        other => panic!("unexpected {:?}", other),
    }
    match get_attr_type_from_expr("min_version", &number("0")).unwrap() {
        PropAttrsType::Int(v) => assert_eq!(v, 0),
        other => panic!("unexpected {:?}", other),
    }
    match get_attr_type_from_expr("min_version", &number("32767")).unwrap() {
        PropAttrsType::Int(v) => assert_eq!(v, 32767),
        other => panic!("unexpected {:?}", other),
    }
}

#[test]
fn integer_literal_too_large_is_refused() {
    let (attribute, expression, expected) =
        expected_of(get_attr_type_from_expr("max_version", &number("32768")));
    assert_eq!(attribute, "max_version");
    assert_eq!(expression, "32768");
    assert_eq!(expected, Expected::ValidInt);
}

#[test]
fn negated_literal_is_a_negative_constant() {
    let expr = Expr::Unary(Box::new(number("1")));
    match get_attr_type_from_expr("min_version", &expr).unwrap() {
        PropAttrsType::Int(v) => assert_eq!(v, -1),
        other => panic!("unexpected {:?}", other),
    }
    let expr = Expr::Unary(Box::new(number("32767")));
    match get_attr_type_from_expr("min_version", &expr).unwrap() {
        PropAttrsType::Int(v) => assert_eq!(v, -32767),
        other => panic!("unexpected {:?}", other),
    }
}

#[test]
fn only_one_negation_is_accepted() {
    let expr = Expr::Unary(Box::new(Expr::Unary(Box::new(number("1")))));
    let (_, expression, expected) = expected_of(get_attr_type_from_expr("min_version", &expr));
    assert_eq!(expression, "--1");
    assert_eq!(expected, Expected::ValidInt);

    let expr = Expr::Unary(Box::new(text("x")));
    let (_, expression, expected) = expected_of(get_attr_type_from_expr("min_version", &expr));
    assert_eq!(expression, "-\"x\"");
    assert_eq!(expected, Expected::ValidInt);
}

#[test]
fn string_literal_names_a_constant() {
    match get_attr_type_from_expr("min_version", &text("MIN_VERSION")).unwrap() {
        PropAttrsType::Lit(name) => assert_eq!(name, "MIN_VERSION"),
        other => panic!("unexpected {:?}", other),
    }
    match get_attr_type_from_expr("min_version", &text("_")).unwrap() {
        PropAttrsType::Lit(name) => assert_eq!(name, "_"),
        other => panic!("unexpected {:?}", other),
    }
}

#[test]
fn string_literal_with_parentheses_names_a_function() {
    match get_attr_type_from_expr("min_version", &text("compute_min()")).unwrap() {
        PropAttrsType::Fn(name) => assert_eq!(name, "compute_min"),
        other => panic!("unexpected {:?}", other),
    }
}

#[test]
fn string_literal_that_is_no_name_is_refused() {
    for bad in ["", "()", "1abc", "a b", "a(b)", "f(", "f()()", "a-b"] {
        let (attribute, expression, expected) =
            expected_of(get_attr_type_from_expr("min_version", &text(bad)));
        assert_eq!(attribute, "min_version");
        assert_eq!(expression, format!("\"{}\"", bad));
        assert_eq!(expected, Expected::Identifier);
    }
}

#[test]
fn path_of_one_name_is_a_constant() {
    let expr = Expr::Path(Path::from_ident("TEST".to_string()));
    match get_attr_type_from_expr("min_version", &expr).unwrap() {
        PropAttrsType::Lit(name) => assert_eq!(name, "TEST"),
        other => panic!("unexpected {:?}", other),
    }
}

#[test]
fn longer_path_is_refused() {
    let path = Path {
        leading_colon: false,
        segments: vec![PathSegment::new("a".to_string()), PathSegment::new("B".to_string())],
    };
    let (_, expression, expected) =
        expected_of(get_attr_type_from_expr("min_version", &Expr::Path(path)));
    assert_eq!(expression, "a::B");
    assert_eq!(expected, Expected::ValidPath);

    let path = Path { leading_colon: true, segments: vec![PathSegment::new("A".to_string())] };
    let (_, expression, expected) =
        expected_of(get_attr_type_from_expr("min_version", &Expr::Path(path)));
    assert_eq!(expression, "::A");
    assert_eq!(expected, Expected::ValidPath);
}

#[test]
fn other_expressions_are_refused() {
    let (_, expression, expected) =
        expected_of(get_attr_type_from_expr("min_version", &Expr::Other("1 + 2".to_string())));
    assert_eq!(expression, "1 + 2");
    assert_eq!(expected, Expected::LitPathUnary);

    let (_, expression, expected) = expected_of(get_attr_type_from_expr(
        "min_version",
        &Expr::Lit(Lit::Other("true".to_string())),
    ));
    assert_eq!(expression, "true");
    assert_eq!(expected, Expected::StrOrInt);

    let (attribute, expression, expected) = expected_of(get_expr_value("min_version", &None));
    assert_eq!(attribute, "min_version");
    assert_eq!(expression, "");
    assert_eq!(expected, Expected::LitPathUnary);
}

#[test]
fn get_expr_value_reads_present_values() {
    match get_expr_value("min_version", &Some(number("7"))).unwrap() {
        PropAttrsType::Int(v) => assert_eq!(v, 7),
        other => panic!("unexpected {:?}", other),
    }
}

#[test]
fn literal_getters_tell_the_kinds_apart() {
    let value = Some(number("12"));
    assert_eq!(get_lit_int("n", &value).unwrap().digits, "12");
    match get_lit_str("n", &value) {
        Err(SchemaError::InvalidBoundExpression { expected, .. }) => {
            assert_eq!(expected, Expected::Str)
        }
        other => panic!("unexpected {:?}", other),
    }
    let value = Some(text("abc"));
    assert_eq!(get_lit_str("n", &value).unwrap().value, "abc");
    match get_lit_int("n", &value) {
        Err(SchemaError::InvalidBoundExpression { expected, .. }) => {
            assert_eq!(expected, Expected::Int)
        }
        other => panic!("unexpected {:?}", other),
    }
    match get_lit_int("n", &None) {
        Err(SchemaError::InvalidBoundExpression { expected, .. }) => {
            assert_eq!(expected, Expected::Lit)
        }
        other => panic!("unexpected {:?}", other),
    }
    match get_lit_str("n", &Some(Expr::Other("x".to_string()))) {
        Err(SchemaError::InvalidBoundExpression { expected, .. }) => {
            assert_eq!(expected, Expected::Lit)
        }
        other => panic!("unexpected {:?}", other),
    }
}

#[test]
fn identifiers_follow_the_unicode_tables() {
    assert!(is_ident("abc"));
    assert!(is_ident("_abc1"));
    assert!(is_ident("_"));
    assert!(is_ident("été"));
    assert!(!is_ident(""));
    assert!(!is_ident("1a"));
    assert!(!is_ident("123"));
    assert!(!is_ident("a-b"));
    assert!(!is_ident("a b"));
    assert!(!is_ident("a()"));
}

#[test]
fn decimals_are_read_and_written() {
    assert_eq!(parse_unsigned("0", 10), Some(0));
    assert_eq!(parse_unsigned("007", 10), Some(7));
    assert_eq!(parse_unsigned("10", 10), Some(10));
    assert_eq!(parse_unsigned("11", 10), None);
    assert_eq!(parse_unsigned("", 10), None);
    assert_eq!(parse_unsigned("+1", 10), None);
    assert_eq!(parse_unsigned("1a", 10), None);
    assert_eq!(parse_unsigned("18446744073709551615", u64::MAX), Some(u64::MAX));
    assert_eq!(parse_unsigned("18446744073709551616", u64::MAX), None);
    assert_eq!(parse_unsigned("99999999999999999999999999", u64::MAX), None);

    assert_eq!(parse_signed("-1", -128, 127), Some(-1));
    assert_eq!(parse_signed("-128", -128, 127), Some(-128));
    assert_eq!(parse_signed("-129", -128, 127), None);
    assert_eq!(parse_signed("127", -128, 127), Some(127));
    assert_eq!(parse_signed("128", -128, 127), None);
    assert_eq!(parse_signed("-", -128, 127), None);
    assert_eq!(parse_signed("--1", -128, 127), None);
    assert_eq!(parse_signed("-0", -128, 127), Some(0));
    assert_eq!(parse_signed("-9223372036854775808", i64::MIN, i64::MAX), Some(i64::MIN));
    assert_eq!(parse_signed("9223372036854775807", i64::MIN, i64::MAX), Some(i64::MAX));
    assert_eq!(parse_signed("9223372036854775808", i64::MIN, i64::MAX), None);
    assert_eq!(parse_signed("5", 6, 9), None);
    assert_eq!(parse_signed("-5", -4, 9), None);

    assert_eq!(format_unsigned(0), "0");
    assert_eq!(format_unsigned(1234567890), "1234567890");
    assert_eq!(format_unsigned(u64::MAX), "18446744073709551615");
    assert_eq!(format_signed(-1), "-1");
    assert_eq!(format_signed(i64::MIN), "-9223372036854775808");
    assert_eq!(format_signed(42), "42");
}

#[test]
fn bounds_resolve_through_the_table() {
    let mut symbols = SymbolTable::new();
    symbols.define_constant("MIN".to_string(), 3);
    symbols.define_constant("MIN".to_string(), 8);
    symbols.define_function("compute_min".to_string(), 5);

    assert_eq!(symbols.resolve_bound(&PropAttrsType::Int(-4)), Some(-4));
    assert_eq!(symbols.resolve_bound(&PropAttrsType::Lit("MIN".to_string())), Some(3));
    assert_eq!(symbols.resolve_bound(&PropAttrsType::Fn("compute_min".to_string())), Some(5));
    assert_eq!(symbols.resolve_bound(&PropAttrsType::Lit("compute_min".to_string())), None);
    assert_eq!(symbols.resolve_bound(&PropAttrsType::Fn("MIN".to_string())), None);
    assert_eq!(symbols.resolve_bound(&PropAttrsType::Lit("OTHER".to_string())), None);
}

#[test]
fn texts_are_compared_character_by_character() {
    assert!(str_eq("", ""));
    assert!(str_eq("été", "été"));
    assert!(!str_eq("a", "ab"));
    assert!(!str_eq("ab", "ac"));
}

#[test]
fn white_space_is_taken_off_both_ends() {
    assert_eq!(trim(""), "");
    assert_eq!(trim("   \t\n"), "");
    assert_eq!(trim("yes"), "yes");
    assert_eq!(trim("  yes"), "yes");
    assert_eq!(trim("yes \r\n"), "yes");
    assert_eq!(trim(" a b  c "), "a b  c");
    assert_eq!(trim("\u{2003}é\u{a0}"), "é");
    assert_eq!(trim("x"), "x");
}

#[test]
fn white_space_is_what_std_takes_for_it() {
    let mut text = String::new();
    for code in 0u32..=0x10ffff {
        if let Some(c) = char::from_u32(code) {
            text.clear();
            text.push(c);
            assert_eq!(trim(&text).is_empty(), c.is_whitespace(), "U+{:04X}", code);
            assert_eq!(is_white_space(c), c.is_whitespace(), "U+{:04X}", code);
        }
    }
}
