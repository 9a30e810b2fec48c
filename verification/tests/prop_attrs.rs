use std::str::FromStr;

use fluvio_codec::ast::{Expr, Lit, LitInt, LitStr, Path};
use fluvio_codec::bound::PropAttrsType;
use fluvio_codec::prop::prop_attrs_type_value;
use fluvio_codec::util::get_attr_type_from_expr;
use proc_macro2::TokenStream;

const ATTR_NAME: &str = "test_attr_name";

fn tokens(text: &str) -> String {
    TokenStream::from_str(text).unwrap().to_string()
}

#[test]
fn test_props_attr_value_with_func_from_lit() {
    let value = "test()";

    let lit_str = LitStr::new(value.to_string());
    let expr = Expr::Lit(Lit::Str(lit_str));

    let props_attr_value: PropAttrsType = get_attr_type_from_expr(ATTR_NAME, &expr).unwrap();
    let prop_attrs_token_stream = prop_attrs_type_value(Some(&props_attr_value));

    let expected_result = TokenStream::from_str(value).unwrap();
    assert_eq!(expected_result.to_string(), tokens(&prop_attrs_token_stream));
}

#[test]
fn test_props_attr_value_with_lit_int() {
    let value = "4";

    let lit_str = LitInt::new(value.to_string());
    let expr = Expr::Lit(Lit::Int(lit_str));

    let props_attr_value: PropAttrsType = get_attr_type_from_expr(ATTR_NAME, &expr).unwrap();
    let prop_attrs_token_stream = prop_attrs_type_value(Some(&props_attr_value));

    let expected_result = TokenStream::from_str(&format!("{}_i16", value)).unwrap();
    assert_eq!(expected_result.to_string(), tokens(&prop_attrs_token_stream));
}

#[test]
fn test_props_attr_value_with_lit_const() {
    let value = "test";

    let lit_str = LitStr::new(value.to_string());
    let expr = Expr::Lit(Lit::Str(lit_str));

    let props_attr_value: PropAttrsType = get_attr_type_from_expr(ATTR_NAME, &expr).unwrap();
    let prop_attrs_token_stream = prop_attrs_type_value(Some(&props_attr_value));

    let expected_result = TokenStream::from_str(value).unwrap();
    assert_eq!(expected_result.to_string(), tokens(&prop_attrs_token_stream));
}

#[test]
fn test_props_attr_value_with_path_const() {
    let value = "test";

    let expr = Expr::Path(Path::from_ident(value.to_string()));

    let props_attr_value: PropAttrsType = get_attr_type_from_expr(ATTR_NAME, &expr).unwrap();
    let prop_attrs_token_stream = prop_attrs_type_value(Some(&props_attr_value));

    let expected_result = TokenStream::from_str(value).unwrap();
    assert_eq!(expected_result.to_string(), tokens(&prop_attrs_token_stream));
}

#[test]
fn test_props_attr_value_with_unary() {
    // The literal is positive: the sign is the unary operator in front of it.
    let value = "1";
    let result_value = "-1";

    let lit_str = LitInt::new(value.to_string());
    let expr_lit = Expr::Lit(Lit::Int(lit_str));
    let expr = Expr::Unary(Box::new(expr_lit));

    let props_attr_value: PropAttrsType = get_attr_type_from_expr(ATTR_NAME, &expr).unwrap();
    let prop_attrs_token_stream = prop_attrs_type_value(Some(&props_attr_value));

    let expected_result = TokenStream::from_str(&format!("{}_i16", result_value)).unwrap();
    assert_eq!(expected_result.to_string(), tokens(&prop_attrs_token_stream));
}

#[test]
fn test_props_attr_value_default() {
    let value = "0";

    let prop_attrs_token_stream = prop_attrs_type_value(None);

    let expected_result = TokenStream::from_str(&format!("{}_i16", value)).unwrap();
    assert_eq!(expected_result.to_string(), tokens(&prop_attrs_token_stream));
}
