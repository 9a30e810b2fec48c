//! Reading the values of attributes.

use crate::ast::{
    path_text, value_text, Attribute, Expr, Lit, LitInt, LitStr, Meta, MetaList, MetaNameValue,
    ParseNestedMeta, Path,
};
use crate::bound::{PropAttrsType, VersionBound};
use crate::decimal::{parse_unsigned, unsigned_decimal};
use crate::error::{Expected, SchemaError, SchemaFault};
use crate::ident::{is_ident, is_identifier};
use vstd::prelude::*;
use vstd::string::*;

verus! {

/// The bound that an integer literal states.
pub open spec fn int_bound(lit: LitInt) -> Result<VersionBound, Expected> {
    match unsigned_decimal(lit.digits@, 32767) {
        Some(v) => Ok(VersionBound::Constant(v as i16)),
        None => Err(Expected::ValidInt),
    }
}

/// The bound that a negated integer literal states.
pub open spec fn negated_int_bound(lit: LitInt) -> Result<VersionBound, Expected> {
    match unsigned_decimal(lit.digits@, 32767) {
        Some(v) => Ok(VersionBound::Constant((-(v as int)) as i16)),
        None => Err(Expected::ValidInt),
    }
}

/// Whether `text` ends in a pair of parentheses.
pub open spec fn ends_with_call(text: Seq<char>) -> bool {
    text.len() >= 2 && text[text.len() - 2] == '(' && text[text.len() - 1] == ')'
}

/// The bound that a string literal of the given text states: a function's
/// name where the text ends in `()`, else a constant's name.
pub open spec fn str_bound(text: Seq<char>) -> Result<VersionBound, Expected> {
    if ends_with_call(text) {
        let name = text.take(text.len() - 2);
        if is_identifier(name) {
            Ok(VersionBound::FunctionRef(name))
        } else {
            Err(Expected::Identifier)
        }
    } else if is_identifier(text) {
        Ok(VersionBound::ConstRef(text))
    } else {
        Err(Expected::Identifier)
    }
}

/// The bound that a path states: the constant it names.
pub open spec fn path_bound(path: Path) -> Result<VersionBound, Expected> {
    match path.ident() {
        Some(name) => if is_identifier(name) {
            Ok(VersionBound::ConstRef(name))
        } else {
            Err(Expected::ValidPath)
        },
        None => Err(Expected::ValidPath),
    }
}

/// The bound that an expression states, or what was expected in its place.
pub open spec fn expr_bound(expr: Expr) -> Result<VersionBound, Expected> {
    match expr {
        Expr::Lit(Lit::Int(lit)) => int_bound(lit),
        Expr::Lit(Lit::Str(lit)) => str_bound(lit.value@),
        Expr::Lit(Lit::Other(_)) => Err(Expected::StrOrInt),
        Expr::Unary(operand) => match *operand {
            Expr::Lit(Lit::Int(lit)) => negated_int_bound(lit),
            _ => Err(Expected::ValidInt),
        },
        Expr::Path(path) => path_bound(path),
        Expr::Other(_) => Err(Expected::LitPathUnary),
    }
}

/// The bound that the value of an attribute states, or what was expected in
/// place of the value.
pub open spec fn value_bound(field: Option<Expr>) -> Result<VersionBound, Expected> {
    match field {
        Some(expr) => expr_bound(expr),
        None => Err(Expected::LitPathUnary),
    }
}

/// The fault of an attribute whose value is not what was expected.
pub open spec fn invalid_value(attr_name: Seq<char>, field: Option<Expr>, expected: Expected) -> SchemaFault {
    SchemaFault::InvalidBoundExpression {
        attribute: attr_name,
        expression: value_text(field),
        expected,
    }
}

/// Whether `r` is the bound, or the error, that `outcome` asks for, the error
/// naming `attr_name` and the text of `field`.
pub open spec fn bound_result_is(
    r: Result<PropAttrsType, SchemaError>,
    outcome: Result<VersionBound, Expected>,
    attr_name: Seq<char>,
    field: Option<Expr>,
) -> bool {
    match outcome {
        Ok(bound) => r matches Ok(b) && b@ == bound,
        Err(expected) => r matches Err(e) && e@ == invalid_value(attr_name, field, expected),
    }
}

/// The error for a value of `attr_name` that is not what was expected.
pub fn invalid_expression(attr_name: &str, field: Option<&Expr>, expected: Expected) -> (e:
    SchemaError)
    ensures
        e@ == invalid_value(attr_name@, deref_value(field), expected),
{
    let expression = match field {
        Some(expr) => expr.to_text(),
        None => String::new(),
    };
    SchemaError::InvalidBoundExpression { attribute: attr_name.to_owned(), expression, expected }
}

/// The value behind a borrowed value.
pub open spec fn deref_value(field: Option<&Expr>) -> Option<Expr> {
    match field {
        Some(expr) => Some(*expr),
        None => None,
    }
}

/// The number that an integer literal states, if it fits sixteen bits.
fn lit_int_i16(lit: &LitInt) -> (r: Option<i16>)
    ensures
        r matches Some(v) ==> 0 <= v && unsigned_decimal(lit.digits@, 32767) == Some(v as nat),
        r is None ==> unsigned_decimal(lit.digits@, 32767) is None,
{
    match parse_unsigned(lit.digits.as_str(), 32767) {
        Some(v) => Some(v as i16),
        None => None,
    }
}

/// The bound that a string literal of the given text states.
fn str_value(text: &str) -> (r: Result<PropAttrsType, Expected>)
    ensures
        match str_bound(text@) {
            Ok(bound) => r matches Ok(b) && b@ == bound,
            Err(expected) => r == Err::<PropAttrsType, Expected>(expected),
        },
{
    let n = text.unicode_len();
    if n >= 2 && text.get_char(n - 2) == '(' && text.get_char(n - 1) == ')' {
        let name = text.substring_char(0, n - 2);
        if is_ident(name) {
            Ok(PropAttrsType::Fn(name.to_owned()))
        } else {
            Err(Expected::Identifier)
        }
    } else if is_ident(text) {
        Ok(PropAttrsType::Lit(text.to_owned()))
    } else {
        Err(Expected::Identifier)
    }
}

/// Reads an expression, given as the value of the attribute `attr_name`, as
/// a version bound.
///
/// An integer literal is a number; a string literal is the name of a
/// constant, or of a function where it ends in `()`; a path of one name is a
/// constant; a negated integer literal is a negative number. Anything else is
/// refused, with the attribute's name and the expression's text.
pub fn get_attr_type_from_expr(attr_name: &str, expr: &Expr) -> (r: Result<
    PropAttrsType,
    SchemaError,
>)
    ensures
        bound_result_is(r, expr_bound(*expr), attr_name@, Some(*expr)),
{
    let field = Some(expr);
    match expr {
        Expr::Lit(Lit::Int(lit)) => match lit_int_i16(lit) {
            Some(v) => Ok(PropAttrsType::Int(v)),
            None => Err(invalid_expression(attr_name, field, Expected::ValidInt)),
        },
        Expr::Lit(Lit::Str(lit)) => match str_value(lit.value.as_str()) {
            Ok(b) => Ok(b),
            Err(expected) => Err(invalid_expression(attr_name, field, expected)),
        },
        Expr::Lit(Lit::Other(_)) => Err(invalid_expression(attr_name, field, Expected::StrOrInt)),
        Expr::Unary(operand) => match &**operand {
            Expr::Lit(Lit::Int(lit)) => match lit_int_i16(lit) {
                Some(v) => Ok(PropAttrsType::Int(-v)),
                None => Err(invalid_expression(attr_name, field, Expected::ValidInt)),
            },
            _ => Err(invalid_expression(attr_name, field, Expected::ValidInt)),
        },
        Expr::Path(path) => match path.get_ident() {
            Some(name) => if is_ident(name.as_str()) {
                Ok(PropAttrsType::Lit(name.clone()))
            } else {
                Err(invalid_expression(attr_name, field, Expected::ValidPath))
            },
            None => Err(invalid_expression(attr_name, field, Expected::ValidPath)),
        },
        Expr::Other(_) => Err(invalid_expression(attr_name, field, Expected::LitPathUnary)),
    }
}

/// Reads the value of the attribute `attr_name` as a version bound; a
/// missing value is refused like an expression of no accepted form.
pub fn get_expr_value(attr_name: &str, field: &Option<Expr>) -> (r: Result<
    PropAttrsType,
    SchemaError,
>)
    ensures
        bound_result_is(r, value_bound(*field), attr_name@, *field),
{
    match field {
        Some(expr) => get_attr_type_from_expr(attr_name, expr),
        None => Err(invalid_expression(attr_name, None, Expected::LitPathUnary)),
    }
}

/// The integer literal that is the value of the attribute `attr_name`.
pub fn get_lit_int<'a>(attr_name: &str, value: &'a Option<Expr>) -> (r: Result<
    &'a LitInt,
    SchemaError,
>)
    ensures
        match *value {
            Some(Expr::Lit(Lit::Int(lit))) => r matches Ok(l) && *l == lit,
            Some(Expr::Lit(_)) => r matches Err(e) && e@ == invalid_value(
                attr_name@,
                *value,
                Expected::Int,
            ),
            _ => r matches Err(e) && e@ == invalid_value(attr_name@, *value, Expected::Lit),
        },
{
    match value {
        Some(Expr::Lit(Lit::Int(lit))) => Ok(lit),
        Some(Expr::Lit(_)) => Err(invalid_expression(attr_name, value.as_ref(), Expected::Int)),
        _ => Err(invalid_expression(attr_name, value.as_ref(), Expected::Lit)),
    }
}

/// The string literal that is the value of the attribute `attr_name`.
pub fn get_lit_str<'a>(attr_name: &str, value: &'a Option<Expr>) -> (r: Result<
    &'a LitStr,
    SchemaError,
>)
    ensures
        match *value {
            Some(Expr::Lit(Lit::Str(lit))) => r matches Ok(l) && *l == lit,
            Some(Expr::Lit(_)) => r matches Err(e) && e@ == invalid_value(
                attr_name@,
                *value,
                Expected::Str,
            ),
            _ => r matches Err(e) && e@ == invalid_value(attr_name@, *value, Expected::Lit),
        },
{
    match value {
        Some(Expr::Lit(Lit::Str(lit))) => Ok(lit),
        Some(Expr::Lit(_)) => Err(invalid_expression(attr_name, value.as_ref(), Expected::Str)),
        _ => Err(invalid_expression(attr_name, value.as_ref(), Expected::Lit)),
    }
}

/// The value and the name of one entry of an attribute. The name is the
/// entry's key as text: the single name that it is, as a rule.
pub fn parse_attributes_data(meta: ParseNestedMeta) -> (r: (Option<Expr>, String))
    ensures
        r.0 == meta.value,
        r.1@ == path_text(meta.path),
{
    let attr_name = meta.path.to_text();
    (meta.value, attr_name)
}

/// Whether the attribute is named `name`.
pub open spec fn attr_is_named(attr: Attribute, name: Seq<char>) -> bool {
    attr.meta.spec_path().ident() == Some(name)
}

/// The content of the first attribute named `name`.
pub open spec fn first_attr(attrs: Seq<Attribute>, name: Seq<char>) -> Option<Meta>
    decreases attrs.len(),
{
    if attrs.len() == 0 {
        None
    } else if attr_is_named(attrs[0], name) {
        Some(attrs[0].meta)
    } else {
        first_attr(attrs.drop_first(), name)
    }
}

/// Whether the entry is a name-value pair named `name`.
pub open spec fn is_name_value(entry: Meta, name: Seq<char>) -> bool {
    entry matches Meta::NameValue(pair) && pair.path.ident() == Some(name)
}

/// The first name-value pair named `name` among the entries.
pub open spec fn first_name_value(nested: Seq<Meta>, name: Seq<char>) -> Option<MetaNameValue>
    decreases nested.len(),
{
    if nested.len() == 0 {
        None
    } else if is_name_value(nested[0], name) {
        Some(nested[0]->NameValue_0)
    } else {
        first_name_value(nested.drop_first(), name)
    }
}

/// The first name-value pair named `name` inside a list attribute.
pub open spec fn meta_name_value(meta: Meta, name: Seq<char>) -> Option<MetaNameValue> {
    match meta {
        Meta::List(list) => first_name_value(list.nested@, name),
        _ => None,
    }
}

/// The content of the first attribute named `name`.
pub fn find_attr<'a>(attrs: &'a [Attribute], name: &str) -> (r: Option<&'a Meta>)
    ensures
        r matches Some(meta) ==> first_attr(attrs@, name@) == Some(*meta),
        r is None ==> first_attr(attrs@, name@) is None,
{
    let n = attrs.len();
    let mut i: usize = 0;
    assert(attrs@.skip(0) =~= attrs@);
    while i < n
        invariant
            n == attrs@.len(),
            i <= n,
            first_attr(attrs@, name@) == first_attr(attrs@.skip(i as int), name@),
        decreases n - i,
    {
        proof {
            assert(attrs@.skip(i as int).drop_first() =~= attrs@.skip(i + 1));
        }
        if attrs[i].meta.path().is_ident(name) {
            return Some(&attrs[i].meta);
        }
        i = i + 1;
    }
    None
}

/// The first name-value pair named `attr_name` among the entries of a list.
pub fn find_name_value_from_meta_list<'a>(meta_list: &'a MetaList, attr_name: &str) -> (r: Option<
    &'a MetaNameValue,
>)
    ensures
        r matches Some(pair) ==> first_name_value(meta_list.nested@, attr_name@) == Some(*pair),
        r is None ==> first_name_value(meta_list.nested@, attr_name@) is None,
{
    let n = meta_list.nested.len();
    let mut i: usize = 0;
    assert(meta_list.nested@.skip(0) =~= meta_list.nested@);
    while i < n
        invariant
            n == meta_list.nested@.len(),
            i <= n,
            first_name_value(meta_list.nested@, attr_name@) == first_name_value(
                meta_list.nested@.skip(i as int),
                attr_name@,
            ),
        decreases n - i,
    {
        proof {
            assert(meta_list.nested@.skip(i as int).drop_first() =~= meta_list.nested@.skip(i + 1));
        }
        if let Meta::NameValue(pair) = &meta_list.nested[i] {
            if pair.path.is_ident(attr_name) {
                return Some(pair);
            }
        }
        i = i + 1;
    }
    None
}

/// The first name-value pair named `attr_name` inside a list attribute;
/// none where the attribute is no list.
pub fn find_name_value_from_meta<'a>(meta: &'a Meta, attr_name: &str) -> (r: Option<
    &'a MetaNameValue,
>)
    ensures
        r matches Some(pair) ==> meta_name_value(*meta, attr_name@) == Some(*pair),
        r is None ==> meta_name_value(*meta, attr_name@) is None,
{
    if let Meta::List(list) = meta {
        return find_name_value_from_meta_list(list, attr_name);
    }
    None
}

/// The string literal that the first pair named `attr_name` holds.
pub fn find_string_name_value<'a>(meta: &'a Meta, attr_name: &str) -> (r: Option<&'a LitStr>)
    ensures
        match meta_name_value(*meta, attr_name@) {
            Some(MetaNameValue { value: Expr::Lit(Lit::Str(lit)), .. }) => r matches Some(l) && *l
                == lit,
            _ => r is None,
        },
{
    match find_name_value_from_meta(meta, attr_name) {
        Some(pair) => match &pair.value {
            Expr::Lit(Lit::Str(lit)) => Some(lit),
            _ => None,
        },
        None => None,
    }
}

/// The number that the first pair named `attr_name` holds as an integer
/// literal, if it fits sixty-four bits.
pub fn find_int_name_value(meta: &Meta, attr_name: &str) -> (r: Option<u64>)
    ensures
        match meta_name_value(*meta, attr_name@) {
            Some(MetaNameValue { value: Expr::Lit(Lit::Int(lit)), .. }) => match r {
                Some(v) => unsigned_decimal(lit.digits@, u64::MAX as nat) == Some(v as nat),
                None => unsigned_decimal(lit.digits@, u64::MAX as nat) is None,
            },
            _ => r is None,
        },
{
    match find_name_value_from_meta(meta, attr_name) {
        Some(pair) => match &pair.value {
            Expr::Lit(Lit::Int(lit)) => parse_unsigned(lit.digits.as_str(), u64::MAX),
            _ => None,
        },
        None => None,
    }
}

} // verus!
