//! What the errors and the records of skipped fields say, as text.

use crate::codec::{SkipEvent, SkipEventView};
use crate::decimal::{format_signed, signed_text};
use crate::error::{CodecError, CodecFault, Expected, SchemaError, SchemaFault};
use crate::prop::{
    assertion_message, assertion_text, holds_text, lemma_assertion_message_holds,
};
use vstd::prelude::*;
use vstd::string::*;

verus! {

/// How the message on an attribute's value begins, up to the attribute's name.
pub open spec fn expected_head(expected: Expected) -> Seq<char> {
    match expected {
        Expected::ValidPath => "Attribute "@,
        _ => "Expected "@,
    }
}

/// How the message on an attribute's value goes on behind the attribute's name.
pub open spec fn expected_tail(expected: Expected) -> Seq<char> {
    match expected {
        Expected::StrOrInt => " attribute to be a LitStr or LitInt: `"@,
        Expected::ValidInt => " to be valid Int: `"@,
        Expected::Identifier => " attribute to name a constant or a function: `"@,
        Expected::ValidPath => " needs to be a valid Path: `"@,
        Expected::LitPathUnary => " attribute to be a Lit/Path/Unary: `"@,
        Expected::Int => " attribute to be an int: `"@,
        Expected::Str => " attribute to be a string: `"@,
        Expected::Lit => " attribute to be a Lit: `"@,
        Expected::List => " attribute to be a list: `"@,
        Expected::Flag => " attribute to stand alone: `"@,
    }
}

/// What a fault in a schema says. The message on an attribute's value
/// names the attribute and the expression; the messages on bounds name the
/// field, where it has a name, and the bounds.
pub open spec fn schema_message(fault: SchemaFault) -> Seq<char> {
    match fault {
        SchemaFault::InvalidBoundExpression { attribute, expression, expected } => expected_head(
            expected,
        ) + attribute + expected_tail(expected) + attribute + " = \"...\"`, found `"@ + expression
            + "`"@,
        SchemaFault::DuplicateAttribute { attribute } => "fluvio attribute already specified: "@
            + attribute,
        SchemaFault::InvalidMinMaxOrdering { field, min, max } => assertion_message(
            field,
            signed_text(min as int),
            Some(signed_text(max as int)),
        ),
        SchemaFault::NegativeMinVersion { field, min } => assertion_message(
            field,
            signed_text(min as int),
            None,
        ),
        SchemaFault::MissingFieldName => "Named field must have an `ident`."@,
    }
}

/// The message on bounds that are out of order holds both numbers, and
/// the message on a negative minimum holds the minimum; each holds the
/// field's name, where the field has one.
pub proof fn lemma_schema_message_holds_bounds(fault: SchemaFault)
    ensures
        fault matches SchemaFault::InvalidMinMaxOrdering { field, min, max } ==> holds_text(
            schema_message(fault),
            signed_text(min as int),
        ) && holds_text(schema_message(fault), signed_text(max as int)) && (field matches Some(
            name,
        ) ==> holds_text(schema_message(fault), name)),
        fault matches SchemaFault::NegativeMinVersion { field, min } ==> holds_text(
            schema_message(fault),
            signed_text(min as int),
        ) && (field matches Some(name) ==> holds_text(schema_message(fault), name)),
{
    match fault {
        SchemaFault::InvalidMinMaxOrdering { field, min, max } => {
            lemma_assertion_message_holds(
                field,
                signed_text(min as int),
                Some(signed_text(max as int)),
            );
        },
        SchemaFault::NegativeMinVersion { field, min } => {
            lemma_assertion_message_holds(field, signed_text(min as int), None);
        },
        _ => {},
    }
}

/// A field as a message names it.
pub open spec fn field_label(field: Option<Seq<char>>) -> Seq<char> {
    match field {
        Some(name) => "field: <"@ + name + ">"@,
        None => "field of tuple struct"@,
    }
}

/// What a failure of encoding or decoding says; it names the field.
pub open spec fn codec_message(fault: CodecFault) -> Seq<char> {
    match fault {
        CodecFault::UnexpectedEof { field } => "Not enough bytes for "@ + field_label(field),
        CodecFault::UnresolvedBound { field, bound } => "Unresolved version bound `"@ + bound
            + "` of "@ + field_label(field),
        CodecFault::TypeMismatch { field } => "Type mismatch in "@ + field_label(field),
        CodecFault::InvalidBounds(fault) => schema_message(fault),
    }
}

/// What the record of a skipped field says: the field, where it has a
/// name, the version, and the bounds that exclude it.
pub open spec fn skip_message(event: SkipEventView) -> Seq<char> {
    let head = match event.field {
        Some(name) => "Field: <"@ + name + "> is skipped because version: "@,
        None => "Field from tuple struct: is skipped because version: "@,
    };
    match event.max {
        Some(max) => head + signed_text(event.version as int) + " is outside min: "@
            + signed_text(event.min as int) + ", max: "@ + signed_text(max as int),
        None => head + signed_text(event.version as int) + " is less than min: "@ + signed_text(
            event.min as int,
        ),
    }
}

/// How the message on an attribute's value begins.
fn expected_head_text(expected: Expected) -> (r: &'static str)
    ensures
        r@ == expected_head(expected),
{
    match expected {
        Expected::ValidPath => "Attribute ",
        _ => "Expected ",
    }
}

/// How the message on an attribute's value goes on.
fn expected_tail_text(expected: Expected) -> (r: &'static str)
    ensures
        r@ == expected_tail(expected),
{
    match expected {
        Expected::StrOrInt => " attribute to be a LitStr or LitInt: `",
        Expected::ValidInt => " to be valid Int: `",
        Expected::Identifier => " attribute to name a constant or a function: `",
        Expected::ValidPath => " needs to be a valid Path: `",
        Expected::LitPathUnary => " attribute to be a Lit/Path/Unary: `",
        Expected::Int => " attribute to be an int: `",
        Expected::Str => " attribute to be a string: `",
        Expected::Lit => " attribute to be a Lit: `",
        Expected::List => " attribute to be a list: `",
        Expected::Flag => " attribute to stand alone: `",
    }
}

/// The name of a field behind a borrow.
fn name_of(field: &Option<String>) -> (r: Option<&str>)
    ensures
        crate::error::str_view(r) == crate::error::name_view(*field),
{
    match field {
        Some(name) => Some(name.as_str()),
        None => None,
    }
}

/// Appends a number in base ten.
fn append_number(out: &mut String, value: i16)
    ensures
        final(out)@ == old(out)@ + signed_text(value as int),
{
    let digits = format_signed(value as i64);
    out.append(digits.as_str());
}

/// A field as a message names it.
fn field_label_text(field: &Option<String>) -> (r: String)
    ensures
        r@ == field_label(crate::error::name_view(*field)),
{
    match field {
        Some(name) => {
            let mut out = String::from_str("field: <");
            out.append(name.as_str());
            out.append(">");
            out
        },
        None => String::from_str("field of tuple struct"),
    }
}

impl SchemaError {
    /// What the fault says.
    pub fn message(&self) -> (r: String)
        ensures
            r@ == schema_message(self@),
    {
        match self {
            SchemaError::InvalidBoundExpression { attribute, expression, expected } => {
                let mut out = String::from_str(expected_head_text(*expected));
                out.append(attribute.as_str());
                out.append(expected_tail_text(*expected));
                out.append(attribute.as_str());
                out.append(" = \"...\"`, found `");
                out.append(expression.as_str());
                out.append("`");
                out
            },
            SchemaError::DuplicateAttribute { attribute } => {
                let mut out = String::from_str("fluvio attribute already specified: ");
                out.append(attribute.as_str());
                out
            },
            SchemaError::InvalidMinMaxOrdering { field, min, max } => {
                let low = format_signed(*min as i64);
                let high = format_signed(*max as i64);
                assertion_text(name_of(field), low.as_str(), Some(high.as_str()))
            },
            SchemaError::NegativeMinVersion { field, min } => {
                let low = format_signed(*min as i64);
                assertion_text(name_of(field), low.as_str(), None)
            },
            SchemaError::MissingFieldName => String::from_str("Named field must have an `ident`."),
        }
    }
}

impl CodecError {
    /// What the failure says.
    pub fn message(&self) -> (r: String)
        ensures
            r@ == codec_message(self@),
    {
        match self {
            CodecError::UnexpectedEof { field } => {
                let mut out = String::from_str("Not enough bytes for ");
                let label = field_label_text(field);
                out.append(label.as_str());
                out
            },
            CodecError::UnresolvedBound { field, bound } => {
                let mut out = String::from_str("Unresolved version bound `");
                out.append(bound.as_str());
                out.append("` of ");
                let label = field_label_text(field);
                out.append(label.as_str());
                out
            },
            CodecError::TypeMismatch { field } => {
                let mut out = String::from_str("Type mismatch in ");
                let label = field_label_text(field);
                out.append(label.as_str());
                out
            },
            CodecError::InvalidBounds(fault) => fault.message(),
        }
    }
}

impl SkipEvent {
    /// What the record says.
    pub fn message(&self) -> (r: String)
        ensures
            r@ == skip_message(self@),
    {
        let mut out = match &self.field {
            Some(name) => {
                let mut head = String::from_str("Field: <");
                head.append(name.as_str());
                head.append("> is skipped because version: ");
                head
            },
            None => String::from_str("Field from tuple struct: is skipped because version: "),
        };
        append_number(&mut out, self.version);
        match self.max {
            Some(max) => {
                out.append(" is outside min: ");
                append_number(&mut out, self.min);
                out.append(", max: ");
                append_number(&mut out, max);
            },
            None => {
                out.append(" is less than min: ");
                append_number(&mut out, self.min);
            },
        }
        out
    }
}

} // verus!
