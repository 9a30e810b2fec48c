//! The errors of schema definition and of encoding and decoding.

use vstd::prelude::*;

verus! {

/// What the value of an attribute was expected to be.
#[derive(Clone, Copy, PartialEq, Eq, Debug, Structural)]
pub enum Expected {
    /// A string literal or an integer literal.
    StrOrInt,
    /// An integer literal that fits sixteen bits.
    ValidInt,
    /// A name that can stand as an identifier.
    Identifier,
    /// A path of one bare name.
    ValidPath,
    /// A literal, a path or a negated literal.
    LitPathUnary,
    /// An integer literal.
    Int,
    /// A string literal.
    Str,
    /// A literal of any kind.
    Lit,
    /// A list of entries between parentheses.
    List,
    /// A key that stands alone, without a value.
    Flag,
}

/// A fault in a schema, found when the schema is defined or when its bounds
/// are first resolved.
#[derive(Debug)]
pub enum SchemaError {
    /// The value of an attribute is none of the accepted forms.
    InvalidBoundExpression {
        /// The attribute's name.
        attribute: String,
        /// The offending expression, as text.
        expression: String,
        /// What was expected in its place.
        expected: Expected,
    },
    /// An attribute is given twice.
    DuplicateAttribute {
        /// The attribute's name.
        attribute: String,
    },
    /// The maximum version is less than the minimum version.
    InvalidMinMaxOrdering {
        /// The field's name, if it has one.
        field: Option<String>,
        /// The minimum version.
        min: i16,
        /// The maximum version.
        max: i16,
    },
    /// The minimum version is negative, and there is no maximum version.
    NegativeMinVersion {
        /// The field's name, if it has one.
        field: Option<String>,
        /// The minimum version.
        min: i16,
    },
    /// A field that must have a name has none.
    MissingFieldName,
}

/// The view of an optional name.
pub open spec fn name_view(name: Option<String>) -> Option<Seq<char>> {
    match name {
        Some(s) => Some(s@),
        None => None,
    }
}

/// The view of an optional borrowed name.
pub open spec fn str_view(name: Option<&str>) -> Option<Seq<char>> {
    match name {
        Some(s) => Some(s@),
        None => None,
    }
}

/// An owned copy of an optional name.
pub fn own_name(name: Option<&str>) -> (r: Option<String>)
    ensures
        name_view(r) == str_view(name),
{
    match name {
        Some(s) => Some(s.to_owned()),
        None => None,
    }
}

/// What a `SchemaError` says, with its texts as sequences of characters.
pub enum SchemaFault {
    /// The value of an attribute is none of the accepted forms.
    InvalidBoundExpression { attribute: Seq<char>, expression: Seq<char>, expected: Expected },
    /// An attribute is given twice.
    DuplicateAttribute { attribute: Seq<char> },
    /// The maximum version is less than the minimum version.
    InvalidMinMaxOrdering { field: Option<Seq<char>>, min: i16, max: i16 },
    /// The minimum version is negative, and there is no maximum version.
    NegativeMinVersion { field: Option<Seq<char>>, min: i16 },
    /// A field that must have a name has none.
    MissingFieldName,
}

impl View for SchemaError {
    type V = SchemaFault;

    open spec fn view(&self) -> SchemaFault {
        match *self {
            SchemaError::InvalidBoundExpression { attribute, expression, expected } => {
                SchemaFault::InvalidBoundExpression {
                    attribute: attribute@,
                    expression: expression@,
                    expected,
                }
            },
            SchemaError::DuplicateAttribute { attribute } => SchemaFault::DuplicateAttribute {
                attribute: attribute@,
            },
            SchemaError::InvalidMinMaxOrdering { field, min, max } => {
                SchemaFault::InvalidMinMaxOrdering { field: name_view(field), min, max }
            },
            SchemaError::NegativeMinVersion { field, min } => SchemaFault::NegativeMinVersion {
                field: name_view(field),
                min,
            },
            SchemaError::MissingFieldName => SchemaFault::MissingFieldName,
        }
    }
}

/// A failure of encoding or decoding. It ends the call: nothing that was
/// read or written up to it is handed out.
#[derive(Debug)]
pub enum CodecError {
    /// The bytes end before a field that is on the wire does.
    UnexpectedEof {
        /// The field's name, if it has one.
        field: Option<String>,
    },
    /// A bound names a constant or a function that is not known.
    UnresolvedBound {
        /// The field's name, if it has one.
        field: Option<String>,
        /// The name that could not be resolved.
        bound: String,
    },
    /// A value, a default or the bytes are not of the field's type; or the
    /// type has no rule, or names a structure that the table of symbols
    /// does not hold.
    TypeMismatch {
        /// The field's name, if it has one.
        field: Option<String>,
    },
    /// The bounds of a field, once they are resolved, are out of order:
    /// the check that was put off when the schema was made has failed.
    InvalidBounds(SchemaError),
}

/// What a `CodecError` says, with its texts as sequences of characters.
pub enum CodecFault {
    /// The bytes end before a field that is on the wire does.
    UnexpectedEof { field: Option<Seq<char>> },
    /// A bound names a constant or a function that is not known.
    UnresolvedBound { field: Option<Seq<char>>, bound: Seq<char> },
    /// A value, a default or the bytes are not of the field's type; or the
    /// type has no rule, or names a structure that the table of symbols
    /// does not hold.
    TypeMismatch { field: Option<Seq<char>> },
    /// The bounds of a field, once they are resolved, are out of order.
    InvalidBounds(SchemaFault),
}

impl View for CodecError {
    type V = CodecFault;

    open spec fn view(&self) -> CodecFault {
        match *self {
            CodecError::UnexpectedEof { field } => CodecFault::UnexpectedEof {
                field: name_view(field),
            },
            CodecError::UnresolvedBound { field, bound } => CodecFault::UnresolvedBound {
                field: name_view(field),
                bound: bound@,
            },
            CodecError::TypeMismatch { field } => CodecFault::TypeMismatch {
                field: name_view(field),
            },
            CodecError::InvalidBounds(fault) => CodecFault::InvalidBounds(fault@),
        }
    }
}

/// A copy of an optional name.
pub fn clone_name(name: &Option<String>) -> (r: Option<String>)
    ensures
        r == *name,
{
    match name {
        Some(s) => Some(s.clone()),
        None => None,
    }
}

} // verus!
