//! The types that a field may have, and the values of those types.

use crate::decimal::{bounded_decimal, parse_signed};
use crate::text::str_eq;
use vstd::prelude::*;

verus! {

/// The type of a single value on the wire.
#[derive(Clone, Copy, PartialEq, Eq, Debug, Structural)]
pub enum ScalarType {
    /// A truth value, one byte.
    Bool,
    /// A signed integer of eight bits.
    Int8,
    /// A signed integer of sixteen bits.
    Int16,
    /// A signed integer of thirty-two bits.
    Int32,
    /// A signed integer of sixty-four bits.
    Int64,
    /// A piece of text, its length in front of it.
    Text,
}

/// The type of a field.
#[derive(Debug)]
pub enum FieldType {
    /// A single value.
    Scalar(ScalarType),
    /// A run of values of one type, their count in front of them.
    Array(ScalarType),
    /// A structure inside the structure: the fields of the structure that
    /// the table of symbols holds under this number.
    Struct(usize),
    /// A run of such structures, their count in front of them.
    StructArray(usize),
    /// A type that has no rule here, by its name. A field of such a type
    /// can be left out, and then has the value `Zero`; it cannot be
    /// written or read.
    Other(String),
}

/// A single value.
#[derive(Debug)]
pub enum Scalar {
    Bool(bool),
    Int8(i8),
    Int16(i16),
    Int32(i32),
    Int64(i64),
    Text(String),
}

/// A single value, its text as a sequence of characters.
pub enum ScalarView {
    Bool(bool),
    Int8(i8),
    Int16(i16),
    Int32(i32),
    Int64(i64),
    Text(Seq<char>),
}

/// The value of a field.
#[derive(Debug)]
pub enum Value {
    /// A single value.
    Scalar(Scalar),
    /// A run of values.
    Array(Vec<Scalar>),
    /// The values of the fields of a structure, in the order of its schema.
    Struct(Vec<Value>),
    /// A run of structures, each by the values of its fields.
    StructArray(Vec<Vec<Value>>),
    /// The zero value of a type that has no rule here: what a field of such
    /// a type takes where it is not on the wire.
    Zero,
}

/// The value of a field, as mathematics sees it.
pub enum ValueView {
    /// A single value.
    Scalar(ScalarView),
    /// A run of values.
    Array(Seq<ScalarView>),
    /// The values of the fields of a structure, in the order of its schema.
    Struct(Seq<ValueView>),
    /// A run of structures, each by the values of its fields.
    StructArray(Seq<Seq<ValueView>>),
    /// The zero value of a type that has no rule here.
    Zero,
}

impl View for Scalar {
    type V = ScalarView;

    open spec fn view(&self) -> ScalarView {
        match *self {
            Scalar::Bool(b) => ScalarView::Bool(b),
            Scalar::Int8(v) => ScalarView::Int8(v),
            Scalar::Int16(v) => ScalarView::Int16(v),
            Scalar::Int32(v) => ScalarView::Int32(v),
            Scalar::Int64(v) => ScalarView::Int64(v),
            Scalar::Text(s) => ScalarView::Text(s@),
        }
    }
}

/// The views of a run of values.
pub open spec fn scalar_views(items: Seq<Scalar>) -> Seq<ScalarView> {
    Seq::new(items.len(), |i: int| items[i]@)
}

/// The value of a field, as mathematics sees it.
pub open spec fn value_view(v: Value) -> ValueView
    decreases v,
{
    match v {
        Value::Scalar(s) => ValueView::Scalar(s@),
        Value::Array(items) => ValueView::Array(scalar_views(items@)),
        Value::Struct(values) => ValueView::Struct(values_view(values@)),
        Value::StructArray(rows) => ValueView::StructArray(rows_view(rows@)),
        Value::Zero => ValueView::Zero,
    }
}

/// The values of a structure, as mathematics sees them.
pub open spec fn values_view(values: Seq<Value>) -> Seq<ValueView>
    decreases values,
{
    if values.len() == 0 {
        Seq::empty()
    } else {
        values_view(values.drop_last()).push(value_view(values.last()))
    }
}

/// A run of structures, as mathematics sees it.
pub open spec fn rows_view(rows: Seq<Vec<Value>>) -> Seq<Seq<ValueView>>
    decreases rows,
{
    if rows.len() == 0 {
        Seq::empty()
    } else {
        rows_view(rows.drop_last()).push(values_view(rows.last()@))
    }
}

impl View for Value {
    type V = ValueView;

    open spec fn view(&self) -> ValueView {
        value_view(*self)
    }
}

/// The views of a record's values.
pub open spec fn value_views(values: Seq<Value>) -> Seq<ValueView> {
    Seq::new(values.len(), |i: int| values[i]@)
}

/// The views of the records of a run.
pub open spec fn row_views(rows: Seq<Vec<Value>>) -> Seq<Seq<ValueView>> {
    Seq::new(rows.len(), |i: int| value_views(rows[i]@))
}

/// The values of a structure are seen one by one.
pub proof fn lemma_values_view(values: Seq<Value>)
    ensures
        values_view(values) == value_views(values),
    decreases values.len(),
{
    if values.len() > 0 {
        lemma_values_view(values.drop_last());
    }
    assert(values_view(values) =~= value_views(values));
}

/// The structures of a run are seen one by one.
pub proof fn lemma_rows_view(rows: Seq<Vec<Value>>)
    ensures
        rows_view(rows) == row_views(rows),
    decreases rows.len(),
{
    if rows.len() > 0 {
        lemma_rows_view(rows.drop_last());
        lemma_values_view(rows.last()@);
    }
    assert(rows_view(rows) =~= row_views(rows));
}

impl ScalarView {
    /// The type of the value.
    pub open spec fn scalar_type(self) -> ScalarType {
        match self {
            ScalarView::Bool(_) => ScalarType::Bool,
            ScalarView::Int8(_) => ScalarType::Int8,
            ScalarView::Int16(_) => ScalarType::Int16,
            ScalarView::Int32(_) => ScalarType::Int32,
            ScalarView::Int64(_) => ScalarType::Int64,
            ScalarView::Text(_) => ScalarType::Text,
        }
    }
}

impl ValueView {
    /// Whether the value is a single value, or a run of them, of the type
    /// `ty`, or the zero value of a type without a rule. Whether the values
    /// of a structure are those of its fields depends on the table of
    /// symbols, and is judged field by field where the structure is
    /// written.
    pub open spec fn has_type(self, ty: FieldType) -> bool {
        match (self, ty) {
            (ValueView::Scalar(s), FieldType::Scalar(t)) => s.scalar_type() == t,
            (ValueView::Array(items), FieldType::Array(t)) => forall|i: int|
                0 <= i < items.len() ==> (#[trigger] items[i]).scalar_type() == t,
            (ValueView::Zero, FieldType::Other(_)) => true,
            _ => false,
        }
    }
}

impl ScalarType {
    /// The value that a field of this type has where nothing else is said:
    /// false, zero, or the empty text.
    pub open spec fn zero(self) -> ScalarView {
        match self {
            ScalarType::Bool => ScalarView::Bool(false),
            ScalarType::Int8 => ScalarView::Int8(0),
            ScalarType::Int16 => ScalarView::Int16(0),
            ScalarType::Int32 => ScalarView::Int32(0),
            ScalarType::Int64 => ScalarView::Int64(0),
            ScalarType::Text => ScalarView::Text(Seq::empty()),
        }
    }

    /// The value of this type that the text of a default stands for: `true`
    /// or `false`, a decimal number within the type's range, or the text
    /// itself.
    pub open spec fn parse(self, text: Seq<char>) -> Option<ScalarView> {
        match self {
            ScalarType::Bool => if text == "true"@ {
                Some(ScalarView::Bool(true))
            } else if text == "false"@ {
                Some(ScalarView::Bool(false))
            } else {
                None
            },
            ScalarType::Int8 => match bounded_decimal(text, i8::MIN as int, i8::MAX as int) {
                Some(v) => Some(ScalarView::Int8(v as i8)),
                None => None,
            },
            ScalarType::Int16 => match bounded_decimal(text, i16::MIN as int, i16::MAX as int) {
                Some(v) => Some(ScalarView::Int16(v as i16)),
                None => None,
            },
            ScalarType::Int32 => match bounded_decimal(text, i32::MIN as int, i32::MAX as int) {
                Some(v) => Some(ScalarView::Int32(v as i32)),
                None => None,
            },
            ScalarType::Int64 => match bounded_decimal(text, i64::MIN as int, i64::MAX as int) {
                Some(v) => Some(ScalarView::Int64(v as i64)),
                None => None,
            },
            ScalarType::Text => Some(ScalarView::Text(text)),
        }
    }

    /// The zero value of this type.
    pub fn zero_value(self) -> (r: Scalar)
        ensures
            r@ == self.zero(),
    {
        match self {
            ScalarType::Bool => Scalar::Bool(false),
            ScalarType::Int8 => Scalar::Int8(0),
            ScalarType::Int16 => Scalar::Int16(0),
            ScalarType::Int32 => Scalar::Int32(0),
            ScalarType::Int64 => Scalar::Int64(0),
            ScalarType::Text => Scalar::Text(String::new()),
        }
    }

    /// Reads the text of a default as a value of this type.
    pub fn parse_value(self, text: &str) -> (r: Option<Scalar>)
        ensures
            r matches Some(v) ==> self.parse(text@) == Some(v@),
            r is None ==> self.parse(text@) is None,
    {
        match self {
            ScalarType::Bool => if str_eq(text, "true") {
                Some(Scalar::Bool(true))
            } else if str_eq(text, "false") {
                Some(Scalar::Bool(false))
            } else {
                None
            },
            ScalarType::Int8 => match parse_signed(text, -128, 127) {
                Some(v) => Some(Scalar::Int8(v as i8)),
                None => None,
            },
            ScalarType::Int16 => match parse_signed(text, -32768, 32767) {
                Some(v) => Some(Scalar::Int16(v as i16)),
                None => None,
            },
            ScalarType::Int32 => match parse_signed(text, -2147483648, 2147483647) {
                Some(v) => Some(Scalar::Int32(v as i32)),
                None => None,
            },
            ScalarType::Int64 => match parse_signed(
                text,
                -9223372036854775808,
                9223372036854775807,
            ) {
                Some(v) => Some(Scalar::Int64(v)),
                None => None,
            },
            ScalarType::Text => Some(Scalar::Text(text.to_owned())),
        }
    }
}

/// The type of a single value that goes by the given name.
pub open spec fn scalar_named(name: Seq<char>) -> Option<ScalarType> {
    if name == "bool"@ {
        Some(ScalarType::Bool)
    } else if name == "i8"@ {
        Some(ScalarType::Int8)
    } else if name == "i16"@ {
        Some(ScalarType::Int16)
    } else if name == "i32"@ {
        Some(ScalarType::Int32)
    } else if name == "i64"@ {
        Some(ScalarType::Int64)
    } else if name == "String"@ {
        Some(ScalarType::Text)
    } else {
        None
    }
}

impl ScalarType {
    /// The type of a single value that goes by the given name.
    pub fn from_name(name: &str) -> (r: Option<ScalarType>)
        ensures
            r == scalar_named(name@),
    {
        if str_eq(name, "bool") {
            Some(ScalarType::Bool)
        } else if str_eq(name, "i8") {
            Some(ScalarType::Int8)
        } else if str_eq(name, "i16") {
            Some(ScalarType::Int16)
        } else if str_eq(name, "i32") {
            Some(ScalarType::Int32)
        } else if str_eq(name, "i64") {
            Some(ScalarType::Int64)
        } else if str_eq(name, "String") {
            Some(ScalarType::Text)
        } else {
            None
        }
    }
}

impl FieldType {
    /// Whether this is the type without a rule that goes by `name`.
    pub open spec fn is_other(self, name: Seq<char>) -> bool {
        self matches FieldType::Other(text) && text@ == name
    }

    /// The type of a field that is declared with the type `name`, or with
    /// `name<item>` where `item` is given.
    pub fn from_names(name: &str, item: Option<&str>) -> (r: FieldType)
        ensures
            match item {
                None => match scalar_named(name@) {
                    Some(t) => r == FieldType::Scalar(t),
                    None => r.is_other(name@),
                },
                Some(inner) => match scalar_named(inner@) {
                    Some(t) => if name@ == "Vec"@ {
                        r == FieldType::Array(t)
                    } else {
                        r.is_other(name@)
                    },
                    None => r.is_other(name@),
                },
            },
    {
        match item {
            None => match ScalarType::from_name(name) {
                Some(t) => FieldType::Scalar(t),
                None => FieldType::Other(name.to_owned()),
            },
            Some(inner) => match ScalarType::from_name(inner) {
                Some(t) => if str_eq(name, "Vec") {
                    FieldType::Array(t)
                } else {
                    FieldType::Other(name.to_owned())
                },
                None => FieldType::Other(name.to_owned()),
            },
        }
    }
}

impl FieldType {
    /// The value that a field of this type has where nothing else is said.
    /// A run is empty then; a type without a rule has the value `Zero`,
    /// which says no more than that. The zero value of a structure depends
    /// on its fields, which the table of symbols holds, and is not given
    /// here.
    pub open spec fn zero(self) -> Option<ValueView> {
        match self {
            FieldType::Scalar(t) => Some(ValueView::Scalar(t.zero())),
            FieldType::Array(_) => Some(ValueView::Array(Seq::empty())),
            FieldType::StructArray(_) => Some(ValueView::StructArray(Seq::empty())),
            FieldType::Struct(_) => None,
            FieldType::Other(_) => Some(ValueView::Zero),
        }
    }

    /// The value of this type that the text of a default stands for; only a
    /// single value can be written as a default.
    pub open spec fn parse(self, text: Seq<char>) -> Option<ValueView> {
        match self {
            FieldType::Scalar(t) => match t.parse(text) {
                Some(v) => Some(ValueView::Scalar(v)),
                None => None,
            },
            _ => None,
        }
    }

    /// The value of a field of this type that is not on the wire: what its
    /// default stands for, or the type's zero value where it has no default.
    pub open spec fn absent(self, default_value: Option<Seq<char>>) -> Option<ValueView> {
        match default_value {
            Some(text) => self.parse(text),
            None => self.zero(),
        }
    }

    /// The value of a field of this type that is not on the wire.
    pub fn absent_value(&self, default_value: &Option<String>) -> (r: Option<Value>)
        ensures
            r matches Some(v) ==> self.absent(crate::error::name_view(*default_value)) == Some(v@),
            r is None ==> self.absent(crate::error::name_view(*default_value)) is None,
    {
        match default_value {
            Some(text) => match self {
                FieldType::Scalar(t) => match t.parse_value(text.as_str()) {
                    Some(v) => Some(Value::Scalar(v)),
                    None => None,
                },
                _ => None,
            },
            None => match self {
                FieldType::Scalar(t) => Some(Value::Scalar(t.zero_value())),
                FieldType::Array(_) => {
                    let items: Vec<Scalar> = Vec::new();
                    assert(scalar_views(items@) =~= Seq::<ScalarView>::empty());
                    Some(Value::Array(items))
                },
                FieldType::StructArray(_) => {
                    let rows: Vec<Vec<Value>> = Vec::new();
                    Some(Value::StructArray(rows))
                },
                FieldType::Struct(_) => None,
                FieldType::Other(_) => Some(Value::Zero),
            },
        }
    }
}

impl Clone for FieldType {
    fn clone(&self) -> (r: FieldType)
        ensures
            r == *self,
    {
        match self {
            FieldType::Scalar(t) => FieldType::Scalar(*t),
            FieldType::Array(t) => FieldType::Array(*t),
            FieldType::Struct(id) => FieldType::Struct(*id),
            FieldType::StructArray(id) => FieldType::StructArray(*id),
            FieldType::Other(name) => FieldType::Other(name.clone()),
        }
    }
}

} // verus!
