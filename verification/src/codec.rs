//! Encoding and decoding gated by the version: a field is on the wire
//! exactly where the version lies within the field's bounds.
//!
//! A field may hold a single value, a run of them, or a structure, or a
//! run of structures, that the table of symbols holds at some place. The
//! fields of the structure at place `p` are met at level `p`: they may
//! hold only structures at places before `p`, so that no structure holds
//! itself. The fields of a structure that is handed in are met at the
//! level of the table's length, and may hold any structure of the table.

use crate::bound::{PropAttrsType, SymbolTable, VersionBound};
use crate::error::{clone_name, name_view, CodecError, CodecFault};
use crate::schema::{FieldSchema, FieldSchemaView, StructureSchema};
use crate::validate::{range_fault, validate_resolved};
use crate::value::{
    lemma_rows_view, lemma_values_view, row_views, scalar_views, value_views, FieldType, Scalar,
    ScalarType, ScalarView, Value, ValueView,
};
use crate::wire::{
    get_int, get_scalar, int_bytes, int_read, lemma_int_round_trip, lemma_pow256_values,
    lemma_scalar_round_trip, put_int, put_scalar, scalar_bytes, scalar_is_writable, scalar_read,
    scalar_writable, WireFault,
};
use vstd::prelude::*;

verus! {

/// The most items that an array, or a run of structures, can be written
/// with.
pub const MAX_ARRAY_LEN: usize = 2147483647;

/// The bytes of a run of values, one after the other.
pub open spec fn items_bytes(items: Seq<ScalarView>, varint: bool) -> Seq<u8>
    decreases items.len(),
{
    if items.len() == 0 {
        Seq::empty()
    } else {
        scalar_bytes(items[0], varint) + items_bytes(items.drop_first(), varint)
    }
}

/// Reads `count` values of type `ty`, one after the other; gives the values
/// and how many bytes were read.
pub open spec fn items_read(ty: ScalarType, varint: bool, bytes: Seq<u8>, count: nat) -> Result<
    (Seq<ScalarView>, nat),
    WireFault,
>
    decreases count,
{
    if count == 0 {
        Ok((Seq::empty(), 0))
    } else {
        match scalar_read(ty, varint, bytes) {
            Ok((first, k)) => match items_read(ty, varint, bytes.skip(k as int), (count - 1) as nat) {
                Ok((rest, m)) => Ok((seq![first] + rest, k + m)),
                Err(fault) => Err(fault),
            },
            Err(fault) => Err(fault),
        }
    }
}

/// Whether a single value, or a run of them, can be written: every text
/// in it is short enough, and an array has no more than `MAX_ARRAY_LEN`
/// items. A structure is no such value: it is written field by field, by
/// the schema that the table of symbols holds.
pub open spec fn value_writable(v: ValueView) -> bool {
    match v {
        ValueView::Scalar(s) => scalar_writable(s),
        ValueView::Array(items) => items.len() <= MAX_ARRAY_LEN && forall|i: int|
            0 <= i < items.len() ==> scalar_writable(#[trigger] items[i]),
        _ => false,
    }
}

/// The bytes of a single value, as it is, and of an array: the count of
/// its items, a signed integer of four bytes, and then the items.
pub open spec fn value_bytes(v: ValueView, varint: bool) -> Seq<u8> {
    match v {
        ValueView::Scalar(s) => scalar_bytes(s, varint),
        ValueView::Array(items) => int_bytes(items.len() as int, 4) + items_bytes(items, varint),
        _ => Seq::empty(),
    }
}

/// Reads a single value, or a run of them, of type `ty`; gives the value
/// and how many bytes were read.
pub open spec fn value_read(ty: FieldType, varint: bool, bytes: Seq<u8>) -> Result<
    (ValueView, nat),
    WireFault,
> {
    match ty {
        FieldType::Scalar(t) => match scalar_read(t, varint, bytes) {
            Ok((v, k)) => Ok((ValueView::Scalar(v), k)),
            Err(fault) => Err(fault),
        },
        FieldType::Array(t) => match int_read(bytes, 4) {
            Ok((count, _)) => if count < 0 {
                Err(WireFault::TypeMismatch)
            } else {
                match items_read(t, varint, bytes.skip(4), count as nat) {
                    Ok((items, k)) => Ok((ValueView::Array(items), 4 + k)),
                    Err(fault) => Err(fault),
                }
            },
            Err(fault) => Err(fault),
        },
        _ => Err(WireFault::TypeMismatch),
    }
}

/// The bytes of a run with one more value at its end.
pub proof fn lemma_items_bytes_push(items: Seq<ScalarView>, last: ScalarView, varint: bool)
    ensures
        items_bytes(items.push(last), varint) == items_bytes(items, varint) + scalar_bytes(
            last,
            varint,
        ),
    decreases items.len(),
{
    let all = items.push(last);
    if items.len() == 0 {
        assert(items_bytes(all.drop_first(), varint) =~= Seq::<u8>::empty());
    } else {
        assert(all.drop_first() =~= items.drop_first().push(last));
        lemma_items_bytes_push(items.drop_first(), last, varint);
    }
}

/// A run of values of one type that can be written is read back from its
/// bytes, whatever follows them.
pub proof fn lemma_items_round_trip(
    ty: ScalarType,
    items: Seq<ScalarView>,
    varint: bool,
    rest: Seq<u8>,
)
    requires
        forall|i: int| 0 <= i < items.len() ==> (#[trigger] items[i]).scalar_type() == ty,
        forall|i: int| 0 <= i < items.len() ==> scalar_writable(#[trigger] items[i]),
    ensures
        items_read(ty, varint, items_bytes(items, varint) + rest, items.len()) == Ok::<
            (Seq<ScalarView>, nat),
            WireFault,
        >((items, items_bytes(items, varint).len())),
    decreases items.len(),
{
    if items.len() == 0 {
        assert(items =~= Seq::<ScalarView>::empty());
    } else {
        let head = scalar_bytes(items[0], varint);
        let tail = items_bytes(items.drop_first(), varint);
        let bytes = items_bytes(items, varint) + rest;
        assert(bytes =~= head + (tail + rest));
        lemma_scalar_round_trip(items[0], varint, tail + rest);
        assert(bytes.skip(head.len() as int) =~= tail + rest);
        lemma_items_round_trip(ty, items.drop_first(), varint, rest);
        assert(seq![items[0]] + items.drop_first() =~= items);
    }
}

/// A value of a type with a rule that can be written is read back from its
/// bytes, whatever follows them; and it takes at least one byte.
pub proof fn lemma_value_round_trip(ty: FieldType, v: ValueView, varint: bool, rest: Seq<u8>)
    requires
        v.has_type(ty),
        value_writable(v),
    ensures
        value_bytes(v, varint).len() >= 1,
        value_read(ty, varint, value_bytes(v, varint) + rest) == Ok::<(ValueView, nat), WireFault>(
            (v, value_bytes(v, varint).len()),
        ),
{
    match v {
        ValueView::Scalar(s) => {
            lemma_scalar_round_trip(s, varint, rest);
        },
        ValueView::Array(items) => {
            let t = ty->Array_0;
            let count = items.len() as int;
            let body = items_bytes(items, varint);
            let bytes = value_bytes(v, varint) + rest;
            lemma_pow256_values();
            lemma_int_round_trip(count, 4, body + rest);
            assert(bytes =~= int_bytes(count, 4) + (body + rest));
            assert(bytes.skip(4) =~= body + rest);
            lemma_items_round_trip(t, items, varint, rest);
        },
        _ => {},
    }
}

/// The type of a single value.
pub fn scalar_type_of(v: &Scalar) -> (r: ScalarType)
    ensures
        r == v@.scalar_type(),
{
    match v {
        Scalar::Bool(_) => ScalarType::Bool,
        Scalar::Int8(_) => ScalarType::Int8,
        Scalar::Int16(_) => ScalarType::Int16,
        Scalar::Int32(_) => ScalarType::Int32,
        Scalar::Int64(_) => ScalarType::Int64,
        Scalar::Text(_) => ScalarType::Text,
    }
}

/// Whether a value is of the type `ty` and can be written.
pub fn value_fits(ty: &FieldType, v: &Value) -> (r: bool)
    ensures
        r == (v@.has_type(*ty) && value_writable(v@)),
{
    match (ty, v) {
        (FieldType::Scalar(t), Value::Scalar(s)) => scalar_type_of(s) == *t && scalar_is_writable(
            s,
        ),
        (FieldType::Array(t), Value::Array(items)) => {
            let n = items.len();
            if n > MAX_ARRAY_LEN {
                return false;
            }
            let mut i: usize = 0;
            while i < n
                invariant
                    n == items@.len(),
                    n <= MAX_ARRAY_LEN,
                    i <= n,
                    *ty == FieldType::Array(*t),
                    *v == Value::Array(*items),
                    forall|j: int|
                        0 <= j < i ==> (#[trigger] scalar_views(items@)[j]).scalar_type() == *t,
                    forall|j: int| 0 <= j < i ==> scalar_writable(#[trigger] scalar_views(items@)[j]),
                decreases n - i,
            {
                if !(scalar_type_of(&items[i]) == *t && scalar_is_writable(&items[i])) {
                    assert(scalar_views(items@)[i as int] == items@[i as int]@);
                    return false;
                }
                i = i + 1;
            }
            true
        },
        _ => false,
    }
}

/// Appends the bytes of a value that is fit to be written.
pub(crate) fn put_value(dest: &mut Vec<u8>, v: &Value, varint: bool)
    requires
        value_writable(v@),
    ensures
        final(dest)@ == old(dest)@ + value_bytes(v@, varint),
{
    match v {
        Value::Scalar(s) => put_scalar(dest, s, varint),
        Value::Array(items) => {
            proof {
                lemma_pow256_values();
            }
            let n = items.len();
            put_int(dest, n as i64, 4);
            let ghost mid = dest@;
            let ghost all = scalar_views(items@);
            let mut i: usize = 0;
            while i < n
                invariant
                    n == items@.len(),
                    i <= n,
                    all == scalar_views(items@),
                    forall|j: int| 0 <= j < all.len() ==> scalar_writable(#[trigger] all[j]),
                    dest@ == mid + items_bytes(all.take(i as int), varint),
                decreases n - i,
            {
                proof {
                    assert(all.take(i + 1) =~= all.take(i as int).push(all[i as int]));
                    lemma_items_bytes_push(all.take(i as int), all[i as int], varint);
                }
                put_scalar(dest, &items[i], varint);
                i = i + 1;
            }
            assert(all.take(n as int) =~= all);
        },
        _ => {},
    }
}

/// What reading more values behind `items` makes of a reading.
spec fn after_items(
    items: Seq<ScalarView>,
    used: nat,
    more: Result<(Seq<ScalarView>, nat), WireFault>,
) -> Result<(Seq<ScalarView>, nat), WireFault> {
    match more {
        Ok((rest, k)) => Ok((items + rest, used + k)),
        Err(fault) => Err(fault),
    }
}

/// Reads a value of type `ty` at `pos`; gives the value and the position
/// behind it.
pub(crate) fn get_value(ty: &FieldType, varint: bool, src: &[u8], pos: usize) -> (r: Result<
    (Value, usize),
    WireFault,
>)
    requires
        pos <= src@.len(),
    ensures
        match value_read(*ty, varint, src@.skip(pos as int)) {
            Ok((v, k)) => r matches Ok((x, p)) && x@ == v && p == pos + k && pos + k <= src@.len()
                && v.has_type(*ty),
            Err(fault) => r == Err::<(Value, usize), WireFault>(fault),
        },
{
    match ty {
        FieldType::Scalar(t) => match get_scalar(*t, varint, src, pos) {
            Ok((s, p)) => Ok((Value::Scalar(s), p)),
            Err(fault) => Err(fault),
        },
        FieldType::Array(t) => {
            proof {
                lemma_pow256_values();
            }
            let (count, start) = match get_int(src, pos, 4) {
                Ok(pair) => pair,
                Err(fault) => {
                    return Err(fault);
                },
            };
            if count < 0 {
                return Err(WireFault::TypeMismatch);
            }
            let count = count as usize;
            let ghost bytes = src@.skip(start as int);
            let ghost goal = items_read(*t, varint, bytes, count as nat);
            assert(src@.skip(pos as int).skip(4) =~= bytes);
            let mut items: Vec<Scalar> = Vec::new();
            let mut at: usize = start;
            let mut i: usize = 0;
            while i < count
                invariant
                    start <= at <= src@.len(),
                    i <= count,
                    bytes == src@.skip(start as int),
                    start == pos + 4,
                    *ty == FieldType::Array(*t),
                    value_read(*ty, varint, src@.skip(pos as int)) == match goal {
                        Ok((found, k)) => Ok::<(ValueView, nat), WireFault>(
                            (ValueView::Array(found), 4 + k),
                        ),
                        Err(fault) => Err(fault),
                    },
                    goal == after_items(
                        scalar_views(items@),
                        (at - start) as nat,
                        items_read(*t, varint, src@.skip(at as int), (count - i) as nat),
                    ),
                    forall|j: int|
                        0 <= j < items@.len() ==> (#[trigger] scalar_views(items@)[j]).scalar_type()
                            == *t,
                decreases count - i,
            {
                let ghost before = scalar_views(items@);
                match get_scalar(*t, varint, src, at) {
                    Ok((s, p)) => {
                        proof {
                            let k = p - at;
                            assert(src@.skip(at as int).skip(k) =~= src@.skip(p as int));
                            let more = items_read(*t, varint, src@.skip(p as int), (count - i - 1) as nat);
                            match more {
                                Ok((rest, m)) => {
                                    assert(before + (seq![s@] + rest) =~= before.push(s@) + rest);
                                },
                                Err(_) => {},
                            }
                        }
                        items.push(s);
                        assert(scalar_views(items@) =~= before.push(s@));
                        at = p;
                    },
                    Err(fault) => {
                        return Err(fault);
                    },
                }
                i = i + 1;
            }
            Ok((Value::Array(items), at))
        },
        _ => Err(WireFault::TypeMismatch),
    }
}

/// Appends the bytes of a value of type `ty`. A value that is not of the
/// type, or cannot be written, is refused, and nothing is appended.
pub fn encode_value(ty: &FieldType, v: &Value, varint: bool, dest: &mut Vec<u8>) -> (r: Result<
    (),
    WireFault,
>)
    ensures
        v@.has_type(*ty) && value_writable(v@) ==> r is Ok && final(dest)@ == old(dest)@
            + value_bytes(v@, varint),
        !(v@.has_type(*ty) && value_writable(v@)) ==> r == Err::<(), WireFault>(
            WireFault::TypeMismatch,
        ) && final(dest)@ == old(dest)@,
{
    if !value_fits(ty, v) {
        return Err(WireFault::TypeMismatch);
    }
    put_value(dest, v, varint);
    Ok(())
}

/// Reads a value of type `ty` from the start of `src`; gives the value
/// and how many bytes were read.
pub fn decode_value(ty: &FieldType, varint: bool, src: &[u8]) -> (r: Result<
    (Value, usize),
    WireFault,
>)
    ensures
        match value_read(*ty, varint, src@) {
            Ok((v, k)) => r matches Ok((x, used)) && x@ == v && used == k && used <= src@.len()
                && v.has_type(*ty),
            Err(fault) => r == Err::<(Value, usize), WireFault>(fault),
        },
{
    assert(src@.skip(0) =~= src@);
    get_value(ty, varint, src, 0)
}

/// Whether `version` lies within the bounds: not below the minimum, and
/// not above the maximum where there is one.
pub open spec fn in_range(version: i16, min: i16, max: Option<i16>) -> bool {
    min <= version && match max {
        Some(hi) => version <= hi,
        None => true,
    }
}

/// The fault of a bound whose name the table does not hold.
pub open spec fn unresolved(field: FieldSchemaView, bound: VersionBound) -> CodecFault {
    CodecFault::UnresolvedBound { field: field.name, bound: bound.name() }
}

/// The numbers that judged bounds stand for, or the fault of their order:
/// with a maximum the minimum may not be above it, without one it may not
/// be negative.
pub open spec fn judged_bounds(field: FieldSchemaView, min: i16, max: Option<i16>) -> Result<
    (i16, Option<i16>),
    CodecFault,
> {
    match range_fault(min, max, field.name) {
        Some(fault) => Err(CodecFault::InvalidBounds(fault)),
        None => Ok((min, max)),
    }
}

/// The numbers that the bounds of a field stand for. The minimum is
/// resolved first, then the maximum; then the two numbers are judged, so
/// that bounds which were names when the schema was made do not escape
/// the rules of their order.
pub open spec fn resolved_bounds(field: FieldSchemaView, symbols: SymbolTable) -> Result<
    (i16, Option<i16>),
    CodecFault,
> {
    match symbols.resolve(field.min_version) {
        Some(min) => match field.max_version {
            Some(bound) => match symbols.resolve(bound) {
                Some(max) => judged_bounds(field, min, Some(max)),
                None => Err(unresolved(field, bound)),
            },
            None => judged_bounds(field, min, None),
        },
        None => Err(unresolved(field, field.min_version)),
    }
}

/// Whether a field is on the wire at `version`.
pub open spec fn presence(field: FieldSchemaView, symbols: SymbolTable, version: i16) -> Result<
    bool,
    CodecFault,
> {
    match resolved_bounds(field, symbols) {
        Ok((min, max)) => Ok(in_range(version, min, max)),
        Err(fault) => Err(fault),
    }
}

/// The failure of a field's value, with the field's name.
pub open spec fn field_fault(fault: WireFault, field: FieldSchemaView) -> CodecFault {
    match fault {
        WireFault::UnexpectedEof => CodecFault::UnexpectedEof { field: field.name },
        WireFault::TypeMismatch => CodecFault::TypeMismatch { field: field.name },
    }
}

/// The bytes of a field that is met below `level`, at `version`: none
/// where the field is not on the wire, else the bytes of its value, which
/// must be of the field's type. A structure has the bytes of its own
/// fields, each only where it is on the wire at `version`; a run of
/// structures has their count in front, a signed integer of four bytes.
/// The structure must be one that the table holds, before `level`.
pub open spec fn field_bytes_at(
    level: nat,
    field: FieldSchemaView,
    symbols: SymbolTable,
    version: i16,
    value: ValueView,
) -> Result<Seq<u8>, CodecFault>
    decreases level, 0nat, 0nat,
{
    match presence(field, symbols, version) {
        Ok(true) => match (field.ty, value) {
            (FieldType::Struct(id), ValueView::Struct(values)) => if symbols.holds(id, level) {
                struct_bytes_at(id as nat, symbols.structure(id), symbols, version, values)
            } else {
                Err(CodecFault::TypeMismatch { field: field.name })
            },
            (FieldType::StructArray(id), ValueView::StructArray(rows)) => if symbols.holds(
                id,
                level,
            ) && rows.len() <= MAX_ARRAY_LEN {
                match rows_bytes_at(id as nat, symbols.structure(id), symbols, version, rows) {
                    Ok(body) => Ok(int_bytes(rows.len() as int, 4) + body),
                    Err(fault) => Err(fault),
                }
            } else {
                Err(CodecFault::TypeMismatch { field: field.name })
            },
            _ => if value.has_type(field.ty) && value_writable(value) {
                Ok(value_bytes(value, field.varint))
            } else {
                Err(CodecFault::TypeMismatch { field: field.name })
            },
        },
        Ok(false) => Ok(Seq::empty()),
        Err(fault) => Err(fault),
    }
}

/// The bytes of a structure that is met at `level`, at `version`: those of
/// its fields, in the order of the schema. There must be one value for
/// each field.
pub open spec fn struct_bytes_at(
    level: nat,
    fields: Seq<FieldSchemaView>,
    symbols: SymbolTable,
    version: i16,
    values: Seq<ValueView>,
) -> Result<Seq<u8>, CodecFault>
    decreases level, 1nat, fields.len(),
{
    if fields.len() != values.len() {
        Err(CodecFault::TypeMismatch { field: None })
    } else if fields.len() == 0 {
        Ok(Seq::empty())
    } else {
        match field_bytes_at(level, fields[0], symbols, version, values[0]) {
            Ok(head) => match struct_bytes_at(
                level,
                fields.drop_first(),
                symbols,
                version,
                values.drop_first(),
            ) {
                Ok(tail) => Ok(head + tail),
                Err(fault) => Err(fault),
            },
            Err(fault) => Err(fault),
        }
    }
}

/// The bytes of a run of structures of one schema, one after the other.
pub open spec fn rows_bytes_at(
    level: nat,
    fields: Seq<FieldSchemaView>,
    symbols: SymbolTable,
    version: i16,
    rows: Seq<Seq<ValueView>>,
) -> Result<Seq<u8>, CodecFault>
    decreases level, 2nat, rows.len(),
{
    if rows.len() == 0 {
        Ok(Seq::empty())
    } else {
        match struct_bytes_at(level, fields, symbols, version, rows[0]) {
            Ok(head) => match rows_bytes_at(level, fields, symbols, version, rows.drop_first()) {
                Ok(tail) => Ok(head + tail),
                Err(fault) => Err(fault),
            },
            Err(fault) => Err(fault),
        }
    }
}

/// The value that a field met below `level` takes where it is not on the
/// wire: what its default stands for, or the zero value of its type. The
/// zero value of a structure is made of the values that its own fields
/// take where they are not on the wire; a structure has no default.
pub open spec fn absent_at(level: nat, field: FieldSchemaView, symbols: SymbolTable) -> Option<
    ValueView,
>
    decreases level, 0nat, 0nat,
{
    match field.ty {
        FieldType::Struct(id) => if symbols.holds(id, level) && field.default_value is None {
            match absent_fields(id as nat, symbols.structure(id), symbols) {
                Some(values) => Some(ValueView::Struct(values)),
                None => None,
            }
        } else {
            None
        },
        _ => field.ty.absent(field.default_value),
    }
}

/// The values that the fields of a structure met at `level` take where
/// none of them is on the wire.
pub open spec fn absent_fields(level: nat, fields: Seq<FieldSchemaView>, symbols: SymbolTable) -> Option<
    Seq<ValueView>,
>
    decreases level, 1nat, fields.len(),
{
    if fields.len() == 0 {
        Some(Seq::empty())
    } else {
        match absent_at(level, fields[0], symbols) {
            Some(first) => match absent_fields(level, fields.drop_first(), symbols) {
                Some(rest) => Some(seq![first] + rest),
                None => None,
            },
            None => None,
        }
    }
}

/// Reads a field that is met below `level`, at `version`; gives its value
/// and how many bytes were read. A field that is not on the wire takes no
/// bytes and has the value of its default, or of its type's zero where it
/// has no default.
pub open spec fn field_read_at(
    level: nat,
    field: FieldSchemaView,
    symbols: SymbolTable,
    version: i16,
    bytes: Seq<u8>,
) -> Result<(ValueView, nat), CodecFault>
    decreases level, 0nat, 0nat,
{
    match presence(field, symbols, version) {
        Ok(true) => match field.ty {
            FieldType::Struct(id) => if symbols.holds(id, level) {
                match struct_read_at(id as nat, symbols.structure(id), symbols, version, bytes) {
                    Ok((values, k)) => Ok((ValueView::Struct(values), k)),
                    Err(fault) => Err(fault),
                }
            } else {
                Err(CodecFault::TypeMismatch { field: field.name })
            },
            FieldType::StructArray(id) => if symbols.holds(id, level) {
                match int_read(bytes, 4) {
                    Ok((count, _)) => if count < 0 {
                        Err(CodecFault::TypeMismatch { field: field.name })
                    } else {
                        match rows_read_at(
                            id as nat,
                            symbols.structure(id),
                            symbols,
                            version,
                            bytes.skip(4),
                            count as nat,
                        ) {
                            Ok((rows, k)) => Ok((ValueView::StructArray(rows), 4 + k)),
                            Err(fault) => Err(fault),
                        }
                    },
                    Err(fault) => Err(field_fault(fault, field)),
                }
            } else {
                Err(CodecFault::TypeMismatch { field: field.name })
            },
            _ => match value_read(field.ty, field.varint, bytes) {
                Ok(read) => Ok(read),
                Err(fault) => Err(field_fault(fault, field)),
            },
        },
        Ok(false) => match absent_at(level, field, symbols) {
            Some(value) => Ok((value, 0)),
            None => Err(CodecFault::TypeMismatch { field: field.name }),
        },
        Err(fault) => Err(fault),
    }
}

/// Reads a structure that is met at `level`, at `version`: its fields, in
/// the order of the schema; gives one value for each field and how many
/// bytes were read.
pub open spec fn struct_read_at(
    level: nat,
    fields: Seq<FieldSchemaView>,
    symbols: SymbolTable,
    version: i16,
    bytes: Seq<u8>,
) -> Result<(Seq<ValueView>, nat), CodecFault>
    decreases level, 1nat, fields.len(),
{
    if fields.len() == 0 {
        Ok((Seq::empty(), 0))
    } else {
        match field_read_at(level, fields[0], symbols, version, bytes) {
            Ok((first, k)) => match struct_read_at(
                level,
                fields.drop_first(),
                symbols,
                version,
                bytes.skip(k as int),
            ) {
                Ok((rest, m)) => Ok((seq![first] + rest, k + m)),
                Err(fault) => Err(fault),
            },
            Err(fault) => Err(fault),
        }
    }
}

/// Reads `count` structures of one schema, one after the other; gives
/// their values and how many bytes were read.
pub open spec fn rows_read_at(
    level: nat,
    fields: Seq<FieldSchemaView>,
    symbols: SymbolTable,
    version: i16,
    bytes: Seq<u8>,
    count: nat,
) -> Result<(Seq<Seq<ValueView>>, nat), CodecFault>
    decreases level, 2nat, count,
{
    if count == 0 {
        Ok((Seq::empty(), 0))
    } else {
        match struct_read_at(level, fields, symbols, version, bytes) {
            Ok((first, k)) => match rows_read_at(
                level,
                fields,
                symbols,
                version,
                bytes.skip(k as int),
                (count - 1) as nat,
            ) {
                Ok((rest, m)) => Ok((seq![first] + rest, k + m)),
                Err(fault) => Err(fault),
            },
            Err(fault) => Err(fault),
        }
    }
}

/// The bytes of a field of a structure that is handed in, at `version`:
/// its type may name any structure that the table holds.
pub open spec fn field_bytes(
    field: FieldSchemaView,
    symbols: SymbolTable,
    version: i16,
    value: ValueView,
) -> Result<Seq<u8>, CodecFault> {
    field_bytes_at(symbols.structures@.len(), field, symbols, version, value)
}

/// Reads a field of a structure that is handed in, at `version`: its type
/// may name any structure that the table holds.
pub open spec fn field_read(
    field: FieldSchemaView,
    symbols: SymbolTable,
    version: i16,
    bytes: Seq<u8>,
) -> Result<(ValueView, nat), CodecFault> {
    field_read_at(symbols.structures@.len(), field, symbols, version, bytes)
}

/// The bytes of a structure that is handed in, at `version`: those of its
/// fields, in the order of the schema. There must be one value for each
/// field.
pub open spec fn struct_bytes(
    fields: Seq<FieldSchemaView>,
    symbols: SymbolTable,
    version: i16,
    values: Seq<ValueView>,
) -> Result<Seq<u8>, CodecFault> {
    struct_bytes_at(symbols.structures@.len(), fields, symbols, version, values)
}

/// Reads a structure that is handed in, at `version`: its fields, in the
/// order of the schema; gives one value for each field and how many bytes
/// were read.
pub open spec fn struct_read(
    fields: Seq<FieldSchemaView>,
    symbols: SymbolTable,
    version: i16,
    bytes: Seq<u8>,
) -> Result<(Seq<ValueView>, nat), CodecFault> {
    struct_read_at(symbols.structures@.len(), fields, symbols, version, bytes)
}


/// The record that a field was skipped: its name, the version, and the
/// bounds that exclude the version.
#[derive(Debug)]
pub struct SkipEvent {
    pub field: Option<String>,
    pub version: i16,
    pub min: i16,
    pub max: Option<i16>,
}

/// The record that a field was skipped, as mathematics sees it.
pub struct SkipEventView {
    pub field: Option<Seq<char>>,
    pub version: i16,
    pub min: i16,
    pub max: Option<i16>,
}

impl View for SkipEvent {
    type V = SkipEventView;

    open spec fn view(&self) -> SkipEventView {
        SkipEventView {
            field: name_view(self.field),
            version: self.version,
            min: self.min,
            max: self.max,
        }
    }
}

/// Where the records of skipped fields go, if they are asked for.
#[derive(Debug)]
pub struct SkipLog {
    /// Whether records are kept.
    pub enabled: bool,
    /// The records, the oldest first.
    pub events: Vec<SkipEvent>,
}

/// The views of records.
pub open spec fn event_views(events: Seq<SkipEvent>) -> Seq<SkipEventView> {
    Seq::new(events.len(), |i: int| events[i]@)
}

impl View for SkipLog {
    type V = Seq<SkipEventView>;

    open spec fn view(&self) -> Seq<SkipEventView> {
        event_views(self.events@)
    }
}

/// The records after a field was met at `version`: one more where records
/// are kept and the field is not on the wire.
pub open spec fn logged(
    events: Seq<SkipEventView>,
    enabled: bool,
    field: FieldSchemaView,
    symbols: SymbolTable,
    version: i16,
) -> Seq<SkipEventView> {
    match resolved_bounds(field, symbols) {
        Ok((min, max)) => if enabled && !in_range(version, min, max) {
            events.push(SkipEventView { field: field.name, version, min, max })
        } else {
            events
        },
        Err(_) => events,
    }
}

impl SkipLog {
    /// A log that keeps records, or one that keeps none.
    pub fn new(enabled: bool) -> (r: SkipLog)
        ensures
            r.enabled == enabled,
            r@.len() == 0,
    {
        SkipLog { enabled, events: Vec::new() }
    }
}

/// The name that a bound refers to.
fn bound_name(bound: &PropAttrsType) -> (r: String)
    ensures
        r@ == bound@.name(),
{
    match bound {
        PropAttrsType::Int(_) => String::new(),
        PropAttrsType::Lit(name) => name.clone(),
        PropAttrsType::Fn(name) => name.clone(),
    }
}

/// The failure of a field's value, with the field's name.
fn field_error(fault: WireFault, field: &FieldSchema) -> (e: CodecError)
    ensures
        e@ == field_fault(fault, field@),
{
    match fault {
        WireFault::UnexpectedEof => CodecError::UnexpectedEof { field: clone_name(&field.name) },
        WireFault::TypeMismatch => CodecError::TypeMismatch { field: clone_name(&field.name) },
    }
}

impl FieldSchema {
    /// The numbers that the bounds of this field stand for, judged once
    /// they are resolved.
    pub fn resolve_bounds(&self, symbols: &SymbolTable) -> (r: Result<
        (i16, Option<i16>),
        CodecError,
    >)
        ensures
            match resolved_bounds(self@, *symbols) {
                Ok(bounds) => r == Ok::<(i16, Option<i16>), CodecError>(bounds),
                Err(fault) => r matches Err(e) && e@ == fault,
            },
    {
        let min = match symbols.resolve_bound(&self.min_version) {
            Some(min) => min,
            None => {
                return Err(
                    CodecError::UnresolvedBound {
                        field: clone_name(&self.name),
                        bound: bound_name(&self.min_version),
                    },
                );
            },
        };
        let max = match &self.max_version {
            Some(bound) => match symbols.resolve_bound(bound) {
                Some(max) => Some(max),
                None => {
                    return Err(
                        CodecError::UnresolvedBound {
                            field: clone_name(&self.name),
                            bound: bound_name(bound),
                        },
                    );
                },
            },
            None => None,
        };
        let field: Option<&str> = match &self.name {
            Some(name) => Some(name.as_str()),
            None => None,
        };
        match validate_resolved(min, max, field) {
            Ok(()) => Ok((min, max)),
            Err(fault) => Err(CodecError::InvalidBounds(fault)),
        }
    }

    /// Whether this field is on the wire at `version`. Where it is not, and
    /// records are kept, the log gets one.
    pub fn is_present(&self, symbols: &SymbolTable, version: i16, log: &mut SkipLog) -> (r:
        Result<bool, CodecError>)
        ensures
            presence_result(r, self@, *symbols, version),
            final(log).enabled == old(log).enabled,
            final(log)@ == logged(old(log)@, old(log).enabled, self@, *symbols, version),
    {
        let (min, max) = self.resolve_bounds(symbols)?;
        let present = version_in_range(version, min, max);
        if !present {
            record_skip(self, version, min, max, log);
        }
        Ok(present)
    }
}

/// Whether `r` is the verdict on `version` that the resolved bounds give,
/// or the failure to resolve them.
pub open spec fn presence_result(
    r: Result<bool, CodecError>,
    field: FieldSchemaView,
    symbols: SymbolTable,
    version: i16,
) -> bool {
    match presence(field, symbols, version) {
        Ok(present) => r == Ok::<bool, CodecError>(present),
        Err(fault) => r matches Err(e) && e@ == fault,
    }
}

/// Whether `version` lies within the bounds.
pub fn version_in_range(version: i16, min: i16, max: Option<i16>) -> (r: bool)
    ensures
        r == in_range(version, min, max),
{
    min <= version && match max {
        Some(hi) => version <= hi,
        None => true,
    }
}

/// Records that a field was skipped, if records are kept.
fn record_skip(field: &FieldSchema, version: i16, min: i16, max: Option<i16>, log: &mut SkipLog)
    ensures
        final(log).enabled == old(log).enabled,
        final(log)@ == if old(log).enabled {
            old(log)@.push(SkipEventView { field: field@.name, version, min, max })
        } else {
            old(log)@
        },
{
    if log.enabled {
        let event = SkipEvent { field: clone_name(&field.name), version, min, max };
        log.events.push(event);
    }
}

/// The records after a field was met below `level`, with its value: one
/// more where records are kept and the field is not on the wire; and
/// where the field is on the wire and holds a structure, or a run of
/// structures, the records of the fields within, in the order of the
/// wire.
pub open spec fn field_logged_at(
    level: nat,
    events: Seq<SkipEventView>,
    enabled: bool,
    field: FieldSchemaView,
    symbols: SymbolTable,
    version: i16,
    value: ValueView,
) -> Seq<SkipEventView>
    decreases level, 0nat, 0nat,
{
    if presence(field, symbols, version) == Ok::<bool, CodecFault>(true) {
        match (field.ty, value) {
            (FieldType::Struct(id), ValueView::Struct(values)) => if symbols.holds(id, level) {
                struct_logged_at(
                    id as nat,
                    events,
                    enabled,
                    symbols.structure(id),
                    symbols,
                    version,
                    values,
                )
            } else {
                events
            },
            (FieldType::StructArray(id), ValueView::StructArray(rows)) => if symbols.holds(
                id,
                level,
            ) {
                rows_logged_at(
                    id as nat,
                    events,
                    enabled,
                    symbols.structure(id),
                    symbols,
                    version,
                    rows,
                )
            } else {
                events
            },
            _ => events,
        }
    } else {
        logged(events, enabled, field, symbols, version)
    }
}

/// The records after the fields of a structure were met at `level`, with
/// their values, in the order of the schema.
pub open spec fn struct_logged_at(
    level: nat,
    events: Seq<SkipEventView>,
    enabled: bool,
    fields: Seq<FieldSchemaView>,
    symbols: SymbolTable,
    version: i16,
    values: Seq<ValueView>,
) -> Seq<SkipEventView>
    decreases level, 1nat, fields.len(),
{
    if fields.len() == 0 || values.len() == 0 {
        events
    } else {
        struct_logged_at(
            level,
            field_logged_at(level, events, enabled, fields[0], symbols, version, values[0]),
            enabled,
            fields.drop_first(),
            symbols,
            version,
            values.drop_first(),
        )
    }
}

/// The records after the structures of a run were met, one after the
/// other.
pub open spec fn rows_logged_at(
    level: nat,
    events: Seq<SkipEventView>,
    enabled: bool,
    fields: Seq<FieldSchemaView>,
    symbols: SymbolTable,
    version: i16,
    rows: Seq<Seq<ValueView>>,
) -> Seq<SkipEventView>
    decreases level, 2nat, rows.len(),
{
    if rows.len() == 0 {
        events
    } else {
        rows_logged_at(
            level,
            struct_logged_at(level, events, enabled, fields, symbols, version, rows[0]),
            enabled,
            fields,
            symbols,
            version,
            rows.drop_first(),
        )
    }
}

/// The records after a field of a structure that is handed in was met at
/// `version`, with its value.
pub open spec fn field_logged(
    events: Seq<SkipEventView>,
    enabled: bool,
    field: FieldSchemaView,
    symbols: SymbolTable,
    version: i16,
    value: ValueView,
) -> Seq<SkipEventView> {
    field_logged_at(symbols.structures@.len(), events, enabled, field, symbols, version, value)
}

/// The records after the fields of a structure that is handed in were met
/// at `version`, with their values, in the order of the schema: one for
/// each field that is not on the wire, those of a structure within
/// included.
pub open spec fn struct_logged(
    events: Seq<SkipEventView>,
    enabled: bool,
    fields: Seq<FieldSchemaView>,
    symbols: SymbolTable,
    version: i16,
    values: Seq<ValueView>,
) -> Seq<SkipEventView> {
    struct_logged_at(symbols.structures@.len(), events, enabled, fields, symbols, version, values)
}

/// Whether `after` is `before` with records added at its end.
pub open spec fn extends(before: Seq<SkipEventView>, after: Seq<SkipEventView>) -> bool {
    after.len() >= before.len() && after.take(before.len() as int) == before
}

/// What writing more behind `written` makes of the bytes.
spec fn after_bytes(written: Seq<u8>, more: Result<Seq<u8>, CodecFault>) -> Result<
    Seq<u8>,
    CodecFault,
> {
    match more {
        Ok(tail) => Ok(written + tail),
        Err(fault) => Err(fault),
    }
}

/// What reading more fields behind `values` makes of a reading.
spec fn after_values(
    values: Seq<ValueView>,
    used: nat,
    more: Result<(Seq<ValueView>, nat), CodecFault>,
) -> Result<(Seq<ValueView>, nat), CodecFault> {
    match more {
        Ok((rest, k)) => Ok((values + rest, used + k)),
        Err(fault) => Err(fault),
    }
}

/// What reading more structures behind `rows` makes of a reading.
spec fn after_rows(
    rows: Seq<Seq<ValueView>>,
    used: nat,
    more: Result<(Seq<Seq<ValueView>>, nat), CodecFault>,
) -> Result<(Seq<Seq<ValueView>>, nat), CodecFault> {
    match more {
        Ok((rest, k)) => Ok((rows + rest, used + k)),
        Err(fault) => Err(fault),
    }
}

/// What more values behind `values` make of the values of a structure.
spec fn after_absent(values: Seq<ValueView>, more: Option<Seq<ValueView>>) -> Option<
    Seq<ValueView>,
> {
    match more {
        Some(rest) => Some(values + rest),
        None => None,
    }
}

/// The value that a field met below `level` takes where it is not on the
/// wire.
fn absent_field(level: usize, field: &FieldSchema, symbols: &SymbolTable) -> (r: Option<Value>)
    ensures
        match absent_at(level as nat, field@, *symbols) {
            Some(value) => r matches Some(v) && v@ == value,
            None => r is None,
        },
    decreases level, 0nat,
{
    match &field.ty {
        FieldType::Struct(id) => {
            if *id < level && *id < symbols.structures.len() && field.default_value.is_none() {
                match absent_values(*id, &symbols.structures[*id], symbols) {
                    Some(values) => {
                        proof {
                            lemma_values_view(values@);
                        }
                        Some(Value::Struct(values))
                    },
                    None => None,
                }
            } else {
                None
            }
        },
        _ => field.ty.absent_value(&field.default_value),
    }
}

/// The values that the fields of a structure met at `level` take where
/// none of them is on the wire.
fn absent_values(level: usize, schema: &StructureSchema, symbols: &SymbolTable) -> (r: Option<
    Vec<Value>,
>)
    ensures
        match absent_fields(level as nat, schema@, *symbols) {
            Some(values) => r matches Some(found) && value_views(found@) == values,
            None => r is None,
        },
    decreases level, 1nat,
{
    let n = schema.fields.len();
    let ghost fields = schema@;
    let ghost goal = absent_fields(level as nat, fields, *symbols);
    let mut found: Vec<Value> = Vec::new();
    let mut i: usize = 0;
    proof {
        assert(fields.skip(0) =~= fields);
        assert(value_views(found@) =~= Seq::<ValueView>::empty());
        assert(Seq::<ValueView>::empty() + goal->0 =~= goal->0);
    }
    while i < n
        invariant
            n == schema.fields@.len(),
            fields == schema@,
            i <= n,
            goal == absent_fields(level as nat, schema@, *symbols),
            goal == after_absent(
                value_views(found@),
                absent_fields(level as nat, fields.skip(i as int), *symbols),
            ),
        decreases n - i,
    {
        let ghost before = value_views(found@);
        proof {
            assert(fields.skip(i as int).drop_first() =~= fields.skip(i + 1));
        }
        match absent_field(level, &schema.fields[i], symbols) {
            Some(value) => {
                proof {
                    match absent_fields(level as nat, fields.skip(i + 1), *symbols) {
                        Some(rest) => {
                            assert(before + (seq![value@] + rest) =~= before.push(value@) + rest);
                        },
                        None => {},
                    }
                }
                found.push(value);
                assert(value_views(found@) =~= before.push(value@));
            },
            None => {
                return None;
            },
        }
        i = i + 1;
    }
    proof {
        assert(value_views(found@) + Seq::<ValueView>::empty() =~= value_views(found@));
    }
    Some(found)
}

/// Appends the bytes of a field that is met below `level`.
fn put_field(
    level: usize,
    field: &FieldSchema,
    symbols: &SymbolTable,
    version: i16,
    value: &Value,
    dest: &mut Vec<u8>,
    log: &mut SkipLog,
) -> (r: Result<(), CodecError>)
    ensures
        match field_bytes_at(level as nat, field@, *symbols, version, value@) {
            Ok(bytes) => r is Ok && final(dest)@ == old(dest)@ + bytes && final(log)@
                == field_logged_at(
                level as nat,
                old(log)@,
                old(log).enabled,
                field@,
                *symbols,
                version,
                value@,
            ) && extends(old(log)@, final(log)@),
            Err(fault) => r matches Err(e) && e@ == fault && final(dest)@ == old(dest)@ && final(log)@
                == old(log)@,
        },
        final(log).enabled == old(log).enabled,
    decreases level, 0nat,
{
    let (min, max) = field.resolve_bounds(symbols)?;
    if !version_in_range(version, min, max) {
        let ghost before = log@;
        record_skip(field, version, min, max, log);
        assert(log@.take(before.len() as int) =~= before);
        return Ok(());
    }
    assert(log@.take(log@.len() as int) =~= log@);
    match (&field.ty, value) {
        (FieldType::Struct(id), Value::Struct(values)) => {
            if *id < level && *id < symbols.structures.len() {
                proof {
                    lemma_values_view(values@);
                }
                put_struct(
                    *id,
                    &symbols.structures[*id],
                    symbols,
                    version,
                    values.as_slice(),
                    dest,
                    log,
                )
            } else {
                Err(CodecError::TypeMismatch { field: clone_name(&field.name) })
            }
        },
        (FieldType::StructArray(id), Value::StructArray(rows)) => {
            proof {
                lemma_rows_view(rows@);
            }
            if *id < level && *id < symbols.structures.len() && rows.len() <= MAX_ARRAY_LEN {
                put_rows(*id, &symbols.structures[*id], symbols, version, rows, dest, log)
            } else {
                Err(CodecError::TypeMismatch { field: clone_name(&field.name) })
            }
        },
        _ => {
            if !value_fits(&field.ty, value) {
                return Err(CodecError::TypeMismatch { field: clone_name(&field.name) });
            }
            put_value(dest, value, field.varint);
            Ok(())
        },
    }
}

/// Appends the bytes of a structure that is met at `level`.
fn put_struct(
    level: usize,
    schema: &StructureSchema,
    symbols: &SymbolTable,
    version: i16,
    values: &[Value],
    dest: &mut Vec<u8>,
    log: &mut SkipLog,
) -> (r: Result<(), CodecError>)
    ensures
        match struct_bytes_at(level as nat, schema@, *symbols, version, value_views(values@)) {
            Ok(bytes) => r is Ok && final(dest)@ == old(dest)@ + bytes && final(log)@
                == struct_logged_at(
                level as nat,
                old(log)@,
                old(log).enabled,
                schema@,
                *symbols,
                version,
                value_views(values@),
            ) && extends(old(log)@, final(log)@),
            Err(fault) => r matches Err(e) && e@ == fault && final(dest)@ == old(dest)@ && final(log)@
                == old(log)@,
        },
        final(log).enabled == old(log).enabled,
    decreases level, 1nat,
{
    let n = schema.fields.len();
    let ghost fields = schema@;
    let ghost items = value_views(values@);
    if values.len() != n {
        return Err(CodecError::TypeMismatch { field: None });
    }
    let start = dest.len();
    let kept = log.events.len();
    let ghost goal = struct_bytes_at(level as nat, fields, *symbols, version, items);
    let ghost events = struct_logged_at(
        level as nat,
        log@,
        log.enabled,
        fields,
        *symbols,
        version,
        items,
    );
    let mut i: usize = 0;
    proof {
        assert(fields.skip(0) =~= fields);
        assert(items.skip(0) =~= items);
        assert(log@.take(kept as int) =~= log@);
    }
    while i < n
        invariant
            n == schema.fields@.len(),
            n == values@.len(),
            fields == schema@,
            items == value_views(values@),
            i <= n,
            start == old(dest)@.len(),
            dest@.len() >= start,
            dest@.take(start as int) == old(dest)@,
            log.enabled == old(log).enabled,
            kept == old(log)@.len(),
            log@.len() >= kept,
            log@.take(kept as int) == old(log)@,
            goal == struct_bytes_at(
                level as nat,
                schema@,
                *symbols,
                version,
                value_views(values@),
            ),
            goal == after_bytes(
                dest@.skip(start as int),
                struct_bytes_at(
                    level as nat,
                    fields.skip(i as int),
                    *symbols,
                    version,
                    items.skip(i as int),
                ),
            ),
            events == struct_logged_at(
                level as nat,
                old(log)@,
                old(log).enabled,
                schema@,
                *symbols,
                version,
                value_views(values@),
            ),
            events == struct_logged_at(
                level as nat,
                log@,
                log.enabled,
                fields.skip(i as int),
                *symbols,
                version,
                items.skip(i as int),
            ),
        decreases n - i,
    {
        let ghost written = dest@.skip(start as int);
        let ghost noted = log@;
        proof {
            assert(fields.skip(i as int).drop_first() =~= fields.skip(i + 1));
            assert(items.skip(i as int).drop_first() =~= items.skip(i + 1));
        }
        match put_field(level, &schema.fields[i], symbols, version, &values[i], dest, log) {
            Ok(()) => {
                proof {
                    assert(log@.take(kept as int) =~= noted.take(kept as int));
                    let head = field_bytes_at(
                        level as nat,
                        fields.skip(i as int)[0],
                        *symbols,
                        version,
                        items.skip(i as int)[0],
                    )->Ok_0;
                    assert(dest@.skip(start as int) =~= written + head);
                    match struct_bytes_at(
                        level as nat,
                        fields.skip(i + 1),
                        *symbols,
                        version,
                        items.skip(i + 1),
                    ) {
                        Ok(tail) => {
                            assert(written + (head + tail) =~= (written + head) + tail);
                        },
                        Err(_) => {},
                    }
                }
            },
            Err(e) => {
                dest.truncate(start);
                log.events.truncate(kept);
                return Err(e);
            },
        }
        i = i + 1;
    }
    Ok(())
}

/// Appends the count of a run of structures met at `level`, and their
/// bytes.
fn put_rows(
    level: usize,
    schema: &StructureSchema,
    symbols: &SymbolTable,
    version: i16,
    rows: &Vec<Vec<Value>>,
    dest: &mut Vec<u8>,
    log: &mut SkipLog,
) -> (r: Result<(), CodecError>)
    requires
        rows@.len() <= MAX_ARRAY_LEN,
    ensures
        match rows_bytes_at(level as nat, schema@, *symbols, version, row_views(rows@)) {
            Ok(body) => r is Ok && final(dest)@ == old(dest)@ + (int_bytes(rows@.len() as int, 4)
                + body) && final(log)@ == rows_logged_at(
                level as nat,
                old(log)@,
                old(log).enabled,
                schema@,
                *symbols,
                version,
                row_views(rows@),
            ) && extends(old(log)@, final(log)@),
            Err(fault) => r matches Err(e) && e@ == fault && final(dest)@ == old(dest)@ && final(log)@
                == old(log)@,
        },
        final(log).enabled == old(log).enabled,
    decreases level, 2nat,
{
    proof {
        lemma_pow256_values();
    }
    let n = rows.len();
    let start = dest.len();
    put_int(dest, n as i64, 4);
    let mid = dest.len();
    let ghost head = int_bytes(n as int, 4);
    let ghost all = row_views(rows@);
    let ghost goal = rows_bytes_at(level as nat, schema@, *symbols, version, all);
    let kept = log.events.len();
    let ghost events = rows_logged_at(
        level as nat,
        log@,
        log.enabled,
        schema@,
        *symbols,
        version,
        all,
    );
    let mut i: usize = 0;
    proof {
        assert(all.skip(0) =~= all);
        assert(log@.take(kept as int) =~= log@);
        assert(dest@.skip(mid as int) =~= Seq::<u8>::empty());
        assert(dest@.take(mid as int) =~= old(dest)@ + head);
        assert(dest@.take(start as int) =~= old(dest)@);
        assert(Seq::<u8>::empty() + goal->Ok_0 =~= goal->Ok_0);
    }
    while i < n
        invariant
            n == rows@.len(),
            i <= n,
            all == row_views(rows@),
            start == old(dest)@.len(),
            start <= mid <= dest@.len(),
            dest@.take(start as int) == old(dest)@,
            dest@.take(mid as int) == old(dest)@ + head,
            goal == rows_bytes_at(level as nat, schema@, *symbols, version, row_views(rows@)),
            goal == after_bytes(
                dest@.skip(mid as int),
                rows_bytes_at(level as nat, schema@, *symbols, version, all.skip(i as int)),
            ),
            log.enabled == old(log).enabled,
            kept == old(log)@.len(),
            log@.len() >= kept,
            log@.take(kept as int) == old(log)@,
            events == rows_logged_at(
                level as nat,
                old(log)@,
                old(log).enabled,
                schema@,
                *symbols,
                version,
                row_views(rows@),
            ),
            events == rows_logged_at(
                level as nat,
                log@,
                log.enabled,
                schema@,
                *symbols,
                version,
                all.skip(i as int),
            ),
        decreases n - i,
    {
        let ghost written = dest@.skip(mid as int);
        let ghost whole = dest@;
        let ghost noted = log@;
        proof {
            assert(all.skip(i as int).drop_first() =~= all.skip(i + 1));
        }
        match put_struct(level, schema, symbols, version, rows[i].as_slice(), dest, log) {
            Ok(()) => {
                proof {
                    assert(log@.take(kept as int) =~= noted.take(kept as int));
                    let row = struct_bytes_at(
                        level as nat,
                        schema@,
                        *symbols,
                        version,
                        all.skip(i as int)[0],
                    )->Ok_0;
                    assert(dest@.skip(mid as int) =~= written + row);
                    assert(dest@.take(mid as int) =~= whole.take(mid as int));
                    assert(dest@.take(start as int) =~= whole.take(start as int));
                    match rows_bytes_at(level as nat, schema@, *symbols, version, all.skip(i + 1)) {
                        Ok(tail) => {
                            assert(written + (row + tail) =~= (written + row) + tail);
                        },
                        Err(_) => {},
                    }
                }
            },
            Err(e) => {
                dest.truncate(start);
                log.events.truncate(kept);
                return Err(e);
            },
        }
        i = i + 1;
    }
    proof {
        assert(dest@ =~= dest@.take(mid as int) + dest@.skip(mid as int));
        assert(dest@.skip(mid as int) + Seq::<u8>::empty() =~= dest@.skip(mid as int));
        assert((old(dest)@ + head) + dest@.skip(mid as int) =~= old(dest)@ + (head + dest@.skip(
            mid as int,
        )));
    }
    Ok(())
}

/// Reads a field that is met below `level` from the bytes at `pos`; gives
/// its value and the position behind it.
fn get_field(
    level: usize,
    field: &FieldSchema,
    symbols: &SymbolTable,
    version: i16,
    src: &[u8],
    pos: usize,
    log: &mut SkipLog,
) -> (r: Result<(Value, usize), CodecError>)
    requires
        pos <= src@.len(),
    ensures
        match field_read_at(level as nat, field@, *symbols, version, src@.skip(pos as int)) {
            Ok((value, k)) => r matches Ok((v, p)) && v@ == value && p == pos + k && p
                <= src@.len() && final(log)@ == field_logged_at(
                level as nat,
                old(log)@,
                old(log).enabled,
                field@,
                *symbols,
                version,
                value,
            ) && extends(old(log)@, final(log)@),
            Err(fault) => r matches Err(e) && e@ == fault && final(log)@ == old(log)@,
        },
        final(log).enabled == old(log).enabled,
    decreases level, 0nat,
{
    let (min, max) = field.resolve_bounds(symbols)?;
    if !version_in_range(version, min, max) {
        return match absent_field(level, field, symbols) {
            Some(value) => {
                let ghost before = log@;
                record_skip(field, version, min, max, log);
                assert(log@.take(before.len() as int) =~= before);
                Ok((value, pos))
            },
            None => Err(CodecError::TypeMismatch { field: clone_name(&field.name) }),
        };
    }
    assert(log@.take(log@.len() as int) =~= log@);
    match &field.ty {
        FieldType::Struct(id) => {
            if *id < level && *id < symbols.structures.len() {
                match get_struct(*id, &symbols.structures[*id], symbols, version, src, pos, log) {
                    Ok((values, next)) => {
                        proof {
                            lemma_values_view(values@);
                        }
                        Ok((Value::Struct(values), next))
                    },
                    Err(e) => Err(e),
                }
            } else {
                Err(CodecError::TypeMismatch { field: clone_name(&field.name) })
            }
        },
        FieldType::StructArray(id) => {
            if *id < level && *id < symbols.structures.len() {
                proof {
                    lemma_pow256_values();
                }
                let (count, start) = match get_int(src, pos, 4) {
                    Ok(pair) => pair,
                    Err(fault) => {
                        return Err(field_error(fault, field));
                    },
                };
                if count < 0 {
                    return Err(CodecError::TypeMismatch { field: clone_name(&field.name) });
                }
                proof {
                    assert(src@.skip(pos as int).skip(4) =~= src@.skip(start as int));
                }
                match get_rows(
                    *id,
                    &symbols.structures[*id],
                    symbols,
                    version,
                    src,
                    start,
                    count as usize,
                    log,
                ) {
                    Ok((rows, next)) => {
                        proof {
                            lemma_rows_view(rows@);
                        }
                        Ok((Value::StructArray(rows), next))
                    },
                    Err(e) => Err(e),
                }
            } else {
                Err(CodecError::TypeMismatch { field: clone_name(&field.name) })
            }
        },
        _ => match get_value(&field.ty, field.varint, src, pos) {
            Ok(read) => {
                assert(!(read.0@ is Struct) && !(read.0@ is StructArray));
                Ok(read)
            },
            Err(fault) => Err(field_error(fault, field)),
        },
    }
}

/// Reads a structure that is met at `level` from the bytes at `pos`; gives
/// one value for each field and the position behind them.
fn get_struct(
    level: usize,
    schema: &StructureSchema,
    symbols: &SymbolTable,
    version: i16,
    src: &[u8],
    pos: usize,
    log: &mut SkipLog,
) -> (r: Result<(Vec<Value>, usize), CodecError>)
    requires
        pos <= src@.len(),
    ensures
        match struct_read_at(level as nat, schema@, *symbols, version, src@.skip(pos as int)) {
            Ok((values, k)) => r matches Ok((found, next)) && value_views(found@) == values
                && next == pos + k && next <= src@.len() && final(log)@ == struct_logged_at(
                level as nat,
                old(log)@,
                old(log).enabled,
                schema@,
                *symbols,
                version,
                values,
            ) && extends(old(log)@, final(log)@),
            Err(fault) => r matches Err(e) && e@ == fault && final(log)@ == old(log)@,
        },
        final(log).enabled == old(log).enabled,
    decreases level, 1nat,
{
    let n = schema.fields.len();
    let kept = log.events.len();
    let ghost fields = schema@;
    let ghost goal = struct_read_at(level as nat, fields, *symbols, version, src@.skip(pos as int));
    let ghost all = goal->Ok_0.0;
    let ghost events = struct_logged_at(
        level as nat,
        log@,
        log.enabled,
        fields,
        *symbols,
        version,
        all,
    );
    let mut found: Vec<Value> = Vec::new();
    let mut at: usize = pos;
    let mut i: usize = 0;
    proof {
        assert(fields.skip(0) =~= fields);
        assert(all.skip(0) =~= all);
        assert(log@.take(kept as int) =~= log@);
        assert(value_views(found@) =~= Seq::<ValueView>::empty());
        assert(Seq::<ValueView>::empty() + all =~= all);
    }
    while i < n
        invariant
            n == schema.fields@.len(),
            fields == schema@,
            i <= n,
            pos <= at <= src@.len(),
            log.enabled == old(log).enabled,
            kept == old(log)@.len(),
            log@.len() >= kept,
            log@.take(kept as int) == old(log)@,
            goal == struct_read_at(
                level as nat,
                schema@,
                *symbols,
                version,
                src@.skip(pos as int),
            ),
            goal == after_values(
                value_views(found@),
                (at - pos) as nat,
                struct_read_at(
                    level as nat,
                    fields.skip(i as int),
                    *symbols,
                    version,
                    src@.skip(at as int),
                ),
            ),
            found@.len() == i,
            all == goal->Ok_0.0,
            goal is Ok ==> events == struct_logged_at(
                level as nat,
                old(log)@,
                old(log).enabled,
                schema@,
                *symbols,
                version,
                all,
            ),
            goal is Ok ==> events == struct_logged_at(
                level as nat,
                log@,
                log.enabled,
                fields.skip(i as int),
                *symbols,
                version,
                all.skip(i as int),
            ),
        decreases n - i,
    {
        let ghost before = value_views(found@);
        let ghost noted = log@;
        proof {
            assert(fields.skip(i as int).drop_first() =~= fields.skip(i + 1));
        }
        match get_field(level, &schema.fields[i], symbols, version, src, at, log) {
            Ok((value, next)) => {
                proof {
                    let k = next - at;
                    assert(src@.skip(at as int).skip(k) =~= src@.skip(next as int));
                    assert(log@.take(kept as int) =~= noted.take(kept as int));
                    match struct_read_at(
                        level as nat,
                        fields.skip(i + 1),
                        *symbols,
                        version,
                        src@.skip(next as int),
                    ) {
                        Ok((rest, m)) => {
                            assert(before + (seq![value@] + rest) =~= before.push(value@) + rest);
                            assert(all =~= before + (seq![value@] + rest));
                            assert(all.skip(i as int) =~= seq![value@] + rest);
                            assert(all.skip(i as int)[0] == value@);
                            assert(all.skip(i as int).drop_first() =~= all.skip(i + 1));
                        },
                        Err(_) => {},
                    }
                }
                found.push(value);
                assert(value_views(found@) =~= before.push(value@));
                at = next;
            },
            Err(e) => {
                log.events.truncate(kept);
                return Err(e);
            },
        }
        i = i + 1;
    }
    Ok((found, at))
}

/// Reads `count` structures that are met at `level` from the bytes at
/// `pos`; gives their values and the position behind them.
fn get_rows(
    level: usize,
    schema: &StructureSchema,
    symbols: &SymbolTable,
    version: i16,
    src: &[u8],
    pos: usize,
    count: usize,
    log: &mut SkipLog,
) -> (r: Result<(Vec<Vec<Value>>, usize), CodecError>)
    requires
        pos <= src@.len(),
    ensures
        match rows_read_at(
            level as nat,
            schema@,
            *symbols,
            version,
            src@.skip(pos as int),
            count as nat,
        ) {
            Ok((rows, k)) => r matches Ok((found, next)) && row_views(found@) == rows && next == pos
                + k && next <= src@.len() && final(log)@ == rows_logged_at(
                level as nat,
                old(log)@,
                old(log).enabled,
                schema@,
                *symbols,
                version,
                rows,
            ) && extends(old(log)@, final(log)@),
            Err(fault) => r matches Err(e) && e@ == fault && final(log)@ == old(log)@,
        },
        final(log).enabled == old(log).enabled,
    decreases level, 2nat,
{
    let ghost goal = rows_read_at(
        level as nat,
        schema@,
        *symbols,
        version,
        src@.skip(pos as int),
        count as nat,
    );
    let kept = log.events.len();
    let ghost all = goal->Ok_0.0;
    let ghost events = rows_logged_at(
        level as nat,
        log@,
        log.enabled,
        schema@,
        *symbols,
        version,
        all,
    );
    let mut found: Vec<Vec<Value>> = Vec::new();
    let mut at: usize = pos;
    let mut i: usize = 0;
    proof {
        assert(all.skip(0) =~= all);
        assert(log@.take(kept as int) =~= log@);
        assert(row_views(found@) =~= Seq::<Seq<ValueView>>::empty());
        assert(Seq::<Seq<ValueView>>::empty() + all =~= all);
    }
    while i < count
        invariant
            i <= count,
            pos <= at <= src@.len(),
            log.enabled == old(log).enabled,
            kept == old(log)@.len(),
            log@.len() >= kept,
            log@.take(kept as int) == old(log)@,
            found@.len() == i,
            all == goal->Ok_0.0,
            goal is Ok ==> events == rows_logged_at(
                level as nat,
                old(log)@,
                old(log).enabled,
                schema@,
                *symbols,
                version,
                all,
            ),
            goal is Ok ==> events == rows_logged_at(
                level as nat,
                log@,
                log.enabled,
                schema@,
                *symbols,
                version,
                all.skip(i as int),
            ),
            goal == rows_read_at(
                level as nat,
                schema@,
                *symbols,
                version,
                src@.skip(pos as int),
                count as nat,
            ),
            goal == after_rows(
                row_views(found@),
                (at - pos) as nat,
                rows_read_at(
                    level as nat,
                    schema@,
                    *symbols,
                    version,
                    src@.skip(at as int),
                    (count - i) as nat,
                ),
            ),
        decreases count - i,
    {
        let ghost before = row_views(found@);
        let ghost noted = log@;
        match get_struct(level, schema, symbols, version, src, at, log) {
            Ok((values, next)) => {
                proof {
                    let k = next - at;
                    assert(src@.skip(at as int).skip(k) =~= src@.skip(next as int));
                    assert(log@.take(kept as int) =~= noted.take(kept as int));
                    match rows_read_at(
                        level as nat,
                        schema@,
                        *symbols,
                        version,
                        src@.skip(next as int),
                        (count - i - 1) as nat,
                    ) {
                        Ok((rest, m)) => {
                            assert(before + (seq![value_views(values@)] + rest) =~= before.push(
                                value_views(values@),
                            ) + rest);
                            assert(all =~= before + (seq![value_views(values@)] + rest));
                            assert(all.skip(i as int) =~= seq![value_views(values@)] + rest);
                            assert(all.skip(i as int)[0] == value_views(values@));
                            assert(all.skip(i as int).drop_first() =~= all.skip(i + 1));
                        },
                        Err(_) => {},
                    }
                }
                found.push(values);
                assert(row_views(found@) =~= before.push(value_views(values@)));
                at = next;
            },
            Err(e) => {
                log.events.truncate(kept);
                return Err(e);
            },
        }
        i = i + 1;
    }
    Ok((found, at))
}

/// Appends the bytes of a field at `version`: none where the field is not
/// on the wire, and then the log gets a record, if records are kept; so
/// it does for each field of a structure within that is not on the wire.
/// Nothing is appended, and nothing recorded, where the call fails.
pub fn encode_field(
    field: &FieldSchema,
    symbols: &SymbolTable,
    version: i16,
    value: &Value,
    dest: &mut Vec<u8>,
    log: &mut SkipLog,
) -> (r: Result<(), CodecError>)
    ensures
        match field_bytes(field@, *symbols, version, value@) {
            Ok(bytes) => r is Ok && final(dest)@ == old(dest)@ + bytes && final(log)@
                == field_logged(old(log)@, old(log).enabled, field@, *symbols, version, value@),
            Err(fault) => r matches Err(e) && e@ == fault && final(dest)@ == old(dest)@ && final(log)@
                == old(log)@,
        },
        final(log).enabled == old(log).enabled,
        extends(old(log)@, final(log)@),
{
    assert(log@.take(log@.len() as int) =~= log@);
    put_field(symbols.structures.len(), field, symbols, version, value, dest, log)
}

/// Reads a field at `version` from the start of `src`; gives its value and
/// how many bytes were read. A field that is not on the wire takes no
/// bytes and has the value of its default, and the log gets a record, if
/// records are kept. Nothing is recorded where the call fails.
pub fn decode_field(
    field: &FieldSchema,
    symbols: &SymbolTable,
    version: i16,
    src: &[u8],
    log: &mut SkipLog,
) -> (r: Result<(Value, usize), CodecError>)
    ensures
        match field_read(field@, *symbols, version, src@) {
            Ok((value, k)) => r matches Ok((v, n)) && v@ == value && n == k && n <= src@.len()
                && final(log)@ == field_logged(
                old(log)@,
                old(log).enabled,
                field@,
                *symbols,
                version,
                value,
            ),
            Err(fault) => r matches Err(e) && e@ == fault && final(log)@ == old(log)@,
        },
        final(log).enabled == old(log).enabled,
        extends(old(log)@, final(log)@),
{
    assert(src@.skip(0) =~= src@);
    assert(log@.take(log@.len() as int) =~= log@);
    get_field(symbols.structures.len(), field, symbols, version, src, 0, log)
}

/// Appends the bytes of a structure at `version`: its fields in the order
/// of the schema, each only where it is on the wire; the log gets a record
/// for each field that is not, if records are kept. Nothing is appended,
/// and nothing recorded, where the call fails.
pub fn encode_struct(
    schema: &StructureSchema,
    symbols: &SymbolTable,
    version: i16,
    values: &[Value],
    dest: &mut Vec<u8>,
    log: &mut SkipLog,
) -> (r: Result<(), CodecError>)
    ensures
        match struct_bytes(schema@, *symbols, version, value_views(values@)) {
            Ok(bytes) => r is Ok && final(dest)@ == old(dest)@ + bytes && final(log)@
                == struct_logged(
                old(log)@,
                old(log).enabled,
                schema@,
                *symbols,
                version,
                value_views(values@),
            ),
            Err(fault) => r matches Err(e) && e@ == fault && final(dest)@ == old(dest)@ && final(log)@
                == old(log)@,
        },
        final(log).enabled == old(log).enabled,
        extends(old(log)@, final(log)@),
{
    assert(log@.take(log@.len() as int) =~= log@);
    put_struct(symbols.structures.len(), schema, symbols, version, values, dest, log)
}

/// Reads a structure at `version` from the start of `src`: its fields in
/// the order of the schema, each from the wire where it is there and from
/// its default where it is not; gives one value for each field and how
/// many bytes were read. No value is handed out, and nothing recorded,
/// where the call fails.
pub fn decode_struct(
    schema: &StructureSchema,
    symbols: &SymbolTable,
    version: i16,
    src: &[u8],
    log: &mut SkipLog,
) -> (r: Result<(Vec<Value>, usize), CodecError>)
    ensures
        match struct_read(schema@, *symbols, version, src@) {
            Ok((values, k)) => r matches Ok((found, used)) && value_views(found@) == values
                && used == k && used <= src@.len() && final(log)@ == struct_logged(
                old(log)@,
                old(log).enabled,
                schema@,
                *symbols,
                version,
                values,
            ),
            Err(fault) => r matches Err(e) && e@ == fault && final(log)@ == old(log)@,
        },
        final(log).enabled == old(log).enabled,
        extends(old(log)@, final(log)@),
{
    assert(src@.skip(0) =~= src@);
    assert(log@.take(log@.len() as int) =~= log@);
    get_struct(symbols.structures.len(), schema, symbols, version, src, 0, log)
}

} // verus!
