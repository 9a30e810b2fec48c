//! What holds of every schema, version and value: the laws that relate
//! encoding, decoding, bounds and defaults. Where a law here speaks of
//! fields that hold no structure, the module `nested` states it of all
//! fields.

use crate::bound::{effective_min, SymbolTable, VersionBound};
use crate::codec::{
    absent_fields, field_bytes, field_read, in_range, items_bytes, items_read, lemma_value_round_trip, presence,
    resolved_bounds, struct_bytes, struct_read, value_bytes, value_read, value_writable,
};
use crate::ast::Field;
use crate::error::{name_view, CodecFault, SchemaFault};
use crate::prop::{declared_default, lemma_default_is_handed_on, props_of, PropAttrsView};
use crate::schema::{checked_schema, declared_schema, FieldSchemaView};
use crate::validate::range_fault;
use crate::value::{FieldType, ScalarType, ScalarView, ValueView};
use crate::wire::{
    int_bytes, int_of, int_read, int_width, leb, lemma_be_len, lemma_int_round_trip,
    lemma_leb_len, lemma_pow256_values,
    lemma_scalar_round_trip, pow128, scalar_bytes, scalar_read, scalar_writable, to_unsigned,
    unleb, zigzag, WireFault,
};
use vstd::prelude::*;
use vstd::utf8::encode_utf8;

verus! {

/// A field whose bounds resolve is on the wire exactly where the version
/// lies within them. Elsewhere it has no bytes at all, whatever its type
/// and its value, and reading it takes none. Where the version lies
/// within the bounds, the bytes of a single value or of a run of them are
/// those of the value, at least one; a run of structures has at least the
/// four bytes of its count.
pub proof fn lemma_on_wire_iff_in_range(
    field: FieldSchemaView,
    symbols: SymbolTable,
    version: i16,
    value: ValueView,
    bytes: Seq<u8>,
    min: i16,
    max: Option<i16>,
)
    requires
        resolved_bounds(field, symbols) == Ok::<(i16, Option<i16>), CodecFault>((min, max)),
    ensures
        presence(field, symbols, version) == Ok::<bool, CodecFault>(in_range(version, min, max)),
        !in_range(version, min, max) ==> field_bytes(field, symbols, version, value) == Ok::<
            Seq<u8>,
            CodecFault,
        >(Seq::empty()),
        !in_range(version, min, max) && field_read(field, symbols, version, bytes) is Ok
            ==> field_read(field, symbols, version, bytes)->Ok_0.1 == 0,
        in_range(version, min, max) && value.has_type(field.ty) && value_writable(value)
            ==> field_bytes(field, symbols, version, value) == Ok::<Seq<u8>, CodecFault>(
            value_bytes(value, field.varint),
        ) && value_bytes(value, field.varint).len() > 0,
        in_range(version, min, max) && field.ty is StructArray && field_bytes(
            field,
            symbols,
            version,
            value,
        ) is Ok ==> field_bytes(field, symbols, version, value)->Ok_0.len() >= 4,
        (value.has_type(field.ty) && value_writable(value)) || (field.ty is StructArray
            && field_bytes(field, symbols, version, value) is Ok) ==> (in_range(version, min, max)
            <==> field_bytes(field, symbols, version, value)->Ok_0.len() > 0),
{
    if value.has_type(field.ty) && value_writable(value) {
        lemma_value_round_trip(field.ty, value, field.varint, Seq::empty());
    }
    if in_range(version, min, max) && field.ty is StructArray && field_bytes(
        field,
        symbols,
        version,
        value,
    ) is Ok {
        lemma_pow256_values();
        lemma_int_round_trip(value->StructArray_0.len() as int, 4, Seq::empty());
    }
}

/// A field that is on the wire is read back as the value that was written,
/// whatever follows its bytes.
pub proof fn lemma_field_round_trip(
    field: FieldSchemaView,
    symbols: SymbolTable,
    version: i16,
    value: ValueView,
    rest: Seq<u8>,
)
    requires
        presence(field, symbols, version) == Ok::<bool, CodecFault>(true),
        value.has_type(field.ty),
        value_writable(value),
    ensures
        field_bytes(field, symbols, version, value) is Ok,
        field_read(
            field,
            symbols,
            version,
            field_bytes(field, symbols, version, value)->Ok_0 + rest,
        ) == Ok::<(ValueView, nat), CodecFault>(
            (value, field_bytes(field, symbols, version, value)->Ok_0.len()),
        ),
{
    lemma_value_round_trip(field.ty, value, field.varint, rest);
}

/// A field that is not on the wire is read, from any bytes and without
/// taking any, as the value that its default stands for, or as the zero
/// value of its type where it has no default. The zero value of a
/// structure that the table holds is made of the values that its own
/// fields take where they are not on the wire.
pub proof fn lemma_absent_field_reads_default(
    field: FieldSchemaView,
    symbols: SymbolTable,
    version: i16,
    bytes: Seq<u8>,
)
    requires
        presence(field, symbols, version) == Ok::<bool, CodecFault>(false),
    ensures
        field.default_value is None && !(field.ty is Struct) ==> field_read(
            field,
            symbols,
            version,
            bytes,
        ) == (match field.ty.zero() {
            Some(zero) => Ok::<(ValueView, nat), CodecFault>((zero, 0)),
            None => Err(CodecFault::TypeMismatch { field: field.name }),
        }),
        field.default_value matches Some(text) ==> field_read(field, symbols, version, bytes) == (
        match field.ty.parse(text) {
            Some(value) => Ok::<(ValueView, nat), CodecFault>((value, 0)),
            None => Err(CodecFault::TypeMismatch { field: field.name }),
        }),
        field.default_value is None && field.ty is Struct ==> field_read(
            field,
            symbols,
            version,
            bytes,
        ) == (if field.ty->Struct_0 < symbols.structures@.len() {
            match absent_fields(
                field.ty->Struct_0 as nat,
                symbols.structure(field.ty->Struct_0),
                symbols,
            ) {
                Some(values) => Ok::<(ValueView, nat), CodecFault>((ValueView::Struct(values), 0)),
                None => Err(CodecFault::TypeMismatch { field: field.name }),
            }
        } else {
            Err(CodecFault::TypeMismatch { field: field.name })
        }),
{
}

/// Whether the rule of a type needs no structure of the table: it is
/// neither a structure nor a run of structures.
pub open spec fn plain(ty: FieldType) -> bool {
    !(ty is Struct) && !(ty is StructArray)
}

/// Whether no field holds a structure.
pub open spec fn plain_fields(fields: Seq<FieldSchemaView>) -> bool {
    forall|i: int| 0 <= i < fields.len() ==> plain((#[trigger] fields[i]).ty)
}

/// Whether one of the bounds of a field names something that the table
/// does not hold.
pub open spec fn names_unknown(field: FieldSchemaView, symbols: SymbolTable) -> bool {
    symbols.resolve(field.min_version) is None || (field.max_version matches Some(bound)
        && symbols.resolve(bound) is None)
}

/// A declared field that is no structure and is not on the wire is read as what the text of
/// its `default` attribute stands for in the field's type, the text taken
/// as it is written; and as the zero value of its type where it has no
/// such attribute.
pub proof fn lemma_declared_default_is_read(
    declaration: Field,
    warnings: Seq<Seq<char>>,
    symbols: SymbolTable,
    version: i16,
    bytes: Seq<u8>,
)
    requires
        declared_schema(declaration, warnings) is Ok,
        presence(declared_schema(declaration, warnings)->Ok_0.0, symbols, version) == Ok::<
            bool,
            CodecFault,
        >(false),
        !(declaration.ty is Struct),
    ensures
        declared_schema(declaration, warnings)->Ok_0.0.default_value == declared_default(
            declaration.attrs@,
        ),
        field_read(declared_schema(declaration, warnings)->Ok_0.0, symbols, version, bytes) == (
        match declaration.ty.absent(declared_default(declaration.attrs@)) {
            Some(value) => Ok::<(ValueView, nat), CodecFault>((value, 0)),
            None => Err(
                CodecFault::TypeMismatch {
                    field: declared_schema(declaration, warnings)->Ok_0.0.name,
                },
            ),
        }),
{
    lemma_default_is_handed_on(declaration.attrs@, warnings);
}

/// A field whose bound names something that the table does not hold is
/// neither written nor read: both fail with `UnresolvedBound`.
pub proof fn lemma_unresolved_bound_fails(
    field: FieldSchemaView,
    symbols: SymbolTable,
    version: i16,
    value: ValueView,
    bytes: Seq<u8>,
)
    requires
        names_unknown(field, symbols),
    ensures
        resolved_bounds(field, symbols) is Err,
        resolved_bounds(field, symbols)->Err_0 is UnresolvedBound,
        field_bytes(field, symbols, version, value) == Err::<Seq<u8>, CodecFault>(
            resolved_bounds(field, symbols)->Err_0,
        ),
        field_read(field, symbols, version, bytes) == Err::<(ValueView, nat), CodecFault>(
            resolved_bounds(field, symbols)->Err_0,
        ),
{
}

/// A field whose bounds resolve to numbers that are out of order is
/// neither written nor read, at any version: both fail with
/// `InvalidBounds`, which holds the fault of the two numbers. The check
/// that is put off while a bound is a name is made when it resolves.
pub proof fn lemma_resolved_bounds_are_judged(
    field: FieldSchemaView,
    symbols: SymbolTable,
    version: i16,
    value: ValueView,
    bytes: Seq<u8>,
    min: i16,
    max: Option<i16>,
)
    requires
        symbols.resolve(field.min_version) == Some(min),
        match field.max_version {
            Some(bound) => symbols.resolve(bound) == max && max is Some,
            None => max is None,
        },
    ensures
        match range_fault(min, max, field.name) {
            Some(fault) => field_bytes(field, symbols, version, value) == Err::<
                Seq<u8>,
                CodecFault,
            >(CodecFault::InvalidBounds(fault)) && field_read(field, symbols, version, bytes)
                == Err::<(ValueView, nat), CodecFault>(CodecFault::InvalidBounds(fault)),
            None => resolved_bounds(field, symbols) == Ok::<(i16, Option<i16>), CodecFault>(
                (min, max),
            ),
        },
{
}

/// The values that reading gives back for the values that were written:
/// each field that is on the wire has its own, each other one that of its
/// default.
pub open spec fn read_back(
    fields: Seq<FieldSchemaView>,
    symbols: SymbolTable,
    version: i16,
    values: Seq<ValueView>,
) -> Seq<ValueView> {
    Seq::new(
        fields.len(),
        |i: int|
            if presence(fields[i], symbols, version) == Ok::<bool, CodecFault>(true) {
                values[i]
            } else {
                fields[i].ty.absent(fields[i].default_value)->0
            },
    )
}

/// Whether every field that is not on the wire has a value to take: a
/// default that is of its type, or a type with a zero value.
pub open spec fn defaults_ok(fields: Seq<FieldSchemaView>, symbols: SymbolTable, version: i16) -> bool {
    forall|i: int|
        0 <= i < fields.len() && presence(#[trigger] fields[i], symbols, version) == Ok::<
            bool,
            CodecFault,
        >(false) ==> fields[i].ty.absent(fields[i].default_value) is Some
}

/// A structure none of whose fields holds a structure, and that can be
/// written, is read back, at the same version and whatever follows its
/// bytes: every field that is on the wire has the value that was written,
/// every other one the value of its default.
pub proof fn lemma_struct_round_trip(
    fields: Seq<FieldSchemaView>,
    symbols: SymbolTable,
    version: i16,
    values: Seq<ValueView>,
    rest: Seq<u8>,
)
    requires
        struct_bytes(fields, symbols, version, values) is Ok,
        defaults_ok(fields, symbols, version),
        plain_fields(fields),
    ensures
        struct_read(
            fields,
            symbols,
            version,
            struct_bytes(fields, symbols, version, values)->Ok_0 + rest,
        ) == Ok::<(Seq<ValueView>, nat), CodecFault>(
            (
                read_back(fields, symbols, version, values),
                struct_bytes(fields, symbols, version, values)->Ok_0.len(),
            ),
        ),
    decreases fields.len(),
{
    let bytes = struct_bytes(fields, symbols, version, values)->Ok_0;
    if fields.len() == 0 {
        assert(read_back(fields, symbols, version, values) =~= Seq::<ValueView>::empty());
    } else {
        let field = fields[0];
        let head = field_bytes(field, symbols, version, values[0])->Ok_0;
        let tail = struct_bytes(fields.drop_first(), symbols, version, values.drop_first())->Ok_0;
        assert(plain(field.ty));
        assert(plain_fields(fields.drop_first())) by {
            assert forall|i: int| 0 <= i < fields.drop_first().len() implies plain(
                (#[trigger] fields.drop_first()[i]).ty,
            ) by {
                assert(fields.drop_first()[i] == fields[i + 1]);
            }
        }
        assert(bytes + rest =~= head + (tail + rest));
        lemma_struct_round_trip(
            fields.drop_first(),
            symbols,
            version,
            values.drop_first(),
            rest,
        );
        let first = read_back(fields, symbols, version, values)[0];
        if presence(field, symbols, version) == Ok::<bool, CodecFault>(true) {
            lemma_value_round_trip(field.ty, values[0], field.varint, tail + rest);
        }
        assert((head + (tail + rest)).skip(head.len() as int) =~= tail + rest);
        assert(field_read(field, symbols, version, head + (tail + rest)) == Ok::<
            (ValueView, nat),
            CodecFault,
        >((first, head.len())));
        assert(struct_read(fields.drop_first(), symbols, version, tail + rest) == Ok::<
            (Seq<ValueView>, nat),
            CodecFault,
        >((read_back(fields.drop_first(), symbols, version, values.drop_first()), tail.len())));
        assert(seq![first] + read_back(
            fields.drop_first(),
            symbols,
            version,
            values.drop_first(),
        ) =~= read_back(fields, symbols, version, values));
    }
}

/// A schema whose bounds are both numbers, the maximum below the minimum,
/// cannot be made: the fault is `InvalidMinMaxOrdering`, with both numbers.
pub proof fn lemma_max_below_min_is_refused(
    name: Option<Seq<char>>,
    ty: FieldType,
    attrs: PropAttrsView,
    min: i16,
    max: i16,
)
    requires
        effective_min(attrs.min_version) == VersionBound::Constant(min),
        attrs.max_version == Some(VersionBound::Constant(max)),
        max < min,
    ensures
        checked_schema(name, ty, attrs) == Err::<FieldSchemaView, SchemaFault>(
            SchemaFault::InvalidMinMaxOrdering { field: name, min, max },
        ),
{
}

/// A declaration whose attributes state two numbers as bounds, the
/// maximum below the minimum, makes no schema: the fault is
/// `InvalidMinMaxOrdering`, with the field's name and both numbers.
pub proof fn lemma_declared_max_below_min(
    declaration: Field,
    warnings: Seq<Seq<char>>,
    min: i16,
    max: i16,
)
    requires
        props_of(declaration.attrs@, warnings) is Ok,
        effective_min(props_of(declaration.attrs@, warnings)->Ok_0.attrs.min_version)
            == VersionBound::Constant(min),
        props_of(declaration.attrs@, warnings)->Ok_0.attrs.max_version == Some(
            VersionBound::Constant(max),
        ),
        max < min,
    ensures
        declared_schema(declaration, warnings) == Err::<
            (FieldSchemaView, Seq<Seq<char>>),
            SchemaFault,
        >(SchemaFault::InvalidMinMaxOrdering { field: name_view(declaration.ident), min, max }),
{
}

/// A declaration whose attributes state a negative number as minimum, and
/// no maximum, makes no schema: the fault is `NegativeMinVersion`, with the
/// field's name and the number.
pub proof fn lemma_declared_negative_min(declaration: Field, warnings: Seq<Seq<char>>, min: i16)
    requires
        props_of(declaration.attrs@, warnings) is Ok,
        props_of(declaration.attrs@, warnings)->Ok_0.attrs.min_version == Some(
            VersionBound::Constant(min),
        ),
        props_of(declaration.attrs@, warnings)->Ok_0.attrs.max_version is None,
        min < 0,
    ensures
        declared_schema(declaration, warnings) == Err::<
            (FieldSchemaView, Seq<Seq<char>>),
            SchemaFault,
        >(SchemaFault::NegativeMinVersion { field: name_view(declaration.ident), min }),
{
}

/// A schema whose minimum is a negative number, and which has no maximum,
/// cannot be made: the fault is `NegativeMinVersion`, with the number.
pub proof fn lemma_negative_min_is_refused(
    name: Option<Seq<char>>,
    ty: FieldType,
    attrs: PropAttrsView,
    min: i16,
)
    requires
        attrs.min_version == Some(VersionBound::Constant(min)),
        attrs.max_version is None,
        min < 0,
    ensures
        checked_schema(name, ty, attrs) == Err::<FieldSchemaView, SchemaFault>(
            SchemaFault::NegativeMinVersion { field: name, min },
        ),
{
}

/// A single value that was read is of the type that was asked for.
pub proof fn lemma_scalar_read_typed(ty: ScalarType, varint: bool, bytes: Seq<u8>)
    requires
        scalar_read(ty, varint, bytes) is Ok,
    ensures
        scalar_read(ty, varint, bytes)->Ok_0.0.scalar_type() == ty,
{
    reveal(scalar_read);
}

/// Values that were read as a run are all of the type that was asked for,
/// and as many as were asked for.
pub proof fn lemma_items_read_typed(ty: ScalarType, varint: bool, bytes: Seq<u8>, count: nat)
    requires
        items_read(ty, varint, bytes, count) is Ok,
    ensures
        items_read(ty, varint, bytes, count)->Ok_0.0.len() == count,
        forall|i: int|
            0 <= i < count ==> (#[trigger] items_read(
                ty,
                varint,
                bytes,
                count,
            )->Ok_0.0[i]).scalar_type() == ty,
    decreases count,
{
    if count > 0 {
        lemma_scalar_read_typed(ty, varint, bytes);
        let k = scalar_read(ty, varint, bytes)->Ok_0.1;
        lemma_items_read_typed(ty, varint, bytes.skip(k as int), (count - 1) as nat);
    }
}

/// A value that was read is of the type that was asked for.
pub proof fn lemma_value_read_typed(ty: FieldType, varint: bool, bytes: Seq<u8>)
    requires
        value_read(ty, varint, bytes) is Ok,
    ensures
        value_read(ty, varint, bytes)->Ok_0.0.has_type(ty),
{
    match ty {
        FieldType::Scalar(t) => {
            lemma_scalar_read_typed(t, varint, bytes);
        },
        FieldType::Array(t) => {
            let count = int_read(bytes, 4)->Ok_0.0;
            lemma_items_read_typed(t, varint, bytes.skip(4), count as nat);
        },
        _ => {},
    }
}

/// The value that a field which holds no structure takes where it is not
/// on the wire is of the field's type.
pub proof fn lemma_absent_typed(ty: FieldType, default_value: Option<Seq<char>>)
    requires
        ty.absent(default_value) is Some,
        plain(ty),
    ensures
        ty.absent(default_value)->0.has_type(ty),
{
}

/// The value that was read for a field which holds no structure, from the
/// wire or from its default, is of the field's type.
pub proof fn lemma_field_read_typed(
    field: FieldSchemaView,
    symbols: SymbolTable,
    version: i16,
    bytes: Seq<u8>,
)
    requires
        field_read(field, symbols, version, bytes) is Ok,
        plain(field.ty),
    ensures
        field_read(field, symbols, version, bytes)->Ok_0.0.has_type(field.ty),
{
    if presence(field, symbols, version) == Ok::<bool, CodecFault>(true) {
        lemma_value_read_typed(field.ty, field.varint, bytes);
    } else {
    }
}

/// The values that were read for a structure none of whose fields holds a
/// structure are one for each field, each of its field's type.
pub proof fn lemma_struct_read_typed(
    fields: Seq<FieldSchemaView>,
    symbols: SymbolTable,
    version: i16,
    bytes: Seq<u8>,
)
    requires
        struct_read(fields, symbols, version, bytes) is Ok,
        plain_fields(fields),
    ensures
        struct_read(fields, symbols, version, bytes)->Ok_0.0.len() == fields.len(),
        forall|i: int|
            0 <= i < fields.len() ==> (#[trigger] struct_read(
                fields,
                symbols,
                version,
                bytes,
            )->Ok_0.0[i]).has_type(fields[i].ty),
    decreases fields.len(),
{
    if fields.len() > 0 {
        lemma_field_read_typed(fields[0], symbols, version, bytes);
        let k = field_read(fields[0], symbols, version, bytes)->Ok_0.1;
        lemma_struct_read_typed(fields.drop_first(), symbols, version, bytes.skip(k as int));
    }
}

/// Groups of seven bits that are cut short end before the number does.
pub proof fn lemma_leb_truncated(n: nat, k: int, limit: nat)
    requires
        leb(n).len() <= limit,
        0 <= k < leb(n).len(),
    ensures
        unleb(leb(n).take(k), limit) == Err::<(nat, nat), WireFault>(WireFault::UnexpectedEof),
    decreases n,
{
    let cut = leb(n).take(k);
    if n >= 128 && k > 0 {
        assert(cut.drop_first() =~= leb(n / 128).take(k - 1));
        lemma_leb_truncated(n / 128, k - 1, (limit - 1) as nat);
    }
}

/// The bytes of a single value that are cut short end before the value does.
pub proof fn lemma_scalar_truncated(v: ScalarView, varint: bool, k: int)
    requires
        scalar_writable(v),
        0 <= k < scalar_bytes(v, varint).len(),
    ensures
        scalar_read(v.scalar_type(), varint, scalar_bytes(v, varint).take(k)) == Err::<
            (ScalarView, nat),
            WireFault,
        >(WireFault::UnexpectedEof),
{
    reveal(scalar_bytes);
    reveal(scalar_read);
    let cut = scalar_bytes(v, varint).take(k);
    lemma_pow256_values();
    match v {
        ScalarView::Bool(_) => {},
        ScalarView::Text(text) => {
            let body = encode_utf8(text);
            let n = body.len() as int;
            lemma_be_len(to_unsigned(n, 2), 2);
            if k >= 2 {
                assert(cut =~= int_bytes(n, 2) + body.take(k - 2));
                lemma_int_round_trip(n, 2, body.take(k - 2));
            }
        },
        _ => {
            let width = int_width(v.scalar_type());
            if varint {
                assert(pow128(10) == 0x40_0000_0000_0000_0000) by {
                    reveal_with_fuel(pow128, 11);
                }
                lemma_leb_len(zigzag(int_of(v)), 10);
                lemma_leb_truncated(zigzag(int_of(v)), k, 10);
            } else {
                lemma_be_len(to_unsigned(int_of(v), width), width);
            }
        },
    }
}

/// The bytes of a run of values that are cut short end before the run does.
pub proof fn lemma_items_truncated(ty: ScalarType, items: Seq<ScalarView>, varint: bool, k: int)
    requires
        forall|i: int| 0 <= i < items.len() ==> (#[trigger] items[i]).scalar_type() == ty,
        forall|i: int| 0 <= i < items.len() ==> scalar_writable(#[trigger] items[i]),
        0 <= k < items_bytes(items, varint).len(),
    ensures
        items_read(ty, varint, items_bytes(items, varint).take(k), items.len()) == Err::<
            (Seq<ScalarView>, nat),
            WireFault,
        >(WireFault::UnexpectedEof),
    decreases items.len(),
{
    if items.len() > 0 {
        let head = scalar_bytes(items[0], varint);
        let tail = items_bytes(items.drop_first(), varint);
        let cut = items_bytes(items, varint).take(k);
        if k < head.len() {
            assert(cut =~= head.take(k));
            lemma_scalar_truncated(items[0], varint, k);
        } else {
            let h = head.len() as int;
            assert(cut =~= head + tail.take(k - h));
            lemma_scalar_round_trip(items[0], varint, tail.take(k - h));
            assert(cut.skip(h) =~= tail.take(k - h));
            lemma_items_truncated(ty, items.drop_first(), varint, k - h);
        }
    }
}

/// The bytes of a value that are cut short end before the value does:
/// reading them fails with `UnexpectedEof`.
pub proof fn lemma_value_truncated(ty: FieldType, v: ValueView, varint: bool, k: int)
    requires
        v.has_type(ty),
        value_writable(v),
        0 <= k < value_bytes(v, varint).len(),
    ensures
        value_read(ty, varint, value_bytes(v, varint).take(k)) == Err::<(ValueView, nat), WireFault>(
            WireFault::UnexpectedEof,
        ),
{
    match v {
        ValueView::Scalar(s) => {
            lemma_scalar_truncated(s, varint, k);
        },
        ValueView::Array(items) => {
            let t = ty->Array_0;
            let count = items.len() as int;
            let body = items_bytes(items, varint);
            let cut = value_bytes(v, varint).take(k);
            lemma_pow256_values();
            lemma_be_len(to_unsigned(count, 4), 4);
            if k >= 4 {
                assert(cut =~= int_bytes(count, 4) + body.take(k - 4));
                lemma_int_round_trip(count, 4, body.take(k - 4));
                assert(cut.skip(4) =~= body.take(k - 4));
                lemma_items_truncated(t, items, varint, k - 4);
            }
        },
        _ => {},
    }
}

/// The bytes of a field that is on the wire, cut short, are not read as a
/// value: reading fails with `UnexpectedEof`, which names the field.
pub proof fn lemma_field_truncated(
    field: FieldSchemaView,
    symbols: SymbolTable,
    version: i16,
    value: ValueView,
    k: int,
)
    requires
        presence(field, symbols, version) == Ok::<bool, CodecFault>(true),
        value.has_type(field.ty),
        value_writable(value),
        0 <= k < value_bytes(value, field.varint).len(),
    ensures
        field_read(field, symbols, version, value_bytes(value, field.varint).take(k)) == Err::<
            (ValueView, nat),
            CodecFault,
        >(CodecFault::UnexpectedEof { field: field.name }),
{
    lemma_value_truncated(field.ty, value, field.varint, k);
}

/// The bytes of a structure none of whose fields holds a structure, cut
/// short anywhere, are not read as a structure: reading fails with
/// `UnexpectedEof` at the first field whose bytes are not all there, and
/// gives no values.
pub proof fn lemma_struct_truncated(
    fields: Seq<FieldSchemaView>,
    symbols: SymbolTable,
    version: i16,
    values: Seq<ValueView>,
    k: int,
)
    requires
        struct_bytes(fields, symbols, version, values) is Ok,
        defaults_ok(fields, symbols, version),
        plain_fields(fields),
        0 <= k < struct_bytes(fields, symbols, version, values)->Ok_0.len(),
    ensures
        struct_read(
            fields,
            symbols,
            version,
            struct_bytes(fields, symbols, version, values)->Ok_0.take(k),
        ) matches Err(CodecFault::UnexpectedEof { .. }),
    decreases fields.len(),
{
    let bytes = struct_bytes(fields, symbols, version, values)->Ok_0;
    let cut = bytes.take(k);
    if fields.len() > 0 {
        let field = fields[0];
        let head = field_bytes(field, symbols, version, values[0])->Ok_0;
        let tail = struct_bytes(fields.drop_first(), symbols, version, values.drop_first())->Ok_0;
        assert(plain(field.ty));
        assert(plain_fields(fields.drop_first())) by {
            assert forall|i: int| 0 <= i < fields.drop_first().len() implies plain(
                (#[trigger] fields.drop_first()[i]).ty,
            ) by {
                assert(fields.drop_first()[i] == fields[i + 1]);
            }
        }
        assert(defaults_ok(fields.drop_first(), symbols, version)) by {
            assert forall|i: int|
                0 <= i < fields.drop_first().len() && presence(
                    #[trigger] fields.drop_first()[i],
                    symbols,
                    version,
                ) == Ok::<bool, CodecFault>(false) implies fields.drop_first()[i].ty.absent(
                fields.drop_first()[i].default_value,
            ) is Some by {
                assert(fields.drop_first()[i] == fields[i + 1]);
            }
        }
        if presence(field, symbols, version) == Ok::<bool, CodecFault>(true) {
            assert(head == value_bytes(values[0], field.varint));
            if k < head.len() {
                assert(cut =~= head.take(k));
                lemma_field_truncated(field, symbols, version, values[0], k);
                assert(field_read(field, symbols, version, cut) is Err);
            } else {
                let h = head.len() as int;
                assert(cut =~= head + tail.take(k - h));
                lemma_value_round_trip(field.ty, values[0], field.varint, tail.take(k - h));
                assert(cut.skip(h) =~= tail.take(k - h));
                lemma_struct_truncated(
                    fields.drop_first(),
                    symbols,
                    version,
                    values.drop_first(),
                    k - h,
                );
                assert(field_read(field, symbols, version, cut) == Ok::<
                    (ValueView, nat),
                    CodecFault,
                >((values[0], head.len())));
                assert(struct_read(fields.drop_first(), symbols, version, cut.skip(h)) is Err);
            }
        } else {
            assert(cut.skip(0) =~= cut);
            assert(head =~= Seq::<u8>::empty());
            assert(bytes =~= tail);
            lemma_struct_truncated(fields.drop_first(), symbols, version, values.drop_first(), k);
            assert(field_read(field, symbols, version, cut) == Ok::<(ValueView, nat), CodecFault>(
                (field.ty.absent(field.default_value)->0, 0),
            ));
            assert(struct_read(fields.drop_first(), symbols, version, cut.skip(0)) is Err);
        }
    }
}

} // verus!
