//! What holds of structures within structures: a value that was written
//! is read back, field by field and row by row, and bytes that are cut
//! short are not read.

use crate::bound::SymbolTable;
use crate::codec::{
    absent_at, field_bytes_at, field_read_at, lemma_value_round_trip, presence, rows_bytes_at,
    rows_read_at, struct_bytes, struct_bytes_at, struct_read, struct_read_at,
};
use crate::error::CodecFault;
use crate::laws::lemma_value_truncated;
use crate::schema::FieldSchemaView;
use crate::value::{FieldType, ValueView};
use crate::wire::{int_bytes, lemma_int_round_trip, lemma_pow256_values};
use vstd::prelude::*;

verus! {

/// What reading gives back for the value of a field that was written
/// below `level`: the value itself where the field is on the wire, a
/// structure with what reading gives back for its own fields; and where
/// the field is not on the wire, the value that it takes then. The fault
/// is that of the first field, in the order of the wire, that is not on
/// the wire and has no value to take.
pub open spec fn field_back_at(
    level: nat,
    field: FieldSchemaView,
    symbols: SymbolTable,
    version: i16,
    value: ValueView,
) -> Result<ValueView, CodecFault>
    decreases level, 0nat, 0nat,
{
    match presence(field, symbols, version) {
        Ok(true) => match (field.ty, value) {
            (FieldType::Struct(id), ValueView::Struct(values)) => if symbols.holds(id, level) {
                match struct_back_at(id as nat, symbols.structure(id), symbols, version, values) {
                    Ok(found) => Ok(ValueView::Struct(found)),
                    Err(fault) => Err(fault),
                }
            } else {
                Err(CodecFault::TypeMismatch { field: field.name })
            },
            (FieldType::StructArray(id), ValueView::StructArray(rows)) => if symbols.holds(
                id,
                level,
            ) {
                match rows_back_at(id as nat, symbols.structure(id), symbols, version, rows) {
                    Ok(found) => Ok(ValueView::StructArray(found)),
                    Err(fault) => Err(fault),
                }
            } else {
                Err(CodecFault::TypeMismatch { field: field.name })
            },
            _ => Ok(value),
        },
        Ok(false) => match absent_at(level, field, symbols) {
            Some(found) => Ok(found),
            None => Err(CodecFault::TypeMismatch { field: field.name }),
        },
        Err(fault) => Err(fault),
    }
}

/// What reading gives back for the values of a structure that was written
/// at `level`, field by field.
pub open spec fn struct_back_at(
    level: nat,
    fields: Seq<FieldSchemaView>,
    symbols: SymbolTable,
    version: i16,
    values: Seq<ValueView>,
) -> Result<Seq<ValueView>, CodecFault>
    decreases level, 1nat, fields.len(),
{
    if fields.len() == 0 || values.len() == 0 {
        Ok(Seq::empty())
    } else {
        match field_back_at(level, fields[0], symbols, version, values[0]) {
            Ok(first) => match struct_back_at(
                level,
                fields.drop_first(),
                symbols,
                version,
                values.drop_first(),
            ) {
                Ok(rest) => Ok(seq![first] + rest),
                Err(fault) => Err(fault),
            },
            Err(fault) => Err(fault),
        }
    }
}

/// What reading gives back for a run of structures that was written, row
/// by row.
pub open spec fn rows_back_at(
    level: nat,
    fields: Seq<FieldSchemaView>,
    symbols: SymbolTable,
    version: i16,
    rows: Seq<Seq<ValueView>>,
) -> Result<Seq<Seq<ValueView>>, CodecFault>
    decreases level, 2nat, rows.len(),
{
    if rows.len() == 0 {
        Ok(Seq::empty())
    } else {
        match struct_back_at(level, fields, symbols, version, rows[0]) {
            Ok(first) => match rows_back_at(level, fields, symbols, version, rows.drop_first()) {
                Ok(rest) => Ok(seq![first] + rest),
                Err(fault) => Err(fault),
            },
            Err(fault) => Err(fault),
        }
    }
}

/// What a reading must be where the bytes that were written are read
/// again: what reading gives back, and the length of the bytes.
pub open spec fn read_again<T>(back: Result<T, CodecFault>, bytes: Seq<u8>) -> Result<
    (T, nat),
    CodecFault,
> {
    match back {
        Ok(found) => Ok((found, bytes.len())),
        Err(fault) => Err(fault),
    }
}

/// A field that can be written below `level`, whatever its type, is read
/// back from its bytes at the same version, whatever follows them.
pub proof fn lemma_field_round_trip_at(
    level: nat,
    field: FieldSchemaView,
    symbols: SymbolTable,
    version: i16,
    value: ValueView,
    rest: Seq<u8>,
)
    requires
        field_bytes_at(level, field, symbols, version, value) is Ok,
    ensures
        field_read_at(
            level,
            field,
            symbols,
            version,
            field_bytes_at(level, field, symbols, version, value)->Ok_0 + rest,
        ) == read_again(
            field_back_at(level, field, symbols, version, value),
            field_bytes_at(level, field, symbols, version, value)->Ok_0,
        ),
    decreases level, 0nat, 0nat,
{
    let bytes = field_bytes_at(level, field, symbols, version, value)->Ok_0;
    if presence(field, symbols, version) == Ok::<bool, CodecFault>(true) {
        match (field.ty, value) {
            (FieldType::Struct(id), ValueView::Struct(values)) => {
                lemma_struct_round_trip_at(
                    id as nat,
                    symbols.structure(id),
                    symbols,
                    version,
                    values,
                    rest,
                );
            },
            (FieldType::StructArray(id), ValueView::StructArray(rows)) => {
                let fields = symbols.structure(id);
                let body = rows_bytes_at(id as nat, fields, symbols, version, rows)->Ok_0;
                let count = rows.len() as int;
                lemma_pow256_values();
                lemma_int_round_trip(count, 4, body + rest);
                assert(bytes + rest =~= int_bytes(count, 4) + (body + rest));
                assert((bytes + rest).skip(4) =~= body + rest);
                lemma_rows_round_trip_at(id as nat, fields, symbols, version, rows, rest);
            },
            _ => {
                lemma_value_round_trip(field.ty, value, field.varint, rest);
            },
        }
    } else {
        assert(bytes =~= Seq::<u8>::empty());
    }
}

/// A structure that can be written at `level` is read back from its bytes
/// at the same version, whatever follows them.
pub proof fn lemma_struct_round_trip_at(
    level: nat,
    fields: Seq<FieldSchemaView>,
    symbols: SymbolTable,
    version: i16,
    values: Seq<ValueView>,
    rest: Seq<u8>,
)
    requires
        struct_bytes_at(level, fields, symbols, version, values) is Ok,
    ensures
        struct_read_at(
            level,
            fields,
            symbols,
            version,
            struct_bytes_at(level, fields, symbols, version, values)->Ok_0 + rest,
        ) == read_again(
            struct_back_at(level, fields, symbols, version, values),
            struct_bytes_at(level, fields, symbols, version, values)->Ok_0,
        ),
    decreases level, 1nat, fields.len(),
{
    let bytes = struct_bytes_at(level, fields, symbols, version, values)->Ok_0;
    if fields.len() > 0 {
        let head = field_bytes_at(level, fields[0], symbols, version, values[0])->Ok_0;
        let tail = struct_bytes_at(
            level,
            fields.drop_first(),
            symbols,
            version,
            values.drop_first(),
        )->Ok_0;
        assert(bytes + rest =~= head + (tail + rest));
        lemma_field_round_trip_at(level, fields[0], symbols, version, values[0], tail + rest);
        assert((head + (tail + rest)).skip(head.len() as int) =~= tail + rest);
        lemma_struct_round_trip_at(
            level,
            fields.drop_first(),
            symbols,
            version,
            values.drop_first(),
            rest,
        );
    }
}

/// A run of structures that can be written at `level` is read back from
/// its bytes at the same version, whatever follows them.
pub proof fn lemma_rows_round_trip_at(
    level: nat,
    fields: Seq<FieldSchemaView>,
    symbols: SymbolTable,
    version: i16,
    rows: Seq<Seq<ValueView>>,
    rest: Seq<u8>,
)
    requires
        rows_bytes_at(level, fields, symbols, version, rows) is Ok,
    ensures
        rows_read_at(
            level,
            fields,
            symbols,
            version,
            rows_bytes_at(level, fields, symbols, version, rows)->Ok_0 + rest,
            rows.len(),
        ) == read_again(
            rows_back_at(level, fields, symbols, version, rows),
            rows_bytes_at(level, fields, symbols, version, rows)->Ok_0,
        ),
    decreases level, 2nat, rows.len(),
{
    let bytes = rows_bytes_at(level, fields, symbols, version, rows)->Ok_0;
    if rows.len() > 0 {
        let head = struct_bytes_at(level, fields, symbols, version, rows[0])->Ok_0;
        let tail = rows_bytes_at(level, fields, symbols, version, rows.drop_first())->Ok_0;
        assert(bytes + rest =~= head + (tail + rest));
        lemma_struct_round_trip_at(level, fields, symbols, version, rows[0], tail + rest);
        assert((head + (tail + rest)).skip(head.len() as int) =~= tail + rest);
        lemma_rows_round_trip_at(level, fields, symbols, version, rows.drop_first(), rest);
    }
}

/// What reading gives back for the values of a structure that was handed
/// in and written.
pub open spec fn struct_back(
    fields: Seq<FieldSchemaView>,
    symbols: SymbolTable,
    version: i16,
    values: Seq<ValueView>,
) -> Result<Seq<ValueView>, CodecFault> {
    struct_back_at(symbols.structures@.len(), fields, symbols, version, values)
}

/// A structure that can be written, whatever its fields hold, is read
/// back at the same version and whatever follows its bytes: a field that
/// is on the wire has the value that was written, and within it the same
/// holds of the fields of a structure; every other field has the value
/// that it takes where it is not on the wire. Reading fails only where
/// such a field has no value to take.
pub proof fn lemma_nested_round_trip(
    fields: Seq<FieldSchemaView>,
    symbols: SymbolTable,
    version: i16,
    values: Seq<ValueView>,
    rest: Seq<u8>,
)
    requires
        struct_bytes(fields, symbols, version, values) is Ok,
    ensures
        struct_read(
            fields,
            symbols,
            version,
            struct_bytes(fields, symbols, version, values)->Ok_0 + rest,
        ) == read_again(
            struct_back(fields, symbols, version, values),
            struct_bytes(fields, symbols, version, values)->Ok_0,
        ),
{
    lemma_struct_round_trip_at(symbols.structures@.len(), fields, symbols, version, values, rest);
}

/// The bytes of a field that is on the wire, whatever its type, cut short
/// anywhere, are not read as a value: reading fails with `UnexpectedEof`,
/// which names the field, or the field of a structure within it, whose
/// bytes are not all there.
pub proof fn lemma_field_truncated_at(
    level: nat,
    field: FieldSchemaView,
    symbols: SymbolTable,
    version: i16,
    value: ValueView,
    k: int,
)
    requires
        field_bytes_at(level, field, symbols, version, value) is Ok,
        field_back_at(level, field, symbols, version, value) is Ok,
        0 <= k < field_bytes_at(level, field, symbols, version, value)->Ok_0.len(),
    ensures
        field_read_at(
            level,
            field,
            symbols,
            version,
            field_bytes_at(level, field, symbols, version, value)->Ok_0.take(k),
        ) matches Err(CodecFault::UnexpectedEof { .. }),
    decreases level, 0nat, 0nat,
{
    let bytes = field_bytes_at(level, field, symbols, version, value)->Ok_0;
    let cut = bytes.take(k);
    match (field.ty, value) {
        (FieldType::Struct(id), ValueView::Struct(values)) => {
            lemma_struct_truncated_at(
                id as nat,
                symbols.structure(id),
                symbols,
                version,
                values,
                k,
            );
        },
        (FieldType::StructArray(id), ValueView::StructArray(rows)) => {
            let fields = symbols.structure(id);
            let body = rows_bytes_at(id as nat, fields, symbols, version, rows)->Ok_0;
            let count = rows.len() as int;
            lemma_pow256_values();
            lemma_int_round_trip(count, 4, body.take(k - 4));
            if k >= 4 {
                assert(cut =~= int_bytes(count, 4) + body.take(k - 4));
                assert(cut.skip(4) =~= body.take(k - 4));
                lemma_rows_truncated_at(id as nat, fields, symbols, version, rows, k - 4);
            }
        },
        _ => {
            lemma_value_truncated(field.ty, value, field.varint, k);
        },
    }
}

/// The bytes of a structure, whatever its fields hold, cut short anywhere,
/// are not read as a structure: reading fails with `UnexpectedEof` at the
/// first field whose bytes are not all there.
pub proof fn lemma_struct_truncated_at(
    level: nat,
    fields: Seq<FieldSchemaView>,
    symbols: SymbolTable,
    version: i16,
    values: Seq<ValueView>,
    k: int,
)
    requires
        struct_bytes_at(level, fields, symbols, version, values) is Ok,
        struct_back_at(level, fields, symbols, version, values) is Ok,
        0 <= k < struct_bytes_at(level, fields, symbols, version, values)->Ok_0.len(),
    ensures
        struct_read_at(
            level,
            fields,
            symbols,
            version,
            struct_bytes_at(level, fields, symbols, version, values)->Ok_0.take(k),
        ) matches Err(CodecFault::UnexpectedEof { .. }),
    decreases level, 1nat, fields.len(),
{
    let bytes = struct_bytes_at(level, fields, symbols, version, values)->Ok_0;
    let cut = bytes.take(k);
    if fields.len() > 0 {
        let head = field_bytes_at(level, fields[0], symbols, version, values[0])->Ok_0;
        let tail = struct_bytes_at(
            level,
            fields.drop_first(),
            symbols,
            version,
            values.drop_first(),
        )->Ok_0;
        if k < head.len() {
            assert(cut =~= head.take(k));
            lemma_field_truncated_at(level, fields[0], symbols, version, values[0], k);
        } else {
            let h = head.len() as int;
            assert(cut =~= head + tail.take(k - h));
            lemma_field_round_trip_at(
                level,
                fields[0],
                symbols,
                version,
                values[0],
                tail.take(k - h),
            );
            assert(cut.skip(h) =~= tail.take(k - h));
            lemma_struct_truncated_at(
                level,
                fields.drop_first(),
                symbols,
                version,
                values.drop_first(),
                k - h,
            );
        }
    }
}

/// The bytes of a run of structures, cut short anywhere, are not read as
/// the run: reading fails with `UnexpectedEof`.
pub proof fn lemma_rows_truncated_at(
    level: nat,
    fields: Seq<FieldSchemaView>,
    symbols: SymbolTable,
    version: i16,
    rows: Seq<Seq<ValueView>>,
    k: int,
)
    requires
        rows_bytes_at(level, fields, symbols, version, rows) is Ok,
        rows_back_at(level, fields, symbols, version, rows) is Ok,
        0 <= k < rows_bytes_at(level, fields, symbols, version, rows)->Ok_0.len(),
    ensures
        rows_read_at(
            level,
            fields,
            symbols,
            version,
            rows_bytes_at(level, fields, symbols, version, rows)->Ok_0.take(k),
            rows.len(),
        ) matches Err(CodecFault::UnexpectedEof { .. }),
    decreases level, 2nat, rows.len(),
{
    let bytes = rows_bytes_at(level, fields, symbols, version, rows)->Ok_0;
    let cut = bytes.take(k);
    if rows.len() > 0 {
        let head = struct_bytes_at(level, fields, symbols, version, rows[0])->Ok_0;
        let tail = rows_bytes_at(level, fields, symbols, version, rows.drop_first())->Ok_0;
        if k < head.len() {
            assert(cut =~= head.take(k));
            lemma_struct_truncated_at(level, fields, symbols, version, rows[0], k);
        } else {
            let h = head.len() as int;
            assert(cut =~= head + tail.take(k - h));
            lemma_struct_round_trip_at(level, fields, symbols, version, rows[0], tail.take(k - h));
            assert(cut.skip(h) =~= tail.take(k - h));
            lemma_rows_truncated_at(level, fields, symbols, version, rows.drop_first(), k - h);
        }
    }
}

/// The bytes of a structure that was handed in, whatever its fields hold,
/// cut short anywhere, are not read as a structure: reading fails with
/// `UnexpectedEof` and gives no values. The structure must be one that is
/// read back where its bytes are whole.
pub proof fn lemma_nested_truncated(
    fields: Seq<FieldSchemaView>,
    symbols: SymbolTable,
    version: i16,
    values: Seq<ValueView>,
    k: int,
)
    requires
        struct_bytes(fields, symbols, version, values) is Ok,
        struct_back(fields, symbols, version, values) is Ok,
        0 <= k < struct_bytes(fields, symbols, version, values)->Ok_0.len(),
    ensures
        struct_read(
            fields,
            symbols,
            version,
            struct_bytes(fields, symbols, version, values)->Ok_0.take(k),
        ) matches Err(CodecFault::UnexpectedEof { .. }),
{
    lemma_struct_truncated_at(symbols.structures@.len(), fields, symbols, version, values, k);
}

} // verus!
