//! The messages of a fetch: what a consumer or a follower asks a broker
//! for, and what comes back.

use crate::bound::{PropAttrsType, SymbolTable, VersionBound};
use crate::codec::{
    decode_struct, encode_struct, struct_bytes, struct_logged, struct_read, SkipLog,
};
use crate::envelope::ApiEnvelope;
use crate::error::{CodecError, CodecFault, SchemaError};
use crate::laws::lemma_struct_read_typed;
use crate::schema::{FieldSchema, FieldSchemaView, StructureSchema};
use crate::value::{
    lemma_rows_view, row_views, scalar_views, value_views, FieldType, Scalar, ScalarType,
    ScalarView, Value, ValueView,
};
use vstd::prelude::*;
use vstd::string::*;

verus! {

/// The schema of a field that is there from `min` on, with none of the
/// other attributes but `ignorable`.
pub open spec fn plain_field(name: Seq<char>, ty: FieldType, min: i16, ignorable: bool) -> FieldSchemaView {
    FieldSchemaView {
        name: Some(name),
        ty,
        min_version: VersionBound::Constant(min),
        max_version: None,
        default_value: None,
        varint: false,
        ignorable,
    }
}

/// Makes the schema of a field that is there from `min` on.
fn field(name: &str, ty: FieldType, min: i16, ignorable: bool) -> (r: FieldSchema)
    ensures
        r@ == plain_field(name@, ty, min, ignorable),
{
    FieldSchema {
        name: Some(name.to_owned()),
        ty,
        min_version: PropAttrsType::Int(min),
        max_version: None,
        default_value: None,
        varint: false,
        ignorable,
    }
}

/// One partition of a topic to fetch from.
#[derive(Debug)]
pub struct FetchPartition {
    /// The partition index.
    pub partition_index: i32,
    /// The current leader epoch of the partition.
    pub current_leader_epoch: i32,
    /// The message offset.
    pub fetch_offset: i64,
    /// The earliest available offset of the follower replica.
    pub log_start_offset: i64,
    /// The maximum bytes to fetch from this partition.
    pub max_bytes: i32,
}

impl Default for FetchPartition {
    fn default() -> (r: FetchPartition)
        ensures
            r == (FetchPartition {
                partition_index: 0,
                current_leader_epoch: 0,
                fetch_offset: 0,
                log_start_offset: 0,
                max_bytes: 0,
            }),
    {
        FetchPartition {
            partition_index: 0,
            current_leader_epoch: 0,
            fetch_offset: 0,
            log_start_offset: 0,
            max_bytes: 0,
        }
    }
}

impl FetchPartition {
    /// The fields of a partition to fetch from, in the order of the wire.
    pub open spec fn spec_schema() -> Seq<FieldSchemaView> {
        seq![
            plain_field("partition_index"@, FieldType::Scalar(ScalarType::Int32), 0, false),
            plain_field("current_leader_epoch"@, FieldType::Scalar(ScalarType::Int32), 9, true),
            plain_field("fetch_offset"@, FieldType::Scalar(ScalarType::Int64), 0, false),
            plain_field("log_start_offset"@, FieldType::Scalar(ScalarType::Int64), 5, false),
            plain_field("max_bytes"@, FieldType::Scalar(ScalarType::Int32), 0, false),
        ]
    }

    /// The values of the fields, in the order of the schema.
    pub open spec fn spec_values(self) -> Seq<ValueView> {
        seq![
            ValueView::Scalar(ScalarView::Int32(self.partition_index)),
            ValueView::Scalar(ScalarView::Int32(self.current_leader_epoch)),
            ValueView::Scalar(ScalarView::Int64(self.fetch_offset)),
            ValueView::Scalar(ScalarView::Int64(self.log_start_offset)),
            ValueView::Scalar(ScalarView::Int32(self.max_bytes)),
        ]
    }

    /// The fields of a partition to fetch from, in the order of the wire.
    pub fn schema() -> (r: StructureSchema)
        ensures
            r@ == FetchPartition::spec_schema(),
    {
        let mut fields: Vec<FieldSchema> = Vec::new();
        fields.push(field("partition_index", FieldType::Scalar(ScalarType::Int32), 0, false));
        fields.push(field("current_leader_epoch", FieldType::Scalar(ScalarType::Int32), 9, true));
        fields.push(field("fetch_offset", FieldType::Scalar(ScalarType::Int64), 0, false));
        fields.push(field("log_start_offset", FieldType::Scalar(ScalarType::Int64), 5, false));
        fields.push(field("max_bytes", FieldType::Scalar(ScalarType::Int32), 0, false));
        StructureSchema { fields }
    }

    /// The values of the fields, in the order of the schema.
    pub fn to_values(&self) -> (r: Vec<Value>)
        ensures
            value_views(r@) == self.spec_values(),
    {
        let mut values: Vec<Value> = Vec::new();
        values.push(Value::Scalar(Scalar::Int32(self.partition_index)));
        values.push(Value::Scalar(Scalar::Int32(self.current_leader_epoch)));
        values.push(Value::Scalar(Scalar::Int64(self.fetch_offset)));
        values.push(Value::Scalar(Scalar::Int64(self.log_start_offset)));
        values.push(Value::Scalar(Scalar::Int32(self.max_bytes)));
        values
    }

    /// The partition whose fields have the given values; none where the
    /// values are not those of a partition.
    pub fn from_values(values: &Vec<Value>) -> (r: Option<FetchPartition>)
        ensures
            r matches Some(p) ==> p.spec_values() == value_views(values@),
            r is None ==> forall|p: FetchPartition| p.spec_values() != value_views(values@),
    {
        let ghost views = value_views(values@);
        if values.len() != 5 {
            assert forall|p: FetchPartition| p.spec_values() != views by {
                assert(p.spec_values().len() == 5);
            }
            return None;
        }
        match (&values[0], &values[1], &values[2], &values[3], &values[4]) {
            (
                Value::Scalar(Scalar::Int32(partition_index)),
                Value::Scalar(Scalar::Int32(current_leader_epoch)),
                Value::Scalar(Scalar::Int64(fetch_offset)),
                Value::Scalar(Scalar::Int64(log_start_offset)),
                Value::Scalar(Scalar::Int32(max_bytes)),
            ) => {
                let p = FetchPartition {
                    partition_index: *partition_index,
                    current_leader_epoch: *current_leader_epoch,
                    fetch_offset: *fetch_offset,
                    log_start_offset: *log_start_offset,
                    max_bytes: *max_bytes,
                };
                Some(p)
            },
            _ => {
                None
            },
        }
    }

    /// Appends the bytes of the partition at `version`.
    pub fn encode(&self, symbols: &SymbolTable, version: i16, dest: &mut Vec<u8>, log: &mut SkipLog) -> (r:
        Result<(), CodecError>)
        ensures
            match struct_bytes(FetchPartition::spec_schema(), *symbols, version, self.spec_values()) {
                Ok(bytes) => r is Ok && final(dest)@ == old(dest)@ + bytes && final(log)@
                    == struct_logged(
                    old(log)@,
                    old(log).enabled,
                    FetchPartition::spec_schema(),
                    *symbols,
                    version,
                    self.spec_values(),
                ),
                Err(fault) => r matches Err(e) && e@ == fault && final(dest)@ == old(dest)@
                    && final(log)@ == old(log)@,
            },
            final(log).enabled == old(log).enabled,
    {
        let schema = FetchPartition::schema();
        let values = self.to_values();
        encode_struct(&schema, symbols, version, values.as_slice(), dest, log)
    }

    /// Reads a partition at `version` from the start of `src`; gives the
    /// partition and how many bytes were read.
    pub fn decode(symbols: &SymbolTable, version: i16, src: &[u8], log: &mut SkipLog) -> (r: Result<
        (FetchPartition, usize),
        CodecError,
    >)
        ensures
            match struct_read(FetchPartition::spec_schema(), *symbols, version, src@) {
                Ok((values, k)) => r matches Ok((p, used)) && p.spec_values() == values && used
                    == k && used <= src@.len() && final(log)@ == struct_logged(
                    old(log)@,
                    old(log).enabled,
                    FetchPartition::spec_schema(),
                    *symbols,
                    version,
                    values,
                ),
                Err(fault) => r matches Err(e) && e@ == fault && final(log)@ == old(log)@,
            },
            final(log).enabled == old(log).enabled,
    {
        let schema = FetchPartition::schema();
        let (values, used) = decode_struct(&schema, symbols, version, src, log)?;
        proof {
            let fields = FetchPartition::spec_schema();
            let views = value_views(values@);
            lemma_struct_read_typed(fields, *symbols, version, src@);
            let p = FetchPartition {
                partition_index: views[0]->Scalar_0->Int32_0,
                current_leader_epoch: views[1]->Scalar_0->Int32_0,
                fetch_offset: views[2]->Scalar_0->Int64_0,
                log_start_offset: views[3]->Scalar_0->Int64_0,
                max_bytes: views[4]->Scalar_0->Int32_0,
            };
            assert(p.spec_values() =~= views);
        }
        match FetchPartition::from_values(&values) {
            Some(p) => Ok((p, used)),
            None => Err(CodecError::TypeMismatch { field: None }),
        }
    }
}

/// A transaction that was aborted.
#[derive(Debug)]
pub struct AbortedTransaction {
    /// The producer id associated with the aborted transaction.
    pub producer_id: i64,
    /// The first offset in the aborted transaction.
    pub first_offset: i64,
}

impl Default for AbortedTransaction {
    fn default() -> (r: AbortedTransaction)
        ensures
            r == (AbortedTransaction { producer_id: 0, first_offset: 0 }),
    {
        AbortedTransaction { producer_id: 0, first_offset: 0 }
    }
}

impl AbortedTransaction {
    /// The fields of an aborted transaction, in the order of the wire.
    pub open spec fn spec_schema() -> Seq<FieldSchemaView> {
        seq![
            plain_field("producer_id"@, FieldType::Scalar(ScalarType::Int64), 4, false),
            plain_field("first_offset"@, FieldType::Scalar(ScalarType::Int64), 4, false),
        ]
    }

    /// The values of the fields, in the order of the schema.
    pub open spec fn spec_values(self) -> Seq<ValueView> {
        seq![
            ValueView::Scalar(ScalarView::Int64(self.producer_id)),
            ValueView::Scalar(ScalarView::Int64(self.first_offset)),
        ]
    }

    /// The fields of an aborted transaction, in the order of the wire.
    pub fn schema() -> (r: StructureSchema)
        ensures
            r@ == AbortedTransaction::spec_schema(),
    {
        let mut fields: Vec<FieldSchema> = Vec::new();
        fields.push(field("producer_id", FieldType::Scalar(ScalarType::Int64), 4, false));
        fields.push(field("first_offset", FieldType::Scalar(ScalarType::Int64), 4, false));
        StructureSchema { fields }
    }

    /// The values of the fields, in the order of the schema.
    pub fn to_values(&self) -> (r: Vec<Value>)
        ensures
            value_views(r@) == self.spec_values(),
    {
        let mut values: Vec<Value> = Vec::new();
        values.push(Value::Scalar(Scalar::Int64(self.producer_id)));
        values.push(Value::Scalar(Scalar::Int64(self.first_offset)));
        values
    }

    /// The transaction whose fields have the given values; none where the
    /// values are not those of a transaction.
    pub fn from_values(values: &Vec<Value>) -> (r: Option<AbortedTransaction>)
        ensures
            r matches Some(t) ==> t.spec_values() == value_views(values@),
            r is None ==> forall|t: AbortedTransaction| t.spec_values() != value_views(values@),
    {
        let ghost views = value_views(values@);
        if values.len() != 2 {
            assert forall|t: AbortedTransaction| t.spec_values() != views by {
                assert(t.spec_values().len() == 2);
            }
            return None;
        }
        match (&values[0], &values[1]) {
            (Value::Scalar(Scalar::Int64(producer_id)), Value::Scalar(Scalar::Int64(first_offset))) => {
                let t = AbortedTransaction {
                    producer_id: *producer_id,
                    first_offset: *first_offset,
                };
                Some(t)
            },
            _ => {
                None
            },
        }
    }

    /// Appends the bytes of the transaction at `version`.
    pub fn encode(&self, symbols: &SymbolTable, version: i16, dest: &mut Vec<u8>, log: &mut SkipLog) -> (r:
        Result<(), CodecError>)
        ensures
            match struct_bytes(
                AbortedTransaction::spec_schema(),
                *symbols,
                version,
                self.spec_values(),
            ) {
                Ok(bytes) => r is Ok && final(dest)@ == old(dest)@ + bytes && final(log)@
                    == struct_logged(
                    old(log)@,
                    old(log).enabled,
                    AbortedTransaction::spec_schema(),
                    *symbols,
                    version,
                    self.spec_values(),
                ),
                Err(fault) => r matches Err(e) && e@ == fault && final(dest)@ == old(dest)@
                    && final(log)@ == old(log)@,
            },
            final(log).enabled == old(log).enabled,
    {
        let schema = AbortedTransaction::schema();
        let values = self.to_values();
        encode_struct(&schema, symbols, version, values.as_slice(), dest, log)
    }

    /// Reads a transaction at `version` from the start of `src`; gives the
    /// transaction and how many bytes were read.
    pub fn decode(symbols: &SymbolTable, version: i16, src: &[u8], log: &mut SkipLog) -> (r: Result<
        (AbortedTransaction, usize),
        CodecError,
    >)
        ensures
            match struct_read(AbortedTransaction::spec_schema(), *symbols, version, src@) {
                Ok((values, k)) => r matches Ok((t, used)) && t.spec_values() == values && used
                    == k && used <= src@.len() && final(log)@ == struct_logged(
                    old(log)@,
                    old(log).enabled,
                    AbortedTransaction::spec_schema(),
                    *symbols,
                    version,
                    values,
                ),
                Err(fault) => r matches Err(e) && e@ == fault && final(log)@ == old(log)@,
            },
            final(log).enabled == old(log).enabled,
    {
        let schema = AbortedTransaction::schema();
        let (values, used) = decode_struct(&schema, symbols, version, src, log)?;
        proof {
            let fields = AbortedTransaction::spec_schema();
            let views = value_views(values@);
            lemma_struct_read_typed(fields, *symbols, version, src@);
            let t = AbortedTransaction {
                producer_id: views[0]->Scalar_0->Int64_0,
                first_offset: views[1]->Scalar_0->Int64_0,
            };
            assert(t.spec_values() =~= views);
        }
        match AbortedTransaction::from_values(&values) {
            Some(t) => Ok((t, used)),
            None => Err(CodecError::TypeMismatch { field: None }),
        }
    }
}

/// The values of partition indexes.
pub open spec fn index_views(indexes: Seq<i32>) -> Seq<ScalarView> {
    Seq::new(indexes.len(), |i: int| ScalarView::Int32(indexes[i]))
}

/// A topic whose partitions are to be forgotten.
#[derive(Debug)]
pub struct ForgottenTopic {
    /// The partition name.
    pub name: String,
    /// The partitions indexes to forget.
    pub forgotten_partition_indexes: Vec<i32>,
}

impl Default for ForgottenTopic {
    fn default() -> (r: ForgottenTopic)
        ensures
            r.name@ == Seq::<char>::empty(),
            r.forgotten_partition_indexes@ == Seq::<i32>::empty(),
    {
        ForgottenTopic { name: String::new(), forgotten_partition_indexes: Vec::new() }
    }
}

impl ForgottenTopic {
    /// The fields of a forgotten topic, in the order of the wire.
    pub open spec fn spec_schema() -> Seq<FieldSchemaView> {
        seq![
            plain_field("name"@, FieldType::Scalar(ScalarType::Text), 7, false),
            plain_field(
                "forgotten_partition_indexes"@,
                FieldType::Array(ScalarType::Int32),
                7,
                false,
            ),
        ]
    }

    /// The values of the fields, in the order of the schema.
    pub open spec fn spec_values(self) -> Seq<ValueView> {
        seq![
            ValueView::Scalar(ScalarView::Text(self.name@)),
            ValueView::Array(index_views(self.forgotten_partition_indexes@)),
        ]
    }

    /// The fields of a forgotten topic, in the order of the wire.
    pub fn schema() -> (r: StructureSchema)
        ensures
            r@ == ForgottenTopic::spec_schema(),
    {
        let mut fields: Vec<FieldSchema> = Vec::new();
        fields.push(field("name", FieldType::Scalar(ScalarType::Text), 7, false));
        fields.push(
            field("forgotten_partition_indexes", FieldType::Array(ScalarType::Int32), 7, false),
        );
        StructureSchema { fields }
    }

    /// The values of the fields, in the order of the schema.
    pub fn to_values(&self) -> (r: Vec<Value>)
        ensures
            value_views(r@) == self.spec_values(),
    {
        let mut items: Vec<Scalar> = Vec::new();
        let n = self.forgotten_partition_indexes.len();
        let mut i: usize = 0;
        while i < n
            invariant
                n == self.forgotten_partition_indexes@.len(),
                i <= n,
                items@.len() == i,
                scalar_views(items@) == index_views(self.forgotten_partition_indexes@.take(i as int)),
            decreases n - i,
        {
            let ghost before = items@;
            items.push(Scalar::Int32(self.forgotten_partition_indexes[i]));
            proof {
                let indexes = self.forgotten_partition_indexes@;
                assert forall|j: int| 0 <= j < i + 1 implies scalar_views(items@)[j]
                    == index_views(indexes.take(i + 1))[j] by {
                    if j < i {
                        assert(scalar_views(before)[j] == index_views(indexes.take(i as int))[j]);
                    }
                }
            }
            i = i + 1;
        }
        assert(self.forgotten_partition_indexes@.take(n as int)
            =~= self.forgotten_partition_indexes@);
        let mut values: Vec<Value> = Vec::new();
        values.push(Value::Scalar(Scalar::Text(self.name.clone())));
        values.push(Value::Array(items));
        values
    }

    /// The topic whose fields have the given values; none where the values
    /// are not those of a topic.
    pub fn from_values(values: &Vec<Value>) -> (r: Option<ForgottenTopic>)
        ensures
            r matches Some(t) ==> t.spec_values() == value_views(values@),
            r is None ==> !(value_views(values@).len() == 2 && value_views(values@)[0].has_type(
                FieldType::Scalar(ScalarType::Text),
            ) && value_views(values@)[1].has_type(FieldType::Array(ScalarType::Int32))),
    {
        let ghost views = value_views(values@);
        if values.len() != 2 {
            return None;
        }
        match (&values[0], &values[1]) {
            (Value::Scalar(Scalar::Text(name)), Value::Array(items)) => {
                let mut indexes: Vec<i32> = Vec::new();
                let n = items.len();
                let mut i: usize = 0;
                while i < n
                    invariant
                        n == items@.len(),
                        i <= n,
                        views == value_views(values@),
                        views.len() == 2,
                        indexes@.len() == i,
                        views[1] == ValueView::Array(scalar_views(items@)),
                        index_views(indexes@) == scalar_views(items@).take(i as int),
                    decreases n - i,
                {
                    match &items[i] {
                        Scalar::Int32(index) => {
                            indexes.push(*index);
                        },
                        _ => {
                            assert(scalar_views(items@)[i as int].scalar_type()
                                != ScalarType::Int32);
                            return None;
                        },
                    }
                    i = i + 1;
                }
                assert(scalar_views(items@).take(n as int) =~= scalar_views(items@));
                let t = ForgottenTopic { name: name.clone(), forgotten_partition_indexes: indexes };
                Some(t)
            },
            _ => None,
        }
    }

    /// Appends the bytes of the topic at `version`.
    pub fn encode(&self, symbols: &SymbolTable, version: i16, dest: &mut Vec<u8>, log: &mut SkipLog) -> (r:
        Result<(), CodecError>)
        ensures
            match struct_bytes(ForgottenTopic::spec_schema(), *symbols, version, self.spec_values()) {
                Ok(bytes) => r is Ok && final(dest)@ == old(dest)@ + bytes && final(log)@
                    == struct_logged(
                    old(log)@,
                    old(log).enabled,
                    ForgottenTopic::spec_schema(),
                    *symbols,
                    version,
                    self.spec_values(),
                ),
                Err(fault) => r matches Err(e) && e@ == fault && final(dest)@ == old(dest)@
                    && final(log)@ == old(log)@,
            },
            final(log).enabled == old(log).enabled,
    {
        let schema = ForgottenTopic::schema();
        let values = self.to_values();
        encode_struct(&schema, symbols, version, values.as_slice(), dest, log)
    }

    /// Reads a topic at `version` from the start of `src`; gives the topic
    /// and how many bytes were read.
    pub fn decode(symbols: &SymbolTable, version: i16, src: &[u8], log: &mut SkipLog) -> (r: Result<
        (ForgottenTopic, usize),
        CodecError,
    >)
        ensures
            match struct_read(ForgottenTopic::spec_schema(), *symbols, version, src@) {
                Ok((values, k)) => r matches Ok((t, used)) && t.spec_values() == values && used
                    == k && used <= src@.len() && final(log)@ == struct_logged(
                    old(log)@,
                    old(log).enabled,
                    ForgottenTopic::spec_schema(),
                    *symbols,
                    version,
                    values,
                ),
                Err(fault) => r matches Err(e) && e@ == fault && final(log)@ == old(log)@,
            },
            final(log).enabled == old(log).enabled,
    {
        let schema = ForgottenTopic::schema();
        let (values, used) = decode_struct(&schema, symbols, version, src, log)?;
        proof {
            lemma_struct_read_typed(ForgottenTopic::spec_schema(), *symbols, version, src@);
        }
        match ForgottenTopic::from_values(&values) {
            Some(t) => Ok((t, used)),
            None => Err(CodecError::TypeMismatch { field: None }),
        }
    }
}

/// A topic to fetch from.
#[derive(Debug)]
pub struct FetchableTopic {
    /// The name of the topic to fetch.
    pub name: String,
    /// The partitions to fetch.
    pub fetch_partitions: Vec<FetchPartition>,
}

impl Default for FetchableTopic {
    fn default() -> (r: FetchableTopic)
        ensures
            r.name@ == Seq::<char>::empty(),
            r.fetch_partitions@ == Seq::<FetchPartition>::empty(),
    {
        FetchableTopic { name: String::new(), fetch_partitions: Vec::new() }
    }
}

/// The place of the schema of a partition to fetch from, among the
/// structures of `fetch_symbols`.
pub const PARTITION_PLACE: usize = 0;

/// The place of the schema of a topic to fetch from.
pub const TOPIC_PLACE: usize = 1;

/// The place of the schema of a forgotten topic.
pub const FORGOTTEN_PLACE: usize = 2;

/// Whether the table holds the structures of a fetch request at their
/// places.
pub open spec fn holds_fetch(symbols: SymbolTable) -> bool {
    &&& symbols.structures@.len() >= 3
    &&& symbols.structure(PARTITION_PLACE) == FetchPartition::spec_schema()
    &&& symbols.structure(TOPIC_PLACE) == FetchableTopic::spec_schema()
    &&& symbols.structure(FORGOTTEN_PLACE) == ForgottenTopic::spec_schema()
}

/// A table that holds the structures of a fetch request at their places,
/// and nothing else.
pub fn fetch_symbols() -> (r: SymbolTable)
    ensures
        holds_fetch(r),
        r.structures@.len() == 3,
        r.constants@.len() == 0,
        r.functions@.len() == 0,
{
    let mut symbols = SymbolTable::new();
    let _ = symbols.define_structure(FetchPartition::schema());
    let _ = symbols.define_structure(FetchableTopic::schema());
    let _ = symbols.define_structure(ForgottenTopic::schema());
    symbols
}

/// The values of partitions to fetch from, one row for each.
pub open spec fn partition_rows(partitions: Seq<FetchPartition>) -> Seq<Seq<ValueView>> {
    Seq::new(partitions.len(), |i: int| partitions[i].spec_values())
}

/// The values of topics to fetch from, one row for each.
pub open spec fn topic_rows(topics: Seq<FetchableTopic>) -> Seq<Seq<ValueView>> {
    Seq::new(topics.len(), |i: int| topics[i].spec_values())
}

/// The values of forgotten topics, one row for each.
pub open spec fn forgotten_rows(topics: Seq<ForgottenTopic>) -> Seq<Seq<ValueView>> {
    Seq::new(topics.len(), |i: int| topics[i].spec_values())
}

/// The values of partitions to fetch from, one row for each.
fn rows_of_partitions(partitions: &Vec<FetchPartition>) -> (r: Vec<Vec<Value>>)
    ensures
        row_views(r@) == partition_rows(partitions@),
{
    let mut rows: Vec<Vec<Value>> = Vec::new();
    let n = partitions.len();
    let mut i: usize = 0;
    while i < n
        invariant
            n == partitions@.len(),
            i <= n,
            rows@.len() == i,
            forall|j: int|
                0 <= j < i ==> value_views((#[trigger] rows@[j])@) == partitions@[j].spec_values(),
        decreases n - i,
    {
        let row = partitions[i].to_values();
        rows.push(row);
        i = i + 1;
    }
    assert(row_views(rows@) =~= partition_rows(partitions@));
    rows
}

/// The partitions whose values the rows hold; none where a row does not
/// hold the values of a partition.
fn partitions_of_rows(rows: &Vec<Vec<Value>>) -> (r: Option<Vec<FetchPartition>>)
    ensures
        r matches Some(partitions) ==> partition_rows(partitions@) == row_views(rows@),
        r is None ==> forall|partitions: Seq<FetchPartition>|
            partition_rows(partitions) != row_views(rows@),
{
    let mut found: Vec<FetchPartition> = Vec::new();
    let n = rows.len();
    let mut i: usize = 0;
    while i < n
        invariant
            n == rows@.len(),
            i <= n,
            found@.len() == i,
            forall|j: int|
                0 <= j < i ==> (#[trigger] found@[j]).spec_values() == value_views(rows@[j]@),
        decreases n - i,
    {
        match FetchPartition::from_values(&rows[i]) {
            Some(p) => {
                found.push(p);
            },
            None => {
                proof {
                    assert forall|partitions: Seq<FetchPartition>|
                        partition_rows(partitions) != row_views(rows@) by {
                        if partition_rows(partitions) == row_views(rows@) {
                            assert(partition_rows(partitions).len() == row_views(rows@).len());
                            assert(partitions.len() == rows@.len());
                            assert(partition_rows(partitions)[i as int] == row_views(
                                rows@,
                            )[i as int]);
                            assert(partitions[i as int].spec_values() == value_views(
                                rows@[i as int]@,
                            ));
                        }
                    }
                }
                return None;
            },
        }
        i = i + 1;
    }
    assert(partition_rows(found@) =~= row_views(rows@));
    Some(found)
}

/// The values of topics to fetch from, one row for each.
fn rows_of_topics(topics: &Vec<FetchableTopic>) -> (r: Vec<Vec<Value>>)
    ensures
        row_views(r@) == topic_rows(topics@),
{
    let mut rows: Vec<Vec<Value>> = Vec::new();
    let n = topics.len();
    let mut i: usize = 0;
    while i < n
        invariant
            n == topics@.len(),
            i <= n,
            rows@.len() == i,
            forall|j: int|
                0 <= j < i ==> value_views((#[trigger] rows@[j])@) == topics@[j].spec_values(),
        decreases n - i,
    {
        let row = topics[i].to_values();
        rows.push(row);
        i = i + 1;
    }
    assert(row_views(rows@) =~= topic_rows(topics@));
    rows
}

/// The topics whose values the rows hold; none where a row does not hold
/// the values of a topic.
fn topics_of_rows(rows: &Vec<Vec<Value>>) -> (r: Option<Vec<FetchableTopic>>)
    ensures
        r matches Some(topics) ==> topic_rows(topics@) == row_views(rows@),
        r is None ==> forall|topics: Seq<FetchableTopic>| topic_rows(topics) != row_views(rows@),
{
    let mut found: Vec<FetchableTopic> = Vec::new();
    let n = rows.len();
    let mut i: usize = 0;
    while i < n
        invariant
            n == rows@.len(),
            i <= n,
            found@.len() == i,
            forall|j: int|
                0 <= j < i ==> (#[trigger] found@[j]).spec_values() == value_views(rows@[j]@),
        decreases n - i,
    {
        match FetchableTopic::from_values(&rows[i]) {
            Some(t) => {
                found.push(t);
            },
            None => {
                proof {
                    assert forall|topics: Seq<FetchableTopic>|
                        topic_rows(topics) != row_views(rows@) by {
                        if topic_rows(topics) == row_views(rows@) {
                            assert(topic_rows(topics).len() == row_views(rows@).len());
                            assert(topics.len() == rows@.len());
                            assert(topic_rows(topics)[i as int] == row_views(rows@)[i as int]);
                            assert(topics[i as int].spec_values() == value_views(rows@[i as int]@));
                        }
                    }
                }
                return None;
            },
        }
        i = i + 1;
    }
    assert(topic_rows(found@) =~= row_views(rows@));
    Some(found)
}

/// The values of forgotten topics, one row for each.
fn rows_of_forgotten(topics: &Vec<ForgottenTopic>) -> (r: Vec<Vec<Value>>)
    ensures
        row_views(r@) == forgotten_rows(topics@),
{
    let mut rows: Vec<Vec<Value>> = Vec::new();
    let n = topics.len();
    let mut i: usize = 0;
    while i < n
        invariant
            n == topics@.len(),
            i <= n,
            rows@.len() == i,
            forall|j: int|
                0 <= j < i ==> value_views((#[trigger] rows@[j])@) == topics@[j].spec_values(),
        decreases n - i,
    {
        let row = topics[i].to_values();
        rows.push(row);
        i = i + 1;
    }
    assert(row_views(rows@) =~= forgotten_rows(topics@));
    rows
}

/// The values of a forgotten topic are a text and a run of integers of
/// thirty-two bits.
proof fn lemma_forgotten_values_typed(t: ForgottenTopic)
    ensures
        t.spec_values().len() == 2,
        t.spec_values()[0].has_type(FieldType::Scalar(ScalarType::Text)),
        t.spec_values()[1].has_type(FieldType::Array(ScalarType::Int32)),
{
}

/// The forgotten topics whose values the rows hold; none where a row does
/// not hold the values of a forgotten topic.
fn forgotten_of_rows(rows: &Vec<Vec<Value>>) -> (r: Option<Vec<ForgottenTopic>>)
    ensures
        r matches Some(topics) ==> forgotten_rows(topics@) == row_views(rows@),
        r is None ==> forall|topics: Seq<ForgottenTopic>|
            forgotten_rows(topics) != row_views(rows@),
{
    let mut found: Vec<ForgottenTopic> = Vec::new();
    let n = rows.len();
    let mut i: usize = 0;
    while i < n
        invariant
            n == rows@.len(),
            i <= n,
            found@.len() == i,
            forall|j: int|
                0 <= j < i ==> (#[trigger] found@[j]).spec_values() == value_views(rows@[j]@),
        decreases n - i,
    {
        match ForgottenTopic::from_values(&rows[i]) {
            Some(t) => {
                found.push(t);
            },
            None => {
                proof {
                    assert forall|topics: Seq<ForgottenTopic>|
                        forgotten_rows(topics) != row_views(rows@) by {
                        if forgotten_rows(topics) == row_views(rows@) {
                            assert(forgotten_rows(topics).len() == row_views(rows@).len());
                            assert(topics.len() == rows@.len());
                            assert(forgotten_rows(topics)[i as int] == row_views(rows@)[i as int]);
                            assert(topics[i as int].spec_values() == value_views(rows@[i as int]@));
                            lemma_forgotten_values_typed(topics[i as int]);
                        }
                    }
                }
                return None;
            },
        }
        i = i + 1;
    }
    assert(forgotten_rows(found@) =~= row_views(rows@));
    Some(found)
}

impl FetchableTopic {
    /// The fields of a topic to fetch from, in the order of the wire.
    pub open spec fn spec_schema() -> Seq<FieldSchemaView> {
        seq![
            plain_field("name"@, FieldType::Scalar(ScalarType::Text), 0, false),
            plain_field("fetch_partitions"@, FieldType::StructArray(PARTITION_PLACE), 0, false),
        ]
    }

    /// The values of the fields, in the order of the schema.
    pub open spec fn spec_values(self) -> Seq<ValueView> {
        seq![
            ValueView::Scalar(ScalarView::Text(self.name@)),
            ValueView::StructArray(partition_rows(self.fetch_partitions@)),
        ]
    }

    /// The fields of a topic to fetch from, in the order of the wire.
    pub fn schema() -> (r: StructureSchema)
        ensures
            r@ == FetchableTopic::spec_schema(),
    {
        let mut fields: Vec<FieldSchema> = Vec::new();
        fields.push(field("name", FieldType::Scalar(ScalarType::Text), 0, false));
        fields.push(field("fetch_partitions", FieldType::StructArray(PARTITION_PLACE), 0, false));
        StructureSchema { fields }
    }

    /// The values of the fields, in the order of the schema.
    pub fn to_values(&self) -> (r: Vec<Value>)
        ensures
            value_views(r@) == self.spec_values(),
    {
        let rows = rows_of_partitions(&self.fetch_partitions);
        proof {
            lemma_rows_view(rows@);
        }
        let mut values: Vec<Value> = Vec::new();
        values.push(Value::Scalar(Scalar::Text(self.name.clone())));
        values.push(Value::StructArray(rows));
        assert(value_views(values@) =~= self.spec_values());
        values
    }

    /// The topic whose fields have the given values; none where the values
    /// are not those of a topic.
    pub fn from_values(values: &Vec<Value>) -> (r: Option<FetchableTopic>)
        ensures
            r matches Some(t) ==> t.spec_values() == value_views(values@),
            r is None ==> forall|t: FetchableTopic| t.spec_values() != value_views(values@),
    {
        let ghost views = value_views(values@);
        if values.len() != 2 {
            assert forall|t: FetchableTopic| t.spec_values() != views by {
                assert(t.spec_values().len() == 2);
            }
            return None;
        }
        match (&values[0], &values[1]) {
            (Value::Scalar(Scalar::Text(name)), Value::StructArray(rows)) => {
                proof {
                    lemma_rows_view(rows@);
                }
                match partitions_of_rows(rows) {
                    Some(partitions) => {
                        let t = FetchableTopic { name: name.clone(), fetch_partitions: partitions };
                        assert(t.spec_values() =~= views);
                        Some(t)
                    },
                    None => {
                        assert forall|t: FetchableTopic| t.spec_values() != views by {
                            if t.spec_values() == views {
                                assert(t.spec_values()[1] == views[1]);
                                assert(partition_rows(t.fetch_partitions@) == row_views(rows@));
                            }
                        }
                        None
                    },
                }
            },
            _ => {
                assert forall|t: FetchableTopic| t.spec_values() != views by {
                    if t.spec_values() == views {
                        assert(t.spec_values()[0] == views[0]);
                        assert(t.spec_values()[1] == views[1]);
                    }
                }
                None
            },
        }
    }
}

/// Which records a consumer is shown.
#[derive(Clone, Copy, PartialEq, Eq, Debug, Structural)]
pub enum Isolation {
    /// All records.
    ReadUncommitted,
    /// The records that are not part of a transaction, and those of
    /// transactions that were committed.
    ReadCommitted,
}

impl Isolation {
    /// The number that stands for the level on the wire.
    pub open spec fn code(self) -> i8 {
        match self {
            Isolation::ReadUncommitted => 0,
            Isolation::ReadCommitted => 1,
        }
    }

    /// The number that stands for the level on the wire.
    pub fn to_code(self) -> (r: i8)
        ensures
            r == self.code(),
    {
        match self {
            Isolation::ReadUncommitted => 0,
            Isolation::ReadCommitted => 1,
        }
    }

    /// The level that a number stands for, if it stands for one.
    pub fn from_code(code: i8) -> (r: Option<Isolation>)
        ensures
            r matches Some(level) ==> level.code() == code,
            r is None ==> code != 0 && code != 1,
    {
        if code == 0 {
            Some(Isolation::ReadUncommitted)
        } else if code == 1 {
            Some(Isolation::ReadCommitted)
        } else {
            None
        }
    }
}

impl Default for Isolation {
    fn default() -> (r: Isolation)
        ensures
            r == Isolation::ReadUncommitted,
    {
        Isolation::ReadUncommitted
    }
}

/// The key of the fetch request.
pub const API_KEY: u16 = 1;

/// The oldest version of the fetch request.
pub const MIN_API_VERSION: i16 = 0;

/// The newest version of the fetch request.
pub const MAX_API_VERSION: i16 = 10;

/// The version of the fetch request where nothing was agreed.
pub const DEFAULT_API_VERSION: i16 = 10;

/// What a consumer or a follower asks a broker for.
#[derive(Debug)]
pub struct KfFetchRequest {
    /// The broker ID of the follower, of -1 if this request is from a consumer.
    pub replica_id: i32,
    /// The maximum time in milliseconds to wait for the response.
    pub max_wait: i32,
    /// The minimum bytes to accumulate in the response.
    pub min_bytes: i32,
    /// The maximum bytes to fetch.
    pub max_bytes: i32,
    /// Which records are shown.
    pub isolation_level: Isolation,
    /// The fetch session ID.
    pub session_id: i32,
    /// The fetch session epoch.
    pub epoch: i32,
    /// The topics to fetch.
    pub topics: Vec<FetchableTopic>,
    /// In an incremental fetch request, the partitions to remove.
    pub forgotten: Vec<ForgottenTopic>,
}

impl Default for KfFetchRequest {
    fn default() -> (r: KfFetchRequest)
        ensures
            r.replica_id == 0,
            r.max_wait == 0,
            r.min_bytes == 0,
            r.max_bytes == 0,
            r.isolation_level == Isolation::ReadUncommitted,
            r.session_id == 0,
            r.epoch == 0,
            r.topics@.len() == 0,
            r.forgotten@.len() == 0,
    {
        KfFetchRequest {
            replica_id: 0,
            max_wait: 0,
            min_bytes: 0,
            max_bytes: 0,
            isolation_level: Isolation::ReadUncommitted,
            session_id: 0,
            epoch: 0,
            topics: Vec::new(),
            forgotten: Vec::new(),
        }
    }
}

impl KfFetchRequest {
    /// The fields in front of the topics, in the order of the wire.
    pub open spec fn spec_head_schema() -> Seq<FieldSchemaView> {
        seq![
            plain_field("replica_id"@, FieldType::Scalar(ScalarType::Int32), 0, false),
            plain_field("max_wait"@, FieldType::Scalar(ScalarType::Int32), 0, false),
            plain_field("min_bytes"@, FieldType::Scalar(ScalarType::Int32), 0, false),
            plain_field("max_bytes"@, FieldType::Scalar(ScalarType::Int32), 3, true),
            plain_field("isolation_level"@, FieldType::Scalar(ScalarType::Int8), 4, false),
            plain_field("session_id"@, FieldType::Scalar(ScalarType::Int32), 7, false),
            plain_field("epoch"@, FieldType::Scalar(ScalarType::Int32), 7, false),
        ]
    }

    /// The values of the fields in front of the topics.
    pub open spec fn spec_head_values(self) -> Seq<ValueView> {
        seq![
            ValueView::Scalar(ScalarView::Int32(self.replica_id)),
            ValueView::Scalar(ScalarView::Int32(self.max_wait)),
            ValueView::Scalar(ScalarView::Int32(self.min_bytes)),
            ValueView::Scalar(ScalarView::Int32(self.max_bytes)),
            ValueView::Scalar(ScalarView::Int8(self.isolation_level.code())),
            ValueView::Scalar(ScalarView::Int32(self.session_id)),
            ValueView::Scalar(ScalarView::Int32(self.epoch)),
        ]
    }

    /// The fields in front of the topics, in the order of the wire.
    pub fn head_schema() -> (r: StructureSchema)
        ensures
            r@ == KfFetchRequest::spec_head_schema(),
    {
        let mut fields: Vec<FieldSchema> = Vec::new();
        fields.push(field("replica_id", FieldType::Scalar(ScalarType::Int32), 0, false));
        fields.push(field("max_wait", FieldType::Scalar(ScalarType::Int32), 0, false));
        fields.push(field("min_bytes", FieldType::Scalar(ScalarType::Int32), 0, false));
        fields.push(field("max_bytes", FieldType::Scalar(ScalarType::Int32), 3, true));
        fields.push(field("isolation_level", FieldType::Scalar(ScalarType::Int8), 4, false));
        fields.push(field("session_id", FieldType::Scalar(ScalarType::Int32), 7, false));
        fields.push(field("epoch", FieldType::Scalar(ScalarType::Int32), 7, false));
        StructureSchema { fields }
    }

    /// The values of the fields in front of the topics.
    pub fn head_values(&self) -> (r: Vec<Value>)
        ensures
            value_views(r@) == self.spec_head_values(),
    {
        let mut values: Vec<Value> = Vec::new();
        values.push(Value::Scalar(Scalar::Int32(self.replica_id)));
        values.push(Value::Scalar(Scalar::Int32(self.max_wait)));
        values.push(Value::Scalar(Scalar::Int32(self.min_bytes)));
        values.push(Value::Scalar(Scalar::Int32(self.max_bytes)));
        values.push(Value::Scalar(Scalar::Int8(self.isolation_level.to_code())));
        values.push(Value::Scalar(Scalar::Int32(self.session_id)));
        values.push(Value::Scalar(Scalar::Int32(self.epoch)));
        values
    }

    /// The envelope of the fetch request, around the schema of what is in
    /// front of the topics of its response.
    pub fn envelope() -> (r: Result<ApiEnvelope, SchemaError>)
        ensures
            r matches Ok(envelope) && envelope.spec_api_key() == API_KEY && envelope.spec_min()
                == MIN_API_VERSION && envelope.spec_max() == MAX_API_VERSION
                && envelope.spec_default() == DEFAULT_API_VERSION && envelope.spec_response()
                == response_head_schema(),
    {
        let mut fields: Vec<FieldSchema> = Vec::new();
        fields.push(field("throttle_time_ms", FieldType::Scalar(ScalarType::Int32), 1, true));
        fields.push(field("error_code", FieldType::Scalar(ScalarType::Int16), 7, false));
        fields.push(field("session_id", FieldType::Scalar(ScalarType::Int32), 7, false));
        ApiEnvelope::new(
            API_KEY,
            Some(MIN_API_VERSION),
            MAX_API_VERSION,
            DEFAULT_API_VERSION,
            StructureSchema { fields },
        )
    }

    /// The fields of the request, in the order of the wire: those in front
    /// of the topics, the topics, and the forgotten topics.
    pub open spec fn spec_schema() -> Seq<FieldSchemaView> {
        KfFetchRequest::spec_head_schema() + seq![
            plain_field("topics"@, FieldType::StructArray(TOPIC_PLACE), 0, false),
            plain_field("forgotten"@, FieldType::StructArray(FORGOTTEN_PLACE), 7, false),
        ]
    }

    /// The values of the fields, in the order of the schema.
    pub open spec fn spec_values(self) -> Seq<ValueView> {
        self.spec_head_values() + seq![
            ValueView::StructArray(topic_rows(self.topics@)),
            ValueView::StructArray(forgotten_rows(self.forgotten@)),
        ]
    }

    /// The fields of the request, in the order of the wire.
    pub fn schema() -> (r: StructureSchema)
        ensures
            r@ == KfFetchRequest::spec_schema(),
    {
        let mut schema = KfFetchRequest::head_schema();
        schema.fields.push(field("topics", FieldType::StructArray(TOPIC_PLACE), 0, false));
        schema.fields.push(field("forgotten", FieldType::StructArray(FORGOTTEN_PLACE), 7, false));
        assert(schema@ =~= KfFetchRequest::spec_schema());
        schema
    }

    /// The values of the fields, in the order of the schema.
    pub fn to_values(&self) -> (r: Vec<Value>)
        ensures
            value_views(r@) == self.spec_values(),
    {
        let mut values = self.head_values();
        let ghost before = values@;
        let topics = rows_of_topics(&self.topics);
        let forgotten = rows_of_forgotten(&self.forgotten);
        proof {
            lemma_rows_view(topics@);
            lemma_rows_view(forgotten@);
            assert(value_views(before).len() == 7);
        }
        let ghost first = ValueView::StructArray(row_views(topics@));
        let ghost second = ValueView::StructArray(row_views(forgotten@));
        values.push(Value::StructArray(topics));
        values.push(Value::StructArray(forgotten));
        proof {
            assert(values@[7]@ == first);
            assert(values@[8]@ == second);
            assert forall|i: int| 0 <= i < 7 implies value_views(values@)[i] == value_views(
                before,
            )[i] by {
                assert(values@[i] == before[i]);
            }
            assert(value_views(values@) =~= value_views(before) + seq![first, second]);
        }
        values
    }

    /// The request whose fields have the given values; none where the
    /// values are not those of a request.
    pub fn from_values(values: &Vec<Value>) -> (r: Option<KfFetchRequest>)
        ensures
            r matches Some(request) ==> request.spec_values() == value_views(values@),
            r is None ==> forall|request: KfFetchRequest|
                request.spec_values() != value_views(values@),
    {
        let ghost views = value_views(values@);
        if values.len() != 9 {
            assert forall|request: KfFetchRequest| request.spec_values() != views by {
                assert(request.spec_values().len() == 9);
            }
            return None;
        }
        let found = match (
            &values[0],
            &values[1],
            &values[2],
            &values[3],
            &values[4],
            &values[5],
            &values[6],
            &values[7],
            &values[8],
        ) {
            (
                Value::Scalar(Scalar::Int32(replica_id)),
                Value::Scalar(Scalar::Int32(max_wait)),
                Value::Scalar(Scalar::Int32(min_bytes)),
                Value::Scalar(Scalar::Int32(max_bytes)),
                Value::Scalar(Scalar::Int8(code)),
                Value::Scalar(Scalar::Int32(session_id)),
                Value::Scalar(Scalar::Int32(epoch)),
                Value::StructArray(topic_values),
                Value::StructArray(forgotten_values),
            ) => {
                proof {
                    lemma_rows_view(topic_values@);
                    lemma_rows_view(forgotten_values@);
                }
                match (
                    Isolation::from_code(*code),
                    topics_of_rows(topic_values),
                    forgotten_of_rows(forgotten_values),
                ) {
                    (Some(isolation_level), Some(topics), Some(forgotten)) => {
                        let request = KfFetchRequest {
                            replica_id: *replica_id,
                            max_wait: *max_wait,
                            min_bytes: *min_bytes,
                            max_bytes: *max_bytes,
                            isolation_level,
                            session_id: *session_id,
                            epoch: *epoch,
                            topics,
                            forgotten,
                        };
                        assert(request.spec_values() =~= views);
                        Some(request)
                    },
                    _ => None,
                }
            },
            _ => None,
        };
        proof {
            if found is None {
                assert forall|request: KfFetchRequest| request.spec_values() != views by {
                    if request.spec_values() == views {
                        let own = request.spec_values();
                        assert(own[0] == views[0] && own[1] == views[1] && own[2] == views[2]
                            && own[3] == views[3] && own[4] == views[4] && own[5] == views[5]
                            && own[6] == views[6] && own[7] == views[7] && own[8] == views[8]);
                        assert(own[7] == ValueView::StructArray(topic_rows(request.topics@)));
                        assert(own[8] == ValueView::StructArray(
                            forgotten_rows(request.forgotten@),
                        ));
                        assert(own[4] == ValueView::Scalar(
                            ScalarView::Int8(request.isolation_level.code()),
                        ));
                    }
                }
            }
        }
        found
    }

    /// Appends the bytes of the request at `version`. The table must hold
    /// the structures of a fetch request, as `fetch_symbols` gives them.
    pub fn encode(&self, symbols: &SymbolTable, version: i16, dest: &mut Vec<u8>, log: &mut SkipLog) -> (r:
        Result<(), CodecError>)
        ensures
            match struct_bytes(KfFetchRequest::spec_schema(), *symbols, version, self.spec_values()) {
                Ok(bytes) => r is Ok && final(dest)@ == old(dest)@ + bytes && final(log)@
                    == struct_logged(
                    old(log)@,
                    old(log).enabled,
                    KfFetchRequest::spec_schema(),
                    *symbols,
                    version,
                    self.spec_values(),
                ),
                Err(fault) => r matches Err(e) && e@ == fault && final(dest)@ == old(dest)@
                    && final(log)@ == old(log)@,
            },
            final(log).enabled == old(log).enabled,
    {
        let schema = KfFetchRequest::schema();
        let values = self.to_values();
        encode_struct(&schema, symbols, version, values.as_slice(), dest, log)
    }

    /// Reads a request at `version` from the start of `src`; gives the
    /// request and how many bytes were read. Values that were read and are
    /// not those of a request, as where the number of the isolation level
    /// stands for none, are a `TypeMismatch` without a name. Nothing is
    /// recorded where the call fails.
    pub fn decode(symbols: &SymbolTable, version: i16, src: &[u8], log: &mut SkipLog) -> (r: Result<
        (KfFetchRequest, usize),
        CodecError,
    >)
        ensures
            match struct_read(KfFetchRequest::spec_schema(), *symbols, version, src@) {
                Ok((values, k)) => request_read(r, values, k) && k <= src@.len() && final(log)@
                    == (if r is Ok {
                    struct_logged(
                        old(log)@,
                        old(log).enabled,
                        KfFetchRequest::spec_schema(),
                        *symbols,
                        version,
                        values,
                    )
                } else {
                    old(log)@
                }),
                Err(fault) => r matches Err(e) && e@ == fault && final(log)@ == old(log)@,
            },
            final(log).enabled == old(log).enabled,
    {
        let schema = KfFetchRequest::schema();
        let kept = log.events.len();
        let (values, used) = decode_struct(&schema, symbols, version, src, log)?;
        match KfFetchRequest::from_values(&values) {
            Some(request) => Ok((request, used)),
            None => {
                log.events.truncate(kept);
                Err(CodecError::TypeMismatch { field: None })
            },
        }
    }
}

/// Whether `r` is what reading a request makes of the values that were
/// read in `k` bytes: the request that has those values, or a
/// `TypeMismatch` without a name where no request has them.
pub open spec fn request_read(
    r: Result<(KfFetchRequest, usize), CodecError>,
    values: Seq<ValueView>,
    k: nat,
) -> bool {
    match r {
        Ok((request, used)) => request.spec_values() == values && used == k,
        Err(e) => e@ == (CodecFault::TypeMismatch { field: None }) && forall|
            request: KfFetchRequest,
        |
            request.spec_values() != values,
    }
}

/// The fields in front of the topics of a fetch response, in the order of
/// the wire.
pub open spec fn response_head_schema() -> Seq<FieldSchemaView> {
    seq![
        plain_field("throttle_time_ms"@, FieldType::Scalar(ScalarType::Int32), 1, true),
        plain_field("error_code"@, FieldType::Scalar(ScalarType::Int16), 7, false),
        plain_field("session_id"@, FieldType::Scalar(ScalarType::Int32), 7, false),
    ]
}

/// What a broker answers for one partition; `R` is how the records are held.
#[derive(Debug)]
pub struct FetchablePartitionResponse<R> {
    /// The partition index.
    pub partition_index: i32,
    /// The error code, or 0 if there was no fetch error.
    pub error_code: i16,
    /// The current high water mark.
    pub high_watermark: i64,
    /// The last stable offset of the partition.
    pub last_stable_offset: i64,
    /// The current log start offset.
    pub log_start_offset: i64,
    /// The aborted transactions.
    pub aborted: Option<Vec<AbortedTransaction>>,
    /// The record data.
    pub records: R,
}

/// What a broker answers for one topic.
#[derive(Debug)]
pub struct FetchableTopicResponse<R> {
    /// The topic name.
    pub name: String,
    /// The topic partitions.
    pub partitions: Vec<FetchablePartitionResponse<R>>,
}

/// What a broker answers to a fetch request.
#[derive(Debug)]
pub struct KfFetchResponse<R> {
    /// The duration in milliseconds for which the request was throttled.
    pub throttle_time_ms: i32,
    /// The top level response error code.
    pub error_code: i16,
    /// The fetch session ID, or 0 if this is not part of a fetch session.
    pub session_id: i32,
    /// The response topics.
    pub topics: Vec<FetchableTopicResponse<R>>,
}

/// The first of the partitions that has the index `partition`.
pub open spec fn first_partition<R>(
    partitions: Seq<FetchablePartitionResponse<R>>,
    partition: i32,
) -> Option<FetchablePartitionResponse<R>>
    decreases partitions.len(),
{
    if partitions.len() == 0 {
        None
    } else if partitions[0].partition_index == partition {
        Some(partitions[0])
    } else {
        first_partition(partitions.drop_first(), partition)
    }
}

/// The first partition with the index `partition` among the topics named
/// `topic`, in the order of the topics.
pub open spec fn first_in_topics<R>(
    topics: Seq<FetchableTopicResponse<R>>,
    topic: Seq<char>,
    partition: i32,
) -> Option<FetchablePartitionResponse<R>>
    decreases topics.len(),
{
    if topics.len() == 0 {
        None
    } else if topics[0].name@ == topic && first_partition(topics[0].partitions@, partition)
        is Some {
        first_partition(topics[0].partitions@, partition)
    } else {
        first_in_topics(topics.drop_first(), topic, partition)
    }
}

/// Takes the first of the partitions that has the index `partition`.
fn take_partition<R>(partitions: Vec<FetchablePartitionResponse<R>>, partition: i32) -> (r: Option<
    FetchablePartitionResponse<R>,
>)
    ensures
        r == first_partition(partitions@, partition),
{
    let mut partitions = partitions;
    let ghost all = partitions@;
    let mut found: Option<FetchablePartitionResponse<R>> = None;
    while partitions.len() > 0
        invariant
            partitions@ == all.take(partitions@.len() as int),
            partitions@.len() <= all.len(),
            found == first_partition(all.skip(partitions@.len() as int), partition),
        decreases partitions@.len(),
    {
        let ghost k = partitions@.len() - 1;
        let last = partitions.pop();
        proof {
            assert(all.skip(k).drop_first() =~= all.skip(k + 1));
        }
        match last {
            Some(candidate) => {
                if candidate.partition_index == partition {
                    found = Some(candidate);
                }
            },
            None => {},
        }
    }
    found
}

impl<R> KfFetchResponse<R> {
    /// Takes the response for the partition `partition` of the topic
    /// `topic` out of the response: the first such partition, in the order
    /// of the topics and of their partitions.
    pub fn find_partition(self, topic: &str, partition: i32) -> (r: Option<
        FetchablePartitionResponse<R>,
    >)
        ensures
            r == first_in_topics(self.topics@, topic@, partition),
    {
        let mut topics = self.topics;
        let ghost all = topics@;
        let mut found: Option<FetchablePartitionResponse<R>> = None;
        while topics.len() > 0
            invariant
                topics@ == all.take(topics@.len() as int),
                topics@.len() <= all.len(),
                found == first_in_topics(all.skip(topics@.len() as int), topic@, partition),
            decreases topics@.len(),
        {
            let ghost k = topics@.len() - 1;
            let last = topics.pop();
            proof {
                assert(all.skip(k).drop_first() =~= all.skip(k + 1));
            }
            match last {
                Some(topic_res) => {
                    if crate::text::str_eq(topic_res.name.as_str(), topic) {
                        match take_partition(topic_res.partitions, partition) {
                            Some(partition_res) => {
                                found = Some(partition_res);
                            },
                            None => {},
                        }
                    }
                },
                None => {},
            }
        }
        found
    }
}

} // verus!
