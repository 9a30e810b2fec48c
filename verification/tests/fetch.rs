use fluvio_codec::bound::SymbolTable;
use fluvio_codec::codec::{decode_struct, encode_struct, SkipLog};
use fluvio_codec::error::CodecError;
use fluvio_codec::fetch::{
    fetch_symbols, AbortedTransaction, FetchPartition, FetchablePartitionResponse, FetchableTopic,
    FetchableTopicResponse, ForgottenTopic, Isolation, KfFetchRequest, KfFetchResponse,
    FORGOTTEN_PLACE, PARTITION_PLACE, TOPIC_PLACE,
};
use fluvio_codec::value::{Scalar, Value};

fn partition() -> FetchPartition {
    FetchPartition {
        partition_index: 1,
        current_leader_epoch: 2,
        fetch_offset: 3,
        log_start_offset: 4,
        max_bytes: 5,
    }
}

#[test]
fn fetch_partition_grows_with_the_version() {
    let symbols = SymbolTable::new();
    let mut log = SkipLog::new(false);

    let mut dest = Vec::new();
    partition().encode(&symbols, 0, &mut dest, &mut log).unwrap();
    assert_eq!(dest, vec![0, 0, 0, 1, 0, 0, 0, 0, 0, 0, 0, 3, 0, 0, 0, 5]);

    let mut dest = Vec::new();
    partition().encode(&symbols, 5, &mut dest, &mut log).unwrap();
    assert_eq!(
        dest,
        vec![0, 0, 0, 1, 0, 0, 0, 0, 0, 0, 0, 3, 0, 0, 0, 0, 0, 0, 0, 4, 0, 0, 0, 5]
    );

    let mut dest = Vec::new();
    partition().encode(&symbols, 9, &mut dest, &mut log).unwrap();
    assert_eq!(
        dest,
        vec![
            0, 0, 0, 1, 0, 0, 0, 2, 0, 0, 0, 0, 0, 0, 0, 3, 0, 0, 0, 0, 0, 0, 0, 4, 0, 0, 0, 5
        ]
    );
}

#[test]
fn fetch_partition_round_trips() {
    let symbols = SymbolTable::new();
    for version in 0i16..=10 {
        let mut log = SkipLog::new(false);
        let mut dest = Vec::new();
        partition().encode(&symbols, version, &mut dest, &mut log).unwrap();
        let (found, used) = FetchPartition::decode(&symbols, version, &dest, &mut log).unwrap();
        assert_eq!(used, dest.len());
        assert_eq!(found.partition_index, 1);
        assert_eq!(found.current_leader_epoch, if version >= 9 { 2 } else { 0 });
        assert_eq!(found.fetch_offset, 3);
        assert_eq!(found.log_start_offset, if version >= 5 { 4 } else { 0 });
        assert_eq!(found.max_bytes, 5);
    }
}

#[test]
fn fetch_partition_cut_short_is_refused() {
    let symbols = SymbolTable::new();
    let mut log = SkipLog::new(false);
    let mut dest = Vec::new();
    partition().encode(&symbols, 10, &mut dest, &mut log).unwrap();
    match FetchPartition::decode(&symbols, 10, &dest[..6], &mut log) {
        Err(CodecError::UnexpectedEof { field }) => {
            assert_eq!(field, Some("current_leader_epoch".to_string()))
        }
        other => panic!("unexpected {:?}", other),
    }
}

#[test]
fn fetch_partition_is_its_values() {
    let values = partition().to_values();
    assert_eq!(values.len(), 5);
    let back = FetchPartition::from_values(&values).unwrap();
    assert_eq!(back.partition_index, 1);
    assert_eq!(back.max_bytes, 5);
    assert!(FetchPartition::from_values(&values[..4].iter().map(copy).collect()).is_none());
    let mut wrong: Vec<Value> = values.iter().map(copy).collect();
    wrong[2] = Value::Scalar(Scalar::Int32(3));
    assert!(FetchPartition::from_values(&wrong).is_none());

    let zero = FetchPartition::default();
    assert_eq!(zero.partition_index, 0);
    assert_eq!(zero.fetch_offset, 0);
}

fn copy(v: &Value) -> Value {
    match v {
        Value::Scalar(Scalar::Int32(x)) => Value::Scalar(Scalar::Int32(*x)),
        Value::Scalar(Scalar::Int64(x)) => Value::Scalar(Scalar::Int64(*x)),
        other => panic!("unexpected {:?}", other),
    }
}

#[test]
fn aborted_transaction_is_there_from_version_four() {
    let symbols = SymbolTable::new();
    let mut log = SkipLog::new(true);
    let t = AbortedTransaction { producer_id: 1, first_offset: -1 };

    let mut dest = Vec::new();
    t.encode(&symbols, 3, &mut dest, &mut log).unwrap();
    assert!(dest.is_empty());
    assert_eq!(log.events.len(), 2);
    let (found, used) = AbortedTransaction::decode(&symbols, 3, &dest, &mut log).unwrap();
    assert_eq!((found.producer_id, found.first_offset, used), (0, 0, 0));

    t.encode(&symbols, 4, &mut dest, &mut log).unwrap();
    assert_eq!(dest, vec![0, 0, 0, 0, 0, 0, 0, 1, 255, 255, 255, 255, 255, 255, 255, 255]);
    let (found, used) = AbortedTransaction::decode(&symbols, 4, &dest, &mut log).unwrap();
    assert_eq!((found.producer_id, found.first_offset, used), (1, -1, 16));

    let values = t.to_values();
    let back = AbortedTransaction::from_values(&values).unwrap();
    assert_eq!((back.producer_id, back.first_offset), (1, -1));
    assert!(AbortedTransaction::from_values(&Vec::new()).is_none());
    let zero = AbortedTransaction::default();
    assert_eq!((zero.producer_id, zero.first_offset), (0, 0));
}

#[test]
fn forgotten_topic_carries_its_indexes() {
    let symbols = SymbolTable::new();
    let mut log = SkipLog::new(false);
    let topic =
        ForgottenTopic { name: "logs".to_string(), forgotten_partition_indexes: vec![2, -3] };

    let mut dest = Vec::new();
    topic.encode(&symbols, 6, &mut dest, &mut log).unwrap();
    assert!(dest.is_empty());
    let (found, used) = ForgottenTopic::decode(&symbols, 6, &dest, &mut log).unwrap();
    assert_eq!(found.name, "");
    assert!(found.forgotten_partition_indexes.is_empty());
    assert_eq!(used, 0);

    topic.encode(&symbols, 7, &mut dest, &mut log).unwrap();
    assert_eq!(
        dest,
        vec![0, 4, b'l', b'o', b'g', b's', 0, 0, 0, 2, 0, 0, 0, 2, 255, 255, 255, 253]
    );
    let (found, used) = ForgottenTopic::decode(&symbols, 7, &dest, &mut log).unwrap();
    assert_eq!(found.name, "logs");
    assert_eq!(found.forgotten_partition_indexes, vec![2, -3]);
    assert_eq!(used, 18);

    let values = topic.to_values();
    let back = ForgottenTopic::from_values(&values).unwrap();
    assert_eq!(back.name, "logs");
    assert_eq!(back.forgotten_partition_indexes, vec![2, -3]);
    let wrong = vec![
        Value::Scalar(Scalar::Text("x".to_string())),
        Value::Array(vec![Scalar::Int64(1)]),
    ];
    assert!(ForgottenTopic::from_values(&wrong).is_none());

    let empty = ForgottenTopic::default();
    assert_eq!(empty.name, "");
    assert!(empty.forgotten_partition_indexes.is_empty());
}

#[test]
fn fetchable_topic_starts_empty() {
    let mut topic = FetchableTopic::default();
    assert_eq!(topic.name, "");
    assert!(topic.fetch_partitions.is_empty());
    topic.fetch_partitions.push(partition());
    assert_eq!(topic.fetch_partitions[0].max_bytes, 5);
}

#[test]
fn request_head_follows_the_versions() {
    let symbols = SymbolTable::new();
    let mut request = KfFetchRequest::default();
    request.replica_id = -1;
    request.max_wait = 500;
    request.min_bytes = 1;
    request.max_bytes = 1024;
    request.isolation_level = Isolation::ReadCommitted;
    request.session_id = 7;
    request.epoch = 8;
    let schema = KfFetchRequest::head_schema();
    let values = request.head_values();

    let lengths: Vec<(i16, usize)> = vec![(0, 12), (2, 12), (3, 16), (4, 17), (6, 17), (7, 25), (10, 25)];
    for (version, len) in lengths {
        let mut log = SkipLog::new(false);
        let mut dest = Vec::new();
        encode_struct(&schema, &symbols, version, &values, &mut dest, &mut log).unwrap();
        assert_eq!(dest.len(), len, "version {}", version);
        let (found, used) = decode_struct(&schema, &symbols, version, &dest, &mut log).unwrap();
        assert_eq!(used, len);
        match &found[4] {
            Value::Scalar(Scalar::Int8(level)) => {
                assert_eq!(*level, if version >= 4 { 1 } else { 0 })
            }
            other => panic!("unexpected {:?}", other),
        }
    }
    let mut log = SkipLog::new(false);
    let mut dest = Vec::new();
    encode_struct(&schema, &symbols, 4, &values, &mut dest, &mut log).unwrap();
    assert_eq!(
        dest,
        vec![255, 255, 255, 255, 0, 0, 1, 244, 0, 0, 0, 1, 0, 0, 4, 0, 1]
    );
}

#[test]
fn isolation_has_two_levels() {
    assert_eq!(Isolation::ReadUncommitted.to_code(), 0);
    assert_eq!(Isolation::ReadCommitted.to_code(), 1);
    assert_eq!(Isolation::from_code(0), Some(Isolation::ReadUncommitted));
    assert_eq!(Isolation::from_code(1), Some(Isolation::ReadCommitted));
    assert_eq!(Isolation::from_code(2), None);
    assert_eq!(Isolation::from_code(-1), None);
    assert_eq!(Isolation::default(), Isolation::ReadUncommitted);
}

#[test]
fn fetch_envelope_speaks_versions_zero_to_ten() {
    let envelope = KfFetchRequest::envelope().unwrap();
    assert_eq!(envelope.api_key(), 1);
    assert_eq!(envelope.min_supported_version(), 0);
    assert_eq!(envelope.max_supported_version(), 10);
    assert_eq!(envelope.default_version(), 10);
    assert!(envelope.supports(0));
    assert!(envelope.supports(10));
    assert!(!envelope.supports(11));
    let fields = &envelope.response().fields;
    assert_eq!(fields.len(), 3);
    assert_eq!(fields[0].name, Some("throttle_time_ms".to_string()));
    assert!(fields[0].ignorable);
    assert_eq!(fields[2].name, Some("session_id".to_string()));
}

fn part(index: i32, records: &str) -> FetchablePartitionResponse<String> {
    FetchablePartitionResponse {
        partition_index: index,
        error_code: 0,
        high_watermark: 0,
        last_stable_offset: 0,
        log_start_offset: 0,
        aborted: None,
        records: records.to_string(),
    }
}

fn response() -> KfFetchResponse<String> {
    KfFetchResponse {
        throttle_time_ms: 0,
        error_code: 0,
        session_id: 0,
        topics: vec![
            FetchableTopicResponse { name: "a".to_string(), partitions: vec![part(0, "a0")] },
            FetchableTopicResponse {
                name: "b".to_string(),
                partitions: vec![part(0, "b0"), part(1, "b1"), part(1, "b1 again")],
            },
            FetchableTopicResponse {
                name: "a".to_string(),
                partitions: vec![part(0, "a0 again"), part(2, "a2")],
            },
        ],
    }
}

#[test]
fn find_partition_takes_the_first_match() {
    assert_eq!(response().find_partition("a", 0).unwrap().records, "a0");
    assert_eq!(response().find_partition("b", 1).unwrap().records, "b1");
    assert_eq!(response().find_partition("b", 0).unwrap().records, "b0");
    // A later topic of the same name is looked into when the first has no such partition.
    assert_eq!(response().find_partition("a", 2).unwrap().records, "a2");
    assert!(response().find_partition("a", 1).is_none());
    assert!(response().find_partition("c", 0).is_none());
    let empty: KfFetchResponse<String> =
        KfFetchResponse { throttle_time_ms: 0, error_code: 0, session_id: 0, topics: Vec::new() };
    assert!(empty.find_partition("a", 0).is_none());
}

fn request() -> KfFetchRequest {
    KfFetchRequest {
        replica_id: -1,
        max_wait: 2,
        min_bytes: 3,
        max_bytes: 4,
        isolation_level: Isolation::ReadCommitted,
        session_id: 5,
        epoch: 6,
        topics: vec![FetchableTopic {
            name: "t".to_string(),
            fetch_partitions: vec![partition()],
        }],
        forgotten: vec![ForgottenTopic {
            name: "f".to_string(),
            forgotten_partition_indexes: vec![7],
        }],
    }
}

#[test]
fn the_table_of_a_fetch_holds_its_structures() {
    let symbols = fetch_symbols();
    assert_eq!(symbols.structures.len(), 3);
    assert_eq!((PARTITION_PLACE, TOPIC_PLACE, FORGOTTEN_PLACE), (0, 1, 2));
    assert_eq!(symbols.structures[PARTITION_PLACE].fields.len(), 5);
    assert_eq!(symbols.structures[TOPIC_PLACE].fields.len(), 2);
    assert_eq!(symbols.structures[FORGOTTEN_PLACE].fields.len(), 2);
    assert_eq!(KfFetchRequest::schema().fields.len(), 9);
    assert_eq!(request().to_values().len(), 9);
}

#[test]
fn fetch_request_is_written_with_its_topics() {
    let symbols = fetch_symbols();
    let mut log = SkipLog::new(true);

    let mut dest = Vec::new();
    request().encode(&symbols, 0, &mut dest, &mut log).unwrap();
    assert_eq!(
        dest,
        vec![
            0xff, 0xff, 0xff, 0xff, // replica_id
            0, 0, 0, 2, // max_wait
            0, 0, 0, 3, // min_bytes
            0, 0, 0, 1, // one topic
            0, 1, b't', // name
            0, 0, 0, 1, // one partition
            0, 0, 0, 1, // partition_index
            0, 0, 0, 0, 0, 0, 0, 3, // fetch_offset
            0, 0, 0, 5, // max_bytes
        ]
    );
    let skipped: Vec<Option<&str>> = log.events.iter().map(|e| e.field.as_deref()).collect();
    assert_eq!(
        skipped,
        vec![
            Some("max_bytes"),
            Some("isolation_level"),
            Some("session_id"),
            Some("epoch"),
            Some("current_leader_epoch"),
            Some("log_start_offset"),
            Some("forgotten")
        ]
    );

    let mut log = SkipLog::new(true);
    let mut dest = Vec::new();
    request().encode(&symbols, 10, &mut dest, &mut log).unwrap();
    assert_eq!(
        dest,
        vec![
            0xff, 0xff, 0xff, 0xff, // replica_id
            0, 0, 0, 2, // max_wait
            0, 0, 0, 3, // min_bytes
            0, 0, 0, 4, // max_bytes
            1, // isolation_level
            0, 0, 0, 5, // session_id
            0, 0, 0, 6, // epoch
            0, 0, 0, 1, // one topic
            0, 1, b't', // name
            0, 0, 0, 1, // one partition
            0, 0, 0, 1, // partition_index
            0, 0, 0, 2, // current_leader_epoch
            0, 0, 0, 0, 0, 0, 0, 3, // fetch_offset
            0, 0, 0, 0, 0, 0, 0, 4, // log_start_offset
            0, 0, 0, 5, // max_bytes
            0, 0, 0, 1, // one forgotten topic
            0, 1, b'f', // name
            0, 0, 0, 1, // one index
            0, 0, 0, 7,
        ]
    );
    assert!(log.events.is_empty());
}

#[test]
fn fetch_request_round_trips() {
    let symbols = fetch_symbols();
    for version in 0i16..=10 {
        let mut log = SkipLog::new(false);
        let mut dest = Vec::new();
        request().encode(&symbols, version, &mut dest, &mut log).unwrap();
        let (found, used) = KfFetchRequest::decode(&symbols, version, &dest, &mut log).unwrap();
        assert_eq!(used, dest.len());
        assert_eq!(found.replica_id, -1);
        assert_eq!(found.max_wait, 2);
        assert_eq!(found.min_bytes, 3);
        assert_eq!(found.max_bytes, if version >= 3 { 4 } else { 0 });
        assert_eq!(
            found.isolation_level,
            if version >= 4 { Isolation::ReadCommitted } else { Isolation::ReadUncommitted }
        );
        assert_eq!(found.session_id, if version >= 7 { 5 } else { 0 });
        assert_eq!(found.epoch, if version >= 7 { 6 } else { 0 });
        assert_eq!(found.topics.len(), 1);
        assert_eq!(found.topics[0].name, "t");
        assert_eq!(found.topics[0].fetch_partitions.len(), 1);
        let p = &found.topics[0].fetch_partitions[0];
        assert_eq!(p.partition_index, 1);
        assert_eq!(p.current_leader_epoch, if version >= 9 { 2 } else { 0 });
        assert_eq!(p.fetch_offset, 3);
        assert_eq!(p.log_start_offset, if version >= 5 { 4 } else { 0 });
        assert_eq!(p.max_bytes, 5);
        if version >= 7 {
            assert_eq!(found.forgotten.len(), 1);
            assert_eq!(found.forgotten[0].name, "f");
            assert_eq!(found.forgotten[0].forgotten_partition_indexes, vec![7]);
        } else {
            assert!(found.forgotten.is_empty());
        }
    }
}

#[test]
fn fetch_request_needs_the_structures_of_a_fetch() {
    let symbols = SymbolTable::new();
    let mut log = SkipLog::new(false);
    let mut dest = vec![1u8];
    match request().encode(&symbols, 10, &mut dest, &mut log).unwrap_err() {
        CodecError::TypeMismatch { field } => assert_eq!(field.as_deref(), Some("topics")),
        other => panic!("another error: {:?}", other),
    }
    assert_eq!(dest, vec![1]);
}

#[test]
fn fetch_request_with_an_unknown_isolation_level_is_refused() {
    let symbols = fetch_symbols();
    let mut log = SkipLog::new(false);
    let mut dest = Vec::new();
    request().encode(&symbols, 4, &mut dest, &mut log).unwrap();
    assert_eq!(dest[16], 1);
    dest[16] = 2;
    let mut kept = SkipLog::new(true);
    match KfFetchRequest::decode(&symbols, 4, &dest, &mut kept).unwrap_err() {
        CodecError::TypeMismatch { field } => assert_eq!(field, None),
        other => panic!("another error: {:?}", other),
    }
    assert!(kept.events.is_empty());
    dest[16] = 0;
    let (found, _) = KfFetchRequest::decode(&symbols, 4, &dest, &mut kept).unwrap();
    assert_eq!(found.isolation_level, Isolation::ReadUncommitted);
    let skipped: Vec<Option<&str>> = kept.events.iter().map(|e| e.field.as_deref()).collect();
    assert_eq!(
        skipped,
        vec![
            Some("session_id"),
            Some("epoch"),
            Some("current_leader_epoch"),
            Some("log_start_offset"),
            Some("forgotten")
        ]
    );
    let cut = &dest[..dest.len() - 1];
    match KfFetchRequest::decode(&symbols, 4, cut, &mut log).unwrap_err() {
        CodecError::UnexpectedEof { field } => assert_eq!(field.as_deref(), Some("max_bytes")),
        other => panic!("another error: {:?}", other),
    }
}

#[test]
fn fetchable_topic_is_its_values() {
    let topic = FetchableTopic { name: "t".to_string(), fetch_partitions: vec![partition()] };
    let values = topic.to_values();
    assert_eq!(values.len(), 2);
    match &values[1] {
        Value::StructArray(rows) => {
            assert_eq!(rows.len(), 1);
            assert_eq!(rows[0].len(), 5);
        }
        other => panic!("another value: {:?}", other),
    }
    let back = FetchableTopic::from_values(&values).unwrap();
    assert_eq!(back.name, "t");
    assert_eq!(back.fetch_partitions.len(), 1);
    assert_eq!(back.fetch_partitions[0].fetch_offset, 3);
    let wrong = vec![Value::Scalar(Scalar::Int32(1)), Value::StructArray(Vec::new())];
    assert!(FetchableTopic::from_values(&wrong).is_none());
    let short_row = vec![
        Value::Scalar(Scalar::Text("t".to_string())),
        Value::StructArray(vec![vec![Value::Scalar(Scalar::Int32(1))]]),
    ];
    assert!(FetchableTopic::from_values(&short_row).is_none());
}
