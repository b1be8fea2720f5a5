use warg_client::{
    replay_records, signature_verdict, ApiError, Checkpoint, ClientError, FetchLogsResponse, FetchedRecord,
    LogHead, OperatorInfo, PackageInfo, PackageRecords, Progression, SignatureCheck, SyncPhase, Synchronizer,
};

/// A log state that records what it accepted.
#[derive(Debug, Default)]
struct Trace(Vec<u64>);

/// A validator that refuses envelope 0.
fn trace(state: Trace, envelope: &u64) -> Result<Trace, String> {
    if *envelope == 0 {
        return Err("refused".to_string());
    }
    let mut seen = state.0;
    seen.push(*envelope);
    Ok(Trace(seen))
}

fn apply(sync: Synchronizer<Trace, Trace>, response: FetchLogsResponse<u64, u64>) -> Result<(Synchronizer<Trace, Trace>, bool), ClientError> {
    sync.apply_response(response, &trace, &trace)
}

fn empty_page() -> FetchLogsResponse<u64, u64> {
    FetchLogsResponse { operator: vec![], packages: vec![], more: false }
}

/// Brings an update whose logs already have heads to the progression check.
fn included(sync: Synchronizer<Trace, Trace>) -> Synchronizer<Trace, Trace> {
    let (sync, _) = apply(sync, empty_page()).unwrap();
    assert_eq!(sync.phase, SyncPhase::Fetched);
    let sync = sync.check_signature(&"k".to_string(), SignatureCheck::Valid).unwrap();
    assert_eq!(sync.phase, SyncPhase::Signed);
    let sync = sync.inclusion_proved(Ok(())).unwrap();
    assert_eq!(sync.phase, SyncPhase::Included);
    sync
}

fn with_head(mut p: PackageInfo<Trace>, index: u64) -> PackageInfo<Trace> {
    p.head = LogHead {
        registry_index: Some(index),
        fetch_token: Some(format!("t{index}")),
        record_id: Some(format!("r{index}")),
    };
    p
}

fn record(index: u64) -> FetchedRecord<u64> {
    FetchedRecord {
        registry_index: index,
        fetch_token: format!("t{index}"),
        record_id: format!("r{index}"),
        envelope: index,
    }
}

fn target(log_length: u64) -> Checkpoint {
    Checkpoint { log_length, log_root: vec![7; 4], map_root: vec![8; 4] }
}

fn operator() -> OperatorInfo<Trace> {
    OperatorInfo { log_id: "op".to_string(), state: Trace::default(), head: LogHead::empty() }
}

fn package(name: &str, checkpoint: Option<Checkpoint>) -> PackageInfo<Trace> {
    PackageInfo {
        name: name.to_string(),
        log_id: format!("log-{name}"),
        state: Trace::default(),
        head: LogHead::empty(),
        checkpoint,
    }
}

#[test]
fn replay_skips_seen_and_stale_records() {
    let records = vec![record(3), record(5), record(5), record(4), record(9)];
    let (state, head) = replay_records(&trace, Trace::default(), LogHead::empty(), records).unwrap();
    assert_eq!(state.0, vec![3, 5, 9]);
    assert_eq!(head.registry_index, Some(9));
    assert_eq!(head.fetch_token.as_deref(), Some("t9"));
    assert_eq!(head.record_id.as_deref(), Some("r9"));
}

#[test]
fn replay_never_moves_head_back() {
    let head = LogHead {
        registry_index: Some(20),
        fetch_token: Some("t20".to_string()),
        record_id: Some("r20".to_string()),
    };
    let (state, head) = replay_records(&trace, Trace::default(), head, vec![record(2), record(20), record(11)]).unwrap();
    assert!(state.0.is_empty());
    assert_eq!(head.registry_index, Some(20));
    assert_eq!(head.fetch_token.as_deref(), Some("t20"));
}

#[test]
fn replay_reports_validation_refusal() {
    let refused = FetchedRecord { envelope: 0, ..record(4) };
    let r = replay_records(&trace, Trace::default(), LogHead::empty(), vec![record(1), refused]);
    assert_eq!(r.err(), Some("refused".to_string()));
}

#[test]
fn packages_at_target_are_a_no_op() {
    let packages = vec![package("a:x", Some(target(4))), package("a:y", Some(target(4)))];
    assert!(Synchronizer::new(target(4), operator(), packages).is_none());
}

#[test]
fn only_stale_packages_take_part() {
    let packages = vec![package("a:x", Some(target(4))), package("a:y", Some(target(3))), package("a:z", None)];
    let sync = Synchronizer::new(target(4), operator(), packages).unwrap();
    let names: Vec<&str> = sync.packages.iter().map(|p| p.name.as_str()).collect();
    assert_eq!(names, vec!["a:y", "a:z"]);
}

#[test]
fn fetch_request_uses_head_tokens() {
    let mut p = package("a:x", None);
    p.head.fetch_token = Some("pt".to_string());
    let sync = Synchronizer::new(target(9), operator(), vec![p]).unwrap();
    let request = sync.fetch_request();
    assert_eq!(request.log_length, 9);
    assert_eq!(request.operator, None);
    assert_eq!(request.packages, vec![("log-a:x".to_string(), Some("pt".to_string()))]);
}

#[test]
fn overlapping_pages_apply_each_record_once() {
    let sync = Synchronizer::new(target(10), operator(), vec![package("a:x", None)]).unwrap();
    let page = |op: Vec<u64>, pkg: Vec<u64>, more: bool| FetchLogsResponse {
        operator: op.into_iter().map(record).collect(),
        packages: vec![PackageRecords { log_id: "log-a:x".to_string(), records: pkg.into_iter().map(record).collect() }],
        more,
    };
    let (sync, more) = apply(sync, page(vec![1, 2], vec![3, 4], true)).unwrap();
    assert!(more);
    let request = sync.fetch_request();
    assert_eq!(request.operator.as_deref(), Some("t2"));
    assert_eq!(request.packages[0].1.as_deref(), Some("t4"));
    let (sync, more) = apply(sync, page(vec![2, 5], vec![4, 6], true)).unwrap();
    assert!(more);
    let (sync, more) = apply(sync, page(vec![5], vec![6, 8], false)).unwrap();
    assert!(!more);
    assert_eq!(sync.operator.state.0, vec![1, 2, 5]);
    assert_eq!(sync.operator.head.registry_index, Some(5));
    assert_eq!(sync.packages[0].state.0, vec![3, 4, 6, 8]);
    assert_eq!(sync.packages[0].head.registry_index, Some(8));
    assert_eq!(sync.packages[0].head.record_id.as_deref(), Some("r8"));
}

#[test]
fn records_for_unknown_log_are_refused() {
    let sync = Synchronizer::new(target(10), operator(), vec![package("a:x", None)]).unwrap();
    let response = FetchLogsResponse {
        operator: vec![record(1)],
        packages: vec![PackageRecords { log_id: "log-b:y".to_string(), records: vec![record(2)] }],
        more: false,
    };
    assert!(matches!(apply(sync, response), Err(ClientError::Other(_))));
}

#[test]
fn empty_package_log_is_refused() {
    let sync = Synchronizer::new(target(10), operator(), vec![package("a:x", None)]).unwrap();
    let response = FetchLogsResponse::<u64, u64> {
        operator: vec![record(1)],
        packages: vec![PackageRecords { log_id: "log-a:x".to_string(), records: vec![] }],
        more: false,
    };
    assert_eq!(
        apply(sync, response).err(),
        Some(ClientError::PackageLogEmpty { name: "a:x".to_string() })
    );
}

#[test]
fn validation_failures_name_their_log() {
    let sync = Synchronizer::new(target(10), operator(), vec![package("a:x", None)]).unwrap();
    let response = FetchLogsResponse {
        operator: vec![FetchedRecord { envelope: 0, ..record(1) }],
        packages: vec![],
        more: false,
    };
    assert_eq!(
        apply(sync, response).err(),
        Some(ClientError::OperatorValidationFailed { inner: "refused".to_string() })
    );
    let sync = Synchronizer::new(target(10), operator(), vec![package("a:x", None)]).unwrap();
    let response = FetchLogsResponse {
        operator: vec![record(1)],
        packages: vec![PackageRecords { log_id: "log-a:x".to_string(), records: vec![FetchedRecord { envelope: 0, ..record(2) }] }],
        more: false,
    };
    assert_eq!(
        apply(sync, response).err(),
        Some(ClientError::PackageValidationFailed { name: "a:x".to_string(), inner: "refused".to_string() })
    );
}

#[test]
fn leaves_need_operator_records() {
    let sync = Synchronizer::new(target(10), operator(), vec![package("a:x", None)]).unwrap();
    assert_eq!(sync.inclusion_leaves().err(), Some(ClientError::NoOperatorRecords));
}

#[test]
fn leaves_need_package_heads() {
    let sync = Synchronizer::new(target(10), operator(), vec![package("a:x", None)]).unwrap();
    let response = FetchLogsResponse::<u64, u64> { operator: vec![record(1)], packages: vec![], more: false };
    let (sync, _) = apply(sync, response).unwrap();
    assert_eq!(sync.inclusion_leaves().err(), Some(ClientError::PackageLogEmpty { name: "a:x".to_string() }));
}

#[test]
fn leaves_list_operator_then_packages() {
    let packages = vec![package("a:x", None), package("a:y", None)];
    let sync = Synchronizer::new(target(10), operator(), packages).unwrap();
    let response = FetchLogsResponse {
        operator: vec![record(1)],
        packages: vec![
            PackageRecords { log_id: "log-a:y".to_string(), records: vec![record(4)] },
            PackageRecords { log_id: "log-a:x".to_string(), records: vec![record(2), record(3)] },
        ],
        more: false,
    };
    let (sync, _) = apply(sync, response).unwrap();
    let (indices, leaves) = sync.inclusion_leaves().unwrap();
    assert_eq!(indices, vec![1, 3, 4]);
    let pairs: Vec<(&str, &str)> = leaves.iter().map(|l| (l.log_id.as_str(), l.record_id.as_str())).collect();
    assert_eq!(pairs, vec![("op", "r1"), ("log-a:x", "r3"), ("log-a:y", "r4")]);
}

#[test]
fn rewound_target_is_refused_before_commit() {
    let sync = Synchronizer::new(target(7), operator(), vec![with_head(package("a:x", None), 2)]).unwrap();
    assert_eq!(
        included(sync).check_progression(Some(&target(10))).err(),
        Some(ClientError::CheckpointLogLengthRewind { from: 10, to: 7 })
    );
}

#[test]
fn equivocating_target_is_refused() {
    let sync = Synchronizer::new(target(10), operator(), vec![with_head(package("a:x", None), 2)]).unwrap();
    let other = Checkpoint { log_length: 10, log_root: vec![1; 4], map_root: vec![8; 4] };
    assert_eq!(
        included(sync).check_progression(Some(&other)).err(),
        Some(ClientError::CheckpointChangedLogRootOrMapRoot { log_length: 10 })
    );
}

#[test]
fn longer_log_owes_consistency_before_commit() {
    let sync = Synchronizer::new(target(10), operator(), vec![with_head(package("a:x", None), 2)]).unwrap();
    let (sync, p) = included(sync).check_progression(Some(&target(6))).unwrap();
    assert_eq!(p, Progression::Extends { from: 6, to: 10 });
    assert_eq!(sync.phase, SyncPhase::ConsistencyOwed);
    let failed = sync.consistency_proved(Err(ApiError::Other("bad proof".to_string())));
    assert_eq!(failed.err(), Some(ClientError::Api(ApiError::Other("bad proof".to_string()))));
}

#[test]
fn failed_inclusion_proof_stops_update() {
    let sync = Synchronizer::new(target(10), operator(), vec![with_head(package("a:x", None), 2)]).unwrap();
    let (sync, _) = apply(sync, empty_page()).unwrap();
    let sync = sync.check_signature(&"k".to_string(), SignatureCheck::Valid).unwrap();
    let r = sync.inclusion_proved(Err(ApiError::Other("missing leaf".to_string())));
    assert_eq!(r.err(), Some(ClientError::Api(ApiError::Other("missing leaf".to_string()))));
}

#[test]
fn bad_signature_stops_update() {
    let sync = Synchronizer::new(target(10), operator(), vec![with_head(package("a:x", None), 2)]).unwrap();
    let (sync, _) = apply(sync, empty_page()).unwrap();
    let r = sync.check_signature(&"k".to_string(), SignatureCheck::Invalid);
    assert_eq!(r.err(), Some(ClientError::InvalidCheckpointSignature));
}

#[test]
fn commit_records_target_checkpoint() {
    let sync = Synchronizer::new(target(10), operator(), vec![with_head(package("a:x", Some(target(3))), 2)]).unwrap();
    let (sync, p) = included(sync).check_progression(None).unwrap();
    assert_eq!(p, Progression::First);
    assert_eq!(sync.phase, SyncPhase::Verified);
    let (op, packages, latest) = sync.commit();
    assert_eq!(packages[0].head.registry_index, Some(2));
    assert_eq!(op.log_id, "op");
    assert_eq!(latest.log_length, 10);
    let c = packages[0].checkpoint.as_ref().unwrap();
    assert_eq!(c.log_length, 10);
    assert_eq!(c.log_root, vec![7; 4]);
}

#[test]
fn signature_outcomes() {
    let key = "key-1".to_string();
    assert_eq!(
        signature_verdict(&key, SignatureCheck::UnknownKey),
        Err(ClientError::InvalidCheckpointKeyId { key_id: key.clone() })
    );
    assert_eq!(signature_verdict(&key, SignatureCheck::Invalid), Err(ClientError::InvalidCheckpointSignature));
    assert_eq!(signature_verdict(&key, SignatureCheck::Valid), Ok(()));
}

#[test]
fn later_package_of_same_log_is_kept() {
    let first = with_head(package("a:x", None), 1);
    let second = with_head(package("a:x", None), 5);
    let sync = Synchronizer::new(target(10), operator(), vec![first, second]).unwrap();
    assert_eq!(sync.packages.len(), 1);
    assert_eq!(sync.packages[0].head.registry_index, Some(5));
}

#[test]
fn page_with_nothing_new_succeeds_without_validation() {
    let op = OperatorInfo { head: with_head(package("o", None), 9).head, ..operator() };
    let sync = Synchronizer::new(target(10), op, vec![with_head(package("a:x", None), 6)]).unwrap();
    let response = FetchLogsResponse {
        operator: vec![FetchedRecord { envelope: 0, ..record(9) }],
        packages: vec![PackageRecords { log_id: "log-a:x".to_string(), records: vec![FetchedRecord { envelope: 0, ..record(4) }] }],
        more: false,
    };
    let (sync, more) = apply(sync, response).unwrap();
    assert!(!more);
    assert!(sync.operator.state.0.is_empty());
    assert!(sync.packages[0].state.0.is_empty());
    assert_eq!(sync.packages[0].head.registry_index, Some(6));
}

#[test]
fn protocol_checks_come_before_validation() {
    let sync = Synchronizer::new(target(10), operator(), vec![package("a:x", None)]).unwrap();
    let response = FetchLogsResponse {
        operator: vec![FetchedRecord { envelope: 0, ..record(1) }],
        packages: vec![PackageRecords { log_id: "log-b:y".to_string(), records: vec![record(2)] }],
        more: false,
    };
    assert!(matches!(apply(sync, response), Err(ClientError::Other(_))));
}
