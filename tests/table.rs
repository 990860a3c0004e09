use deltalake_core::action::{Action, AddFile, Cdc, CommitInfo, Metadata, Protocol, RemoveFile, SchemaField};
use deltalake_core::cdf::{read_changes, ChangeType};
use deltalake_core::checkpoint::{checkpoint_tombstones, maybe_checkpoint, should_checkpoint};
use deltalake_core::commit::{commit, conflicts_with, CommitProperties};
use deltalake_core::error::{CommitBuilderError, DeltaTableError};
use deltalake_core::log::{load_snapshot, DeltaLog};
use deltalake_core::partition::{validate_partition_filters, DeltaTablePartition, PartitionFilter};
use deltalake_core::snapshot::Snapshot;

fn add(path: &str) -> Action {
    Action::Add(AddFile {
        path: path.to_string(),
        partition_values: vec![],
        size: 100,
        modification_time: 1,
        data_change: true,
        stats: None,
    })
}

fn remove(path: &str) -> Action {
    Action::Remove(RemoveFile {
        path: path.to_string(),
        deletion_timestamp: 5,
        data_change: true,
        extended_stats: None,
    })
}

fn field(name: &str, data_type: &str, nullable: bool) -> SchemaField {
    SchemaField { name: name.to_string(), data_type: data_type.to_string(), nullable }
}

fn metadata(partitions: &[&str], cdf: bool, schema: Vec<SchemaField>) -> Metadata {
    let mut configuration = vec![];
    if cdf {
        configuration.push(("delta.enableChangeDataFeed".to_string(), "true".to_string()));
    }
    Metadata {
        id: "table-id".to_string(),
        schema,
        partition_columns: partitions.iter().map(|p| p.to_string()).collect(),
        created_time: 0,
        configuration,
    }
}

fn base_schema() -> Vec<SchemaField> {
    vec![field("id", "long", false), field("date", "string", true)]
}

fn protocol(reader: i32, writer: i32, features: &[&str]) -> Protocol {
    Protocol {
        min_reader_version: reader,
        min_writer_version: writer,
        reader_features: features.iter().map(|f| f.to_string()).collect(),
        writer_features: features.iter().map(|f| f.to_string()).collect(),
    }
}

fn info(timestamp: i64) -> CommitInfo {
    CommitInfo {
        timestamp,
        operation: "WRITE".to_string(),
        operation_parameters: vec![],
        metrics: vec![],
    }
}

fn props(max_attempts: u32) -> CommitProperties {
    CommitProperties { max_attempts, allow_schema_evolution: false }
}

fn file_paths(s: &Snapshot) -> Vec<String> {
    s.files.iter().map(|f| f.path.clone()).collect()
}

/// A table whose version 0 holds metadata, protocol and "a.parquet".
fn table_at_zero() -> (DeltaLog, Snapshot) {
    let mut log = DeltaLog::new();
    let actions = vec![
        Action::Metadata(metadata(&["date"], true, base_schema())),
        Action::Protocol(protocol(1, 2, &["cdf"])),
        add("a.parquet"),
    ];
    let s = commit(&mut log, &Snapshot::empty(), actions, info(1000), props(3)).unwrap();
    (log, s)
}

#[test]
fn first_commit_creates_version_zero() {
    let (log, s) = table_at_zero();
    assert_eq!(s.version, 0);
    assert_eq!(log.version_count(), 1);
    assert_eq!(file_paths(&s), vec!["a.parquet"]);
    assert!(s.metadata.is_some());
}

#[test]
fn concurrent_commit_rebases_without_overwriting() {
    let (mut log, v0) = table_at_zero();
    let v1 = commit(&mut log, &v0, vec![add("b.parquet")], info(2000), props(3)).unwrap();
    assert_eq!(v1.version, 1);
    assert_eq!(file_paths(&v1), vec!["a.parquet", "b.parquet"]);
    let v2 = commit(&mut log, &v0, vec![add("c.parquet")], info(3000), props(3)).unwrap();
    assert_eq!(v2.version, 2);
    assert_eq!(file_paths(&v2), vec!["a.parquet", "b.parquet", "c.parquet"]);
    let latest = load_snapshot(&log, "mem://t", None, None).unwrap();
    assert_eq!(file_paths(&latest), vec!["a.parquet", "b.parquet", "c.parquet"]);
    let at_one = load_snapshot(&log, "mem://t", None, Some(1)).unwrap();
    assert_eq!(file_paths(&at_one), vec!["a.parquet", "b.parquet"]);
}

#[test]
fn conflicting_concurrent_commit_fails() {
    let (mut log, v0) = table_at_zero();
    commit(&mut log, &v0, vec![add("b.parquet")], info(2000), props(3)).unwrap();
    let r = commit(&mut log, &v0, vec![add("b.parquet")], info(3000), props(3));
    assert!(matches!(r, Err(DeltaTableError::VersionMismatch(1, 0))));
    assert_eq!(log.version_count(), 2);
}

#[test]
fn concurrent_removes_of_one_file_conflict() {
    let (mut log, v0) = table_at_zero();
    commit(&mut log, &v0, vec![remove("a.parquet")], info(2000), props(3)).unwrap();
    let r = commit(&mut log, &v0, vec![remove("a.parquet")], info(3000), props(3));
    assert!(matches!(r, Err(DeltaTableError::VersionMismatch(1, 0))));
}

#[test]
fn concurrent_metadata_change_conflicts() {
    let (mut log, v0) = table_at_zero();
    let m = Action::Metadata(metadata(&["date"], true, base_schema()));
    commit(&mut log, &v0, vec![m], info(2000), props(3)).unwrap();
    let r = commit(&mut log, &v0, vec![add("z.parquet")], info(3000), props(3));
    assert!(matches!(r, Err(DeltaTableError::VersionMismatch(1, 0))));
}

#[test]
fn retries_are_bounded() {
    let (mut log, v0) = table_at_zero();
    commit(&mut log, &v0, vec![add("b.parquet")], info(2000), props(3)).unwrap();
    let r = commit(&mut log, &v0, vec![add("c.parquet")], info(3000), props(1));
    assert!(matches!(r, Err(DeltaTableError::VersionAlreadyExists(1))));
    let r = commit(&mut log, &v0, vec![add("c.parquet")], info(3000), props(0));
    assert!(matches!(r, Err(DeltaTableError::VersionAlreadyExists(1))));
    assert_eq!(log.version_count(), 2);
}

#[test]
fn remove_of_absent_file_is_corruption() {
    let (mut log, v0) = table_at_zero();
    let r = commit(&mut log, &v0, vec![remove("missing.parquet")], info(2000), props(3));
    match r {
        Err(DeltaTableError::MissingDataFile { path, .. }) => assert_eq!(path, "missing.parquet"),
        other => panic!("unexpected {:?}", other),
    }
    assert_eq!(log.version_count(), 1);
}

#[test]
fn remove_then_load_drops_file() {
    let (mut log, v0) = table_at_zero();
    let v1 = commit(&mut log, &v0, vec![add("b.parquet")], info(2000), props(3)).unwrap();
    let v2 = commit(&mut log, &v1, vec![remove("a.parquet")], info(3000), props(3)).unwrap();
    assert_eq!(file_paths(&v2), vec!["b.parquet"]);
}

#[test]
fn loading_twice_gives_identical_snapshots() {
    let (mut log, v0) = table_at_zero();
    commit(&mut log, &v0, vec![add("b.parquet")], info(2000), props(3)).unwrap();
    let first = load_snapshot(&log, "mem://t", None, None).unwrap();
    let second = load_snapshot(&log, "mem://t", None, None).unwrap();
    assert_eq!(format!("{:?}", first), format!("{:?}", second));
}

#[test]
fn checkpoint_replay_equals_full_replay() {
    let (mut log, v0) = table_at_zero();
    let v1 = commit(&mut log, &v0, vec![add("b.parquet")], info(2000), props(3)).unwrap();
    let v2 = commit(&mut log, &v1, vec![remove("a.parquet"), add("c.parquet")], info(3000), props(3)).unwrap();
    commit(&mut log, &v2, vec![add("d.parquet")], info(4000), props(3)).unwrap();
    let cp = load_snapshot(&log, "mem://t", None, Some(1)).unwrap();
    let from_cp = load_snapshot(&log, "mem://t", Some(&cp), Some(3)).unwrap();
    let full = load_snapshot(&log, "mem://t", None, Some(3)).unwrap();
    assert_eq!(format!("{:?}", from_cp), format!("{:?}", full));
    assert_eq!(file_paths(&full), vec!["b.parquet", "c.parquet", "d.parquet"]);
}

#[test]
fn empty_log_is_not_a_table() {
    let log = DeltaLog::new();
    match load_snapshot(&log, "s3://bucket/t", None, None) {
        Err(DeltaTableError::NotATable(m)) => {
            assert_eq!(m, "No snapshot or version 0 found, perhaps s3://bucket/t is an empty dir?")
        }
        other => panic!("unexpected {:?}", other),
    }
}

#[test]
fn loading_unknown_version_fails() {
    let (log, _) = table_at_zero();
    assert!(matches!(load_snapshot(&log, "t", None, Some(4)), Err(DeltaTableError::InvalidVersion(4))));
    assert!(matches!(load_snapshot(&log, "t", None, Some(-1)), Err(DeltaTableError::InvalidVersion(-1))));
}

#[test]
fn put_if_absent_refuses_taken_and_gapped_versions() {
    let (mut log, _) = table_at_zero();
    assert!(matches!(log.put_if_absent(0, vec![]), Err(DeltaTableError::VersionAlreadyExists(0))));
    assert!(matches!(log.put_if_absent(2, vec![]), Err(DeltaTableError::InvalidVersion(2))));
    assert!(log.put_if_absent(1, vec![]).is_ok());
    assert_eq!(log.version_count(), 2);
}

#[test]
fn partition_columns_cannot_change() {
    let (mut log, v0) = table_at_zero();
    let m = Action::Metadata(metadata(&["region"], true, base_schema()));
    let r = commit(&mut log, &v0, vec![m], info(2000), props(3));
    assert!(matches!(
        r,
        Err(DeltaTableError::CommitValidation { source: CommitBuilderError::PartitionColumnsChanged })
    ));
    assert_eq!(log.version_count(), 1);
}

#[test]
fn dropping_a_column_is_a_schema_mismatch() {
    let (mut log, v0) = table_at_zero();
    let m = Action::Metadata(metadata(&["date"], true, vec![field("date", "string", true)]));
    let r = commit(&mut log, &v0, vec![m], info(2000), props(3));
    assert!(matches!(r, Err(DeltaTableError::SchemaMismatch { .. })));
}

#[test]
fn narrowing_nullability_is_a_schema_mismatch() {
    let (mut log, v0) = table_at_zero();
    let schema = vec![field("id", "long", false), field("date", "string", false)];
    let m = Action::Metadata(metadata(&["date"], true, schema));
    let r = commit(&mut log, &v0, vec![m], info(2000), props(3));
    assert!(matches!(r, Err(DeltaTableError::SchemaMismatch { .. })));
}

#[test]
fn schema_evolution_when_allowed() {
    let (mut log, v0) = table_at_zero();
    let m = Action::Metadata(metadata(&["date"], true, vec![field("date", "string", true)]));
    let p = CommitProperties { max_attempts: 3, allow_schema_evolution: true };
    let v1 = commit(&mut log, &v0, vec![m], info(2000), p).unwrap();
    assert_eq!(v1.metadata.unwrap().schema.len(), 1);
}

#[test]
fn adding_a_column_is_compatible() {
    let (mut log, v0) = table_at_zero();
    let mut schema = base_schema();
    schema.push(field("amount", "double", true));
    let m = Action::Metadata(metadata(&["date"], true, schema));
    let v1 = commit(&mut log, &v0, vec![m], info(2000), props(3)).unwrap();
    assert_eq!(v1.metadata.unwrap().schema.len(), 3);
}

#[test]
fn protocol_cannot_be_lowered() {
    let (mut log, v0) = table_at_zero();
    let r = commit(&mut log, &v0, vec![Action::Protocol(protocol(1, 1, &["cdf"]))], info(2000), props(3));
    assert!(matches!(r, Err(DeltaTableError::CommitValidation { source: CommitBuilderError::ProtocolDowngrade })));
    let r = commit(&mut log, &v0, vec![Action::Protocol(protocol(1, 2, &[]))], info(2000), props(3));
    assert!(matches!(r, Err(DeltaTableError::CommitValidation { source: CommitBuilderError::ProtocolDowngrade })));
    let v1 = commit(&mut log, &v0, vec![Action::Protocol(protocol(3, 7, &["cdf", "dv"]))], info(2000), props(3))
        .unwrap();
    assert_eq!(v1.protocol.unwrap().min_writer_version, 7);
}

#[test]
fn conflict_classification() {
    let own = vec![add("x"), remove("y")];
    assert!(conflicts_with(&own, &vec![add("x")]));
    assert!(conflicts_with(&own, &vec![remove("y")]));
    assert!(!conflicts_with(&own, &vec![add("y"), remove("x"), add("z")]));
    assert!(conflicts_with(&own, &vec![Action::Protocol(protocol(1, 2, &[]))]));
    assert!(!conflicts_with(&own, &vec![Action::CommitInfo(info(1))]));
}

fn table_with_rebase() -> (DeltaLog, Snapshot) {
    let (mut log, v0) = table_at_zero();
    commit(&mut log, &v0, vec![add("b.parquet")], info(2000), props(3)).unwrap();
    let v2 = commit(&mut log, &v0, vec![add("c.parquet")], info(3000), props(3)).unwrap();
    (log, v2)
}

#[test]
fn read_changes_of_one_version() {
    let (log, latest) = table_with_rebase();
    let evs = read_changes(&log, &latest, Some(2), Some(2), None).unwrap();
    assert_eq!(evs.len(), 1);
    assert_eq!(evs[0].path, "c.parquet");
    assert_eq!(evs[0].change_type, ChangeType::Insert);
    assert_eq!(evs[0].version, 2);
    assert_eq!(evs[0].timestamp, 3000);
    let evs = read_changes(&log, &latest, Some(1), Some(1), None).unwrap();
    assert_eq!(evs.len(), 1);
    assert_eq!(evs[0].path, "b.parquet");
}

#[test]
fn read_changes_net_effect_matches_diff() {
    let (mut log, v0) = table_at_zero();
    let v1 = commit(&mut log, &v0, vec![add("b.parquet")], info(2000), props(3)).unwrap();
    let v2 = commit(&mut log, &v1, vec![remove("a.parquet"), add("c.parquet")], info(3000), props(3)).unwrap();
    let evs = read_changes(&log, &v2, Some(1), None, None).unwrap();
    let kinds: Vec<(String, ChangeType)> = evs.iter().map(|e| (e.path.clone(), e.change_type)).collect();
    assert_eq!(
        kinds,
        vec![
            ("b.parquet".to_string(), ChangeType::Insert),
            ("a.parquet".to_string(), ChangeType::Delete),
            ("c.parquet".to_string(), ChangeType::Insert),
        ]
    );
    let mut live: Vec<String> = vec!["a.parquet".to_string()];
    for e in &evs {
        match e.change_type {
            ChangeType::Insert => live.push(e.path.clone()),
            ChangeType::Delete => live.retain(|p| p != &e.path),
            ChangeType::ChangeFile => {}
        }
    }
    live.sort();
    let mut expected = file_paths(&v2);
    expected.sort();
    assert_eq!(live, expected);
}

#[test]
fn read_changes_prefers_change_files() {
    let (mut log, v0) = table_at_zero();
    let cdc = Action::Cdc(Cdc { path: "_change_data/c1.parquet".to_string(), partition_values: vec![], size: 10 });
    let v1 = commit(&mut log, &v0, vec![add("b.parquet"), cdc], info(2000), props(3)).unwrap();
    let evs = read_changes(&log, &v1, Some(1), Some(1), None).unwrap();
    assert_eq!(evs.len(), 1);
    assert_eq!(evs[0].path, "_change_data/c1.parquet");
    assert_eq!(evs[0].change_type, ChangeType::ChangeFile);
}

#[test]
fn read_changes_errors() {
    let (log, latest) = table_with_rebase();
    assert!(matches!(
        read_changes(&log, &latest, None, Some(1), None),
        Err(DeltaTableError::NoStartingVersionOrTimestamp)
    ));
    assert!(matches!(
        read_changes(&log, &latest, Some(2), Some(1), None),
        Err(DeltaTableError::ChangeDataInvalidVersionRange { start: 2, end: 1 })
    ));
    assert!(matches!(
        read_changes(&log, &latest, Some(0), None, Some(9999)),
        Err(DeltaTableError::ChangeDataTimestampGreaterThanCommit { ending_timestamp: 9999 })
    ));
    assert!(matches!(read_changes(&log, &latest, Some(0), Some(7), None), Err(DeltaTableError::InvalidVersion(7))));
}

#[test]
fn read_changes_end_timestamp_picks_version() {
    let (log, latest) = table_with_rebase();
    let evs = read_changes(&log, &latest, Some(1), None, Some(2500)).unwrap();
    assert_eq!(evs.len(), 1);
    assert_eq!(evs[0].path, "b.parquet");
}

#[test]
fn read_changes_needs_feed_enabled() {
    let mut log = DeltaLog::new();
    let actions = vec![Action::Metadata(metadata(&[], false, base_schema())), add("a.parquet")];
    let v0 = commit(&mut log, &Snapshot::empty(), actions, info(1), props(1)).unwrap();
    assert!(matches!(
        read_changes(&log, &v0, Some(0), None, None),
        Err(DeltaTableError::ChangeDataNotEnabled { version: 0 })
    ));
}

#[test]
fn filter_on_non_partitioned_column_fails() {
    let filters = vec![PartitionFilter { key: "region".to_string(), value: "eu".to_string() }];
    let parts = vec!["date".to_string()];
    match validate_partition_filters(&filters, &parts) {
        Err(DeltaTableError::ColumnsNotPartitioned { nonpartitioned_columns }) => {
            assert_eq!(nonpartitioned_columns, vec!["region".to_string()])
        }
        other => panic!("unexpected {:?}", other),
    }
    let ok = vec![PartitionFilter { key: "date".to_string(), value: "2024-01-01".to_string() }];
    assert!(validate_partition_filters(&ok, &parts).is_ok());
}

#[test]
fn malformed_partition_string_fails() {
    match DeltaTablePartition::from_hive_str("region") {
        Err(DeltaTableError::PartitionError { partition }) => assert_eq!(partition, "region"),
        other => panic!("unexpected {:?}", other),
    }
    assert!(matches!(DeltaTablePartition::from_hive_str("a=b=c"), Err(DeltaTableError::PartitionError { .. })));
    let p = DeltaTablePartition::from_hive_str("date=2024-01-01").unwrap();
    assert_eq!(p.key, "date");
    assert_eq!(p.value, "2024-01-01");
    let p = DeltaTablePartition::from_hive_str("k=").unwrap();
    assert_eq!(p.key, "k");
    assert_eq!(p.value, "");
}

#[test]
fn checkpoint_policy() {
    assert!(should_checkpoint(10, 10));
    assert!(should_checkpoint(20, 10));
    assert!(!should_checkpoint(15, 10));
    assert!(!should_checkpoint(0, 10));
    assert!(!should_checkpoint(10, 0));
    let (mut log, v0) = table_at_zero();
    let v1 = commit(&mut log, &v0, vec![add("b.parquet")], info(2000), props(3)).unwrap();
    let c = maybe_checkpoint(&v1, vec![], 1).unwrap();
    assert_eq!(c.marker.version, 1);
    assert_eq!(c.marker.size, 4);
    assert_eq!(file_paths(&c.snapshot), vec!["a.parquet", "b.parquet"]);
    assert!(maybe_checkpoint(&v1, vec![], 2).is_none());
}

#[test]
fn tombstones_within_retention_are_kept() {
    let (mut log, v0) = table_at_zero();
    let v1 = commit(&mut log, &v0, vec![add("b.parquet"), add("c.parquet")], info(2000), props(3)).unwrap();
    let old_remove = Action::Remove(RemoveFile {
        path: "b.parquet".to_string(),
        deletion_timestamp: 100,
        data_change: true,
        extended_stats: None,
    });
    let new_remove = Action::Remove(RemoveFile {
        path: "c.parquet".to_string(),
        deletion_timestamp: 900,
        data_change: true,
        extended_stats: None,
    });
    let v2 = commit(&mut log, &v1, vec![old_remove, new_remove], info(3000), props(3)).unwrap();
    let kept = checkpoint_tombstones(&log, 2, 1000, 500);
    assert_eq!(kept.len(), 1);
    assert_eq!(kept[0].path, "c.parquet");
    let all = checkpoint_tombstones(&log, 2, 1000, 900);
    assert_eq!(all.len(), 2);
    assert!(checkpoint_tombstones(&log, 1, 1000, 900).is_empty());
    let c = maybe_checkpoint(&v2, kept, 2).unwrap();
    assert_eq!(c.marker.size, 4);
    assert_eq!(c.tombstones[0].path, "c.parquet");
}

#[test]
fn error_constructors() {
    match DeltaTableError::not_a_table("/tmp/t") {
        DeltaTableError::NotATable(m) => {
            assert_eq!(m, "No snapshot or version 0 found, perhaps /tmp/t is an empty dir?")
        }
        other => panic!("unexpected {:?}", other),
    }
    match DeltaTableError::generic("boom") {
        DeltaTableError::Generic(m) => assert_eq!(m, "boom"),
        other => panic!("unexpected {:?}", other),
    }
}

#[test]
fn json_error_becomes_stats_error() {
    let err = serde_json::from_str::<serde_json::Value>("{not json").unwrap_err();
    let e: DeltaTableError = err.into();
    assert!(matches!(e, DeltaTableError::InvalidStatsJson { .. }));
}
