//! The error taxonomy of table operations.
use vstd::prelude::*;

verus! {

/// Declares serde_json::Error so that errors can carry the parser's own error
/// value as an opaque cause; nothing about its contents is assumed.
#[verifier::external_type_specification]
#[verifier::external_body]
pub struct ExJsonError(serde_json::Error);

/// Why an action set cannot be committed as it stands.
#[derive(Debug, PartialEq, Eq, Structural)]
pub enum CommitBuilderError {
    /// A protocol action would lower a reader or writer version, or drop a feature.
    ProtocolDowngrade,
    /// A metadata action would change the partition columns set by the first one.
    PartitionColumnsChanged,
    /// A metadata action would drop or narrow a column of the schema.
    SchemaIncompatible,
}

/// Delta Table specific error.
///
/// Failures of outside collaborators (object store, columnar codec, kernel) are
/// carried as their message; JSON failures keep the parser's own error value.
#[allow(inconsistent_fields)]
#[derive(Debug)]
pub enum DeltaTableError {
    KernelError(String),
    /// Reading the delta log object failed.
    ObjectStore { source: String },
    /// Parsing checkpoint parquet failed.
    Parquet { source: String },
    /// Converting the schema into Arrow format failed.
    Arrow { source: String },
    /// A log record holds invalid JSON.
    InvalidJsonLog { json_err: serde_json::Error, line: String, version: i64 },
    /// The log holds invalid stats JSON.
    InvalidStatsJson { json_err: serde_json::Error },
    /// An invariant expression holds invalid JSON.
    InvalidInvariantJson { json_err: serde_json::Error, line: String },
    /// The table has no such version.
    InvalidVersion(i64),
    /// A remove action names a file the table does not hold.
    MissingDataFile { source: String, path: String },
    /// A datetime string could not be parsed.
    InvalidDateTimeString { source: String },
    /// An attempt to write invalid data.
    InvalidData { violations: Vec<String> },
    /// The location holds no table.
    NotATable(String),
    /// No metadata was found.
    NoMetadata,
    /// No schema was found.
    NoSchema,
    /// No partitions were found.
    LoadPartitions,
    /// Written data does not match the schema or partitions of the table.
    SchemaMismatch { msg: String },
    /// A partition is not formatted as `key=value`.
    PartitionError { partition: String },
    /// An invalid partition filter.
    InvalidPartitionFilter { partition_filter: String },
    /// A partition filter names columns the table is not partitioned by.
    ColumnsNotPartitioned { nonpartitioned_columns: Vec<String> },
    /// Reading a line of a log record failed.
    Io { source: String },
    /// The actions of a commit are unsound.
    CommitValidation { source: CommitBuilderError },
    /// A transaction failed.
    Transaction { source: String },
    /// Retries ran out: the given version is already taken.
    VersionAlreadyExists(i64),
    /// A concurrent commit at the first version conflicts with the actions
    /// meant to follow the second.
    VersionMismatch(i64, i64),
    /// A feature is missing for the storage location.
    MissingFeature { feature: String, url: String },
    /// The storage location cannot be inferred.
    InvalidTableLocation(String),
    /// Serializing a log record failed.
    SerializeLogJson { json_err: serde_json::Error },
    /// Serializing a schema failed.
    SerializeSchemaJson { json_err: serde_json::Error },
    /// Generic error with a message.
    Generic(String),
    /// Generic error with a cause.
    GenericError { source: String },
    Kernel { source: String },
    MetadataError(String),
    NotInitialized,
    NotInitializedWithFiles(String),
    ChangeDataNotRecorded { version: i64, start: i64, end: i64 },
    ChangeDataNotEnabled { version: i64 },
    ChangeDataInvalidVersionRange { start: i64, end: i64 },
    /// The end timestamp, in milliseconds since the epoch, lies after the latest commit.
    ChangeDataTimestampGreaterThanCommit { ending_timestamp: i64 },
    NoStartingVersionOrTimestamp,
}

impl From<serde_json::Error> for DeltaTableError {
    fn from(value: serde_json::Error) -> (r: Self)
        ensures
            r == (DeltaTableError::InvalidStatsJson { json_err: value }),
    {
        DeltaTableError::InvalidStatsJson { json_err: value }
    }
}

impl vstd::std_specs::convert::FromSpecImpl<serde_json::Error> for DeltaTableError {
    open spec fn obeys_from_spec() -> bool {
        true
    }

    open spec fn from_spec(v: serde_json::Error) -> Self {
        DeltaTableError::InvalidStatsJson { json_err: v }
    }
}

/// The message of a "not a table" error for a location.
pub open spec fn not_a_table_message(path: Seq<char>) -> Seq<char> {
    "No snapshot or version 0 found, perhaps "@ + path + " is an empty dir?"@
}

impl DeltaTableError {
    /// A `NotATable` error with a message for the given location.
    pub fn not_a_table(path: &str) -> (r: Self)
        ensures
            r matches DeltaTableError::NotATable(m) && m@ == not_a_table_message(path@),
    {
        let mut msg = String::from_str("No snapshot or version 0 found, perhaps ");
        msg.append(path);
        msg.append(" is an empty dir?");
        DeltaTableError::NotATable(msg)
    }

    /// A `Generic` error with the given message.
    pub fn generic(msg: &str) -> (r: Self)
        ensures
            r matches DeltaTableError::Generic(m) && m@ == msg@,
    {
        DeltaTableError::Generic(String::from_str(msg))
    }
}

} // verus!
