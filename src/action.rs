//! The actions a log entry is made of, and their mathematical views.
use vstd::prelude::*;

verus! {

/// The characters of each string of a sequence.
pub open spec fn str_seq(v: Seq<String>) -> Seq<Seq<char>> {
    v.map_values(|s: String| s@)
}

/// The characters of each key and value of a sequence of pairs.
pub open spec fn pair_seq(v: Seq<(String, String)>) -> Seq<(Seq<char>, Seq<char>)> {
    v.map_values(|p: (String, String)| (p.0@, p.1@))
}

/// The characters of an optional string.
pub open spec fn opt_str(o: Option<String>) -> Option<Seq<char>> {
    match o {
        Some(s) => Some(s@),
        None => None,
    }
}

/// Copies a list of strings.
pub fn clone_strings(v: &Vec<String>) -> (r: Vec<String>)
    ensures
        r@ == v@,
{
    let mut r: Vec<String> = Vec::new();
    let mut i: usize = 0;
    while i < v.len()
        invariant
            i <= v.len(),
            r@ == v@.take(i as int),
        decreases v.len() - i,
    {
        r.push(v[i].clone());
        i += 1;
        assert(r@ =~= v@.take(i as int));
    }
    assert(v@.take(i as int) =~= v@);
    r
}

/// Copies a list of key/value pairs.
pub fn clone_pairs(v: &Vec<(String, String)>) -> (r: Vec<(String, String)>)
    ensures
        r@ == v@,
{
    let mut r: Vec<(String, String)> = Vec::new();
    let mut i: usize = 0;
    while i < v.len()
        invariant
            i <= v.len(),
            r@ == v@.take(i as int),
        decreases v.len() - i,
    {
        let k = v[i].0.clone();
        let x = v[i].1.clone();
        r.push((k, x));
        i += 1;
        assert(r@ =~= v@.take(i as int));
    }
    assert(v@.take(i as int) =~= v@);
    r
}

/// Copies an optional string.
pub fn clone_opt(o: &Option<String>) -> (r: Option<String>)
    ensures
        r == *o,
{
    match o {
        Some(s) => Some(s.clone()),
        None => None,
    }
}

/// A data file that becomes part of the table.
#[derive(Debug)]
pub struct AddFile {
    pub path: String,
    pub partition_values: Vec<(String, String)>,
    pub size: i64,
    pub modification_time: i64,
    pub data_change: bool,
    pub stats: Option<String>,
}

pub struct AddFileView {
    pub path: Seq<char>,
    pub partition_values: Seq<(Seq<char>, Seq<char>)>,
    pub size: i64,
    pub modification_time: i64,
    pub data_change: bool,
    pub stats: Option<Seq<char>>,
}

impl View for AddFile {
    type V = AddFileView;

    open spec fn view(&self) -> AddFileView {
        AddFileView {
            path: self.path@,
            partition_values: pair_seq(self.partition_values@),
            size: self.size,
            modification_time: self.modification_time,
            data_change: self.data_change,
            stats: opt_str(self.stats),
        }
    }
}

impl AddFile {
    /// A copy with the same view.
    pub fn duplicate(&self) -> (r: AddFile)
        ensures
            r@ == self@,
    {
        AddFile {
            path: self.path.clone(),
            partition_values: clone_pairs(&self.partition_values),
            size: self.size,
            modification_time: self.modification_time,
            data_change: self.data_change,
            stats: clone_opt(&self.stats),
        }
    }
}

/// A data file that leaves the table.
#[derive(Debug)]
pub struct RemoveFile {
    pub path: String,
    pub deletion_timestamp: i64,
    pub data_change: bool,
    pub extended_stats: Option<String>,
}

pub struct RemoveFileView {
    pub path: Seq<char>,
    pub deletion_timestamp: i64,
    pub data_change: bool,
    pub extended_stats: Option<Seq<char>>,
}

impl View for RemoveFile {
    type V = RemoveFileView;

    open spec fn view(&self) -> RemoveFileView {
        RemoveFileView {
            path: self.path@,
            deletion_timestamp: self.deletion_timestamp,
            data_change: self.data_change,
            extended_stats: opt_str(self.extended_stats),
        }
    }
}

impl RemoveFile {
    /// A copy with the same view.
    pub fn duplicate(&self) -> (r: RemoveFile)
        ensures
            r@ == self@,
    {
        RemoveFile {
            path: self.path.clone(),
            deletion_timestamp: self.deletion_timestamp,
            data_change: self.data_change,
            extended_stats: clone_opt(&self.extended_stats),
        }
    }
}

/// One column of a table schema.
#[derive(Debug)]
pub struct SchemaField {
    pub name: String,
    pub data_type: String,
    pub nullable: bool,
}

pub struct SchemaFieldView {
    pub name: Seq<char>,
    pub data_type: Seq<char>,
    pub nullable: bool,
}

impl View for SchemaField {
    type V = SchemaFieldView;

    open spec fn view(&self) -> SchemaFieldView {
        SchemaFieldView { name: self.name@, data_type: self.data_type@, nullable: self.nullable }
    }
}

pub open spec fn field_seq(v: Seq<SchemaField>) -> Seq<SchemaFieldView> {
    v.map_values(|f: SchemaField| f@)
}

/// Copies a schema.
pub fn clone_fields(v: &Vec<SchemaField>) -> (r: Vec<SchemaField>)
    ensures
        field_seq(r@) == field_seq(v@),
{
    let mut r: Vec<SchemaField> = Vec::new();
    let mut i: usize = 0;
    while i < v.len()
        invariant
            i <= v.len(),
            r@.len() == i,
            forall|j: int| 0 <= j < i ==> (#[trigger] r@[j])@ == v@[j]@,
        decreases v.len() - i,
    {
        let f = SchemaField {
            name: v[i].name.clone(),
            data_type: v[i].data_type.clone(),
            nullable: v[i].nullable,
        };
        r.push(f);
        i += 1;
    }
    assert(field_seq(r@) =~= field_seq(v@));
    r
}

/// The table's identity, schema, partitioning and configuration.
#[derive(Debug)]
pub struct Metadata {
    pub id: String,
    pub schema: Vec<SchemaField>,
    pub partition_columns: Vec<String>,
    pub created_time: i64,
    pub configuration: Vec<(String, String)>,
}

pub struct MetadataView {
    pub id: Seq<char>,
    pub schema: Seq<SchemaFieldView>,
    pub partition_columns: Seq<Seq<char>>,
    pub created_time: i64,
    pub configuration: Seq<(Seq<char>, Seq<char>)>,
}

impl View for Metadata {
    type V = MetadataView;

    open spec fn view(&self) -> MetadataView {
        MetadataView {
            id: self.id@,
            schema: field_seq(self.schema@),
            partition_columns: str_seq(self.partition_columns@),
            created_time: self.created_time,
            configuration: pair_seq(self.configuration@),
        }
    }
}

impl Metadata {
    /// A copy with the same view.
    pub fn duplicate(&self) -> (r: Metadata)
        ensures
            r@ == self@,
    {
        Metadata {
            id: self.id.clone(),
            schema: clone_fields(&self.schema),
            partition_columns: clone_strings(&self.partition_columns),
            created_time: self.created_time,
            configuration: clone_pairs(&self.configuration),
        }
    }
}

/// The reader and writer capabilities the table requires.
#[derive(Debug)]
pub struct Protocol {
    pub min_reader_version: i32,
    pub min_writer_version: i32,
    pub reader_features: Vec<String>,
    pub writer_features: Vec<String>,
}

pub struct ProtocolView {
    pub min_reader_version: i32,
    pub min_writer_version: i32,
    pub reader_features: Seq<Seq<char>>,
    pub writer_features: Seq<Seq<char>>,
}

impl View for Protocol {
    type V = ProtocolView;

    open spec fn view(&self) -> ProtocolView {
        ProtocolView {
            min_reader_version: self.min_reader_version,
            min_writer_version: self.min_writer_version,
            reader_features: str_seq(self.reader_features@),
            writer_features: str_seq(self.writer_features@),
        }
    }
}

impl Protocol {
    /// A copy with the same view.
    pub fn duplicate(&self) -> (r: Protocol)
        ensures
            r@ == self@,
    {
        Protocol {
            min_reader_version: self.min_reader_version,
            min_writer_version: self.min_writer_version,
            reader_features: clone_strings(&self.reader_features),
            writer_features: clone_strings(&self.writer_features),
        }
    }
}

/// What a commit did, and when.
#[derive(Debug)]
pub struct CommitInfo {
    pub timestamp: i64,
    pub operation: String,
    pub operation_parameters: Vec<(String, String)>,
    pub metrics: Vec<(String, String)>,
}

pub struct CommitInfoView {
    pub timestamp: i64,
    pub operation: Seq<char>,
    pub operation_parameters: Seq<(Seq<char>, Seq<char>)>,
    pub metrics: Seq<(Seq<char>, Seq<char>)>,
}

impl View for CommitInfo {
    type V = CommitInfoView;

    open spec fn view(&self) -> CommitInfoView {
        CommitInfoView {
            timestamp: self.timestamp,
            operation: self.operation@,
            operation_parameters: pair_seq(self.operation_parameters@),
            metrics: pair_seq(self.metrics@),
        }
    }
}

/// Idempotency marker of an application's write.
#[derive(Debug)]
pub struct Txn {
    pub app_id: String,
    pub version: i64,
    pub last_updated: Option<i64>,
}

pub struct TxnView {
    pub app_id: Seq<char>,
    pub version: i64,
    pub last_updated: Option<i64>,
}

impl View for Txn {
    type V = TxnView;

    open spec fn view(&self) -> TxnView {
        TxnView { app_id: self.app_id@, version: self.version, last_updated: self.last_updated }
    }
}

/// A change-data file written beside the data files.
#[derive(Debug)]
pub struct Cdc {
    pub path: String,
    pub partition_values: Vec<(String, String)>,
    pub size: i64,
}

pub struct CdcView {
    pub path: Seq<char>,
    pub partition_values: Seq<(Seq<char>, Seq<char>)>,
    pub size: i64,
}

impl View for Cdc {
    type V = CdcView;

    open spec fn view(&self) -> CdcView {
        CdcView {
            path: self.path@,
            partition_values: pair_seq(self.partition_values@),
            size: self.size,
        }
    }
}

/// One mutation record of a log entry.
#[derive(Debug)]
pub enum Action {
    Add(AddFile),
    Remove(RemoveFile),
    Metadata(Metadata),
    Protocol(Protocol),
    CommitInfo(CommitInfo),
    Txn(Txn),
    Cdc(Cdc),
}

pub enum ActionView {
    Add(AddFileView),
    Remove(RemoveFileView),
    Metadata(MetadataView),
    Protocol(ProtocolView),
    CommitInfo(CommitInfoView),
    Txn(TxnView),
    Cdc(CdcView),
}

impl View for Action {
    type V = ActionView;

    open spec fn view(&self) -> ActionView {
        match self {
            Action::Add(a) => ActionView::Add(a@),
            Action::Remove(r) => ActionView::Remove(r@),
            Action::Metadata(m) => ActionView::Metadata(m@),
            Action::Protocol(p) => ActionView::Protocol(p@),
            Action::CommitInfo(c) => ActionView::CommitInfo(c@),
            Action::Txn(t) => ActionView::Txn(t@),
            Action::Cdc(c) => ActionView::Cdc(c@),
        }
    }
}

/// The view of each action of an entry.
pub open spec fn entry_view(v: Seq<Action>) -> Seq<ActionView> {
    v.map_values(|a: Action| a@)
}

} // verus!
