//! Checks of a candidate action set against the snapshot it is based on.
use vstd::prelude::*;

use crate::action::{Action, ActionView, MetadataView, ProtocolView, SchemaField, SchemaFieldView, entry_view, field_seq, str_seq};
use crate::error::{CommitBuilderError, DeltaTableError};
use crate::snapshot::{Snapshot, TableState};

verus! {

/// Whether `x` is one of `v`.
pub open spec fn contains_str(v: Seq<Seq<char>>, x: Seq<char>) -> bool {
    exists|i: int| 0 <= i < v.len() && #[trigger] v[i] == x
}

/// Whether every string of `a` is one of `b`.
pub open spec fn subset_of(a: Seq<Seq<char>>, b: Seq<Seq<char>>) -> bool {
    forall|i: int| 0 <= i < a.len() ==> contains_str(b, #[trigger] a[i])
}

/// Whether `new` keeps the column `f`: same name and type, and still nullable if it was.
pub open spec fn keeps_field(new: Seq<SchemaFieldView>, f: SchemaFieldView) -> bool {
    exists|j: int|
        0 <= j < new.len() && (#[trigger] new[j]).name == f.name && new[j].data_type == f.data_type
            && (f.nullable ==> new[j].nullable)
}

/// Whether data written under `old` can be read under `new`.
pub open spec fn schema_compatible(old: Seq<SchemaFieldView>, new: Seq<SchemaFieldView>) -> bool {
    forall|i: int| 0 <= i < old.len() ==> keeps_field(new, #[trigger] old[i])
}

/// Whether `new` requires at least everything `old` did.
pub open spec fn protocol_raises(old: ProtocolView, new: ProtocolView) -> bool {
    old.min_reader_version <= new.min_reader_version && old.min_writer_version
        <= new.min_writer_version && subset_of(old.reader_features, new.reader_features) && subset_of(
        old.writer_features,
        new.writer_features,
    )
}

/// What is wrong with one metadata action against the base metadata.
pub open spec fn metadata_violation(old: MetadataView, m: MetadataView, allow_schema_evolution: bool) -> Option<
    CommitBuilderError,
> {
    if old.partition_columns != m.partition_columns {
        Some(CommitBuilderError::PartitionColumnsChanged)
    } else if !allow_schema_evolution && !schema_compatible(old.schema, m.schema) {
        Some(CommitBuilderError::SchemaIncompatible)
    } else {
        None
    }
}

/// What is wrong with one action against the base state, if anything.
pub open spec fn action_violation(base: TableState, a: ActionView, allow_schema_evolution: bool) -> Option<
    CommitBuilderError,
> {
    match a {
        ActionView::Metadata(m) => match base.metadata {
            Some(old) => metadata_violation(old, m, allow_schema_evolution),
            None => None,
        },
        ActionView::Protocol(p) => match base.protocol {
            Some(old) => if protocol_raises(old, p) {
                None
            } else {
                Some(CommitBuilderError::ProtocolDowngrade)
            },
            None => None,
        },
        _ => None,
    }
}

/// The violation of the first offending action, if any.
pub open spec fn first_violation(base: TableState, acts: Seq<ActionView>, allow_schema_evolution: bool) -> Option<
    CommitBuilderError,
>
    decreases acts.len(),
{
    if acts.len() == 0 {
        None
    } else {
        match first_violation(base, acts.drop_last(), allow_schema_evolution) {
            Some(v) => Some(v),
            None => action_violation(base, acts.last(), allow_schema_evolution),
        }
    }
}

/// Whether `e` is the error that reports violation `v`.
pub open spec fn reports(e: DeltaTableError, v: CommitBuilderError) -> bool {
    match v {
        CommitBuilderError::SchemaIncompatible => e is SchemaMismatch,
        _ => e == DeltaTableError::CommitValidation { source: v },
    }
}

/// Whether `x` is one of `v`.
pub fn vec_contains(v: &Vec<String>, x: &String) -> (r: bool)
    ensures
        r == contains_str(str_seq(v@), x@),
{
    let mut i: usize = 0;
    while i < v.len()
        invariant
            i <= v.len(),
            forall|j: int| 0 <= j < i ==> str_seq(v@)[j] != x@,
        decreases v.len() - i,
    {
        if v[i] == *x {
            assert(str_seq(v@)[i as int] == x@);
            return true;
        }
        i += 1;
    }
    false
}

/// Whether every string of `a` is one of `b`.
pub fn is_subset(a: &Vec<String>, b: &Vec<String>) -> (r: bool)
    ensures
        r == subset_of(str_seq(a@), str_seq(b@)),
{
    let mut i: usize = 0;
    while i < a.len()
        invariant
            i <= a.len(),
            forall|j: int| 0 <= j < i ==> contains_str(str_seq(b@), #[trigger] str_seq(a@)[j]),
        decreases a.len() - i,
    {
        if !vec_contains(b, &a[i]) {
            assert(!contains_str(str_seq(b@), str_seq(a@)[i as int]));
            return false;
        }
        i += 1;
    }
    true
}

/// Whether two lists of strings are equal.
pub fn same_strings(a: &Vec<String>, b: &Vec<String>) -> (r: bool)
    ensures
        r == (str_seq(a@) == str_seq(b@)),
{
    if a.len() != b.len() {
        assert(str_seq(a@).len() != str_seq(b@).len());
        return false;
    }
    let mut i: usize = 0;
    while i < a.len()
        invariant
            i <= a.len(),
            a.len() == b.len(),
            forall|j: int| 0 <= j < i ==> str_seq(a@)[j] == str_seq(b@)[j],
        decreases a.len() - i,
    {
        if a[i] != b[i] {
            assert(str_seq(a@)[i as int] != str_seq(b@)[i as int]);
            return false;
        }
        i += 1;
    }
    assert(str_seq(a@) =~= str_seq(b@));
    true
}

/// Whether `new` keeps the column `f`.
fn keeps(new: &Vec<SchemaField>, f: &SchemaField) -> (r: bool)
    ensures
        r == keeps_field(field_seq(new@), f@),
{
    let mut j: usize = 0;
    while j < new.len()
        invariant
            j <= new.len(),
            forall|k: int|
                0 <= k < j ==> !(field_seq(new@)[k].name == f@.name && field_seq(new@)[k].data_type
                    == f@.data_type && (f@.nullable ==> field_seq(new@)[k].nullable)),
        decreases new.len() - j,
    {
        if new[j].name == f.name && new[j].data_type == f.data_type && (!f.nullable
            || new[j].nullable) {
            assert(field_seq(new@)[j as int] == new@[j as int]@);
            return true;
        }
        j += 1;
    }
    false
}

/// Whether data written under `old` can be read under `new`.
pub fn is_schema_compatible(old: &Vec<SchemaField>, new: &Vec<SchemaField>) -> (r: bool)
    ensures
        r == schema_compatible(field_seq(old@), field_seq(new@)),
{
    let mut i: usize = 0;
    while i < old.len()
        invariant
            i <= old.len(),
            forall|j: int| 0 <= j < i ==> keeps_field(field_seq(new@), #[trigger] field_seq(old@)[j]),
        decreases old.len() - i,
    {
        if !keeps(new, &old[i]) {
            assert(!keeps_field(field_seq(new@), field_seq(old@)[i as int]));
            return false;
        }
        i += 1;
    }
    true
}

/// The violation of one action against the base snapshot, if any.
fn check_action(base: &Snapshot, a: &Action, allow_schema_evolution: bool) -> (r: Option<CommitBuilderError>)
    ensures
        r == action_violation(base.state(), a@, allow_schema_evolution),
{
    match a {
        Action::Metadata(m) => match &base.metadata {
            Some(old) => {
                if !same_strings(&old.partition_columns, &m.partition_columns) {
                    Some(CommitBuilderError::PartitionColumnsChanged)
                } else if !allow_schema_evolution && !is_schema_compatible(&old.schema, &m.schema) {
                    Some(CommitBuilderError::SchemaIncompatible)
                } else {
                    None
                }
            },
            None => None,
        },
        Action::Protocol(p) => match &base.protocol {
            Some(old) => {
                if old.min_reader_version <= p.min_reader_version && old.min_writer_version
                    <= p.min_writer_version && is_subset(&old.reader_features, &p.reader_features)
                    && is_subset(&old.writer_features, &p.writer_features) {
                    None
                } else {
                    Some(CommitBuilderError::ProtocolDowngrade)
                }
            },
            None => None,
        },
        _ => None,
    }
}

/// Validates actions against the snapshot they are based on: partition
/// columns never change, a schema change keeps every column unless schema
/// evolution is allowed, and a protocol never lowers a requirement. The first
/// offending action decides the error.
pub fn validate_actions(base: &Snapshot, actions: &Vec<Action>, allow_schema_evolution: bool) -> (r: Result<
    (),
    DeltaTableError,
>)
    ensures
        match first_violation(base.state(), entry_view(actions@), allow_schema_evolution) {
            Some(v) => r matches Err(e) && reports(e, v),
            None => r is Ok,
        },
{
    let ghost acts = entry_view(actions@);
    let mut i: usize = 0;
    while i < actions.len()
        invariant
            i <= actions.len(),
            acts == entry_view(actions@),
            first_violation(base.state(), acts.take(i as int), allow_schema_evolution) is None,
        decreases actions.len() - i,
    {
        assert(acts.take(i + 1).drop_last() =~= acts.take(i as int));
        match check_action(base, &actions[i], allow_schema_evolution) {
            Some(v) => {
                proof { lemma_violation_prefix(base.state(), acts, i + 1, allow_schema_evolution); }
                return match v {
                    CommitBuilderError::SchemaIncompatible => Err(
                        DeltaTableError::SchemaMismatch {
                            msg: String::from_str("a metadata action drops or narrows a column"),
                        },
                    ),
                    _ => Err(DeltaTableError::CommitValidation { source: v }),
                };
            },
            None => {},
        }
        i += 1;
    }
    assert(acts.take(i as int) =~= acts);
    Ok(())
}

/// A violation found in a prefix is the first violation of the whole sequence.
pub proof fn lemma_violation_prefix(base: TableState, acts: Seq<ActionView>, j: int, allow: bool)
    requires
        0 <= j <= acts.len(),
        first_violation(base, acts.take(j), allow) is Some,
    ensures
        first_violation(base, acts, allow) == first_violation(base, acts.take(j), allow),
    decreases acts.len() - j,
{
    if j < acts.len() {
        assert(acts.take(j + 1).drop_last() =~= acts.take(j));
        lemma_violation_prefix(base, acts, j + 1, allow);
    } else {
        assert(acts.take(j) =~= acts);
    }
}

} // verus!
