//! Hive-style partition values and partition filter checks.
use vstd::prelude::*;

use crate::action::str_seq;
use crate::error::DeltaTableError;
use crate::validate::{contains_str, vec_contains};

verus! {

/// Whether `s` holds exactly one `=`.
pub open spec fn exactly_one_eq(s: Seq<char>) -> bool {
    exists|i: int|
        0 <= i < s.len() && #[trigger] s[i] == '=' && forall|j: int|
            0 <= j < s.len() && j != i ==> s[j] != '='
}

/// Whether `s` holds no `=`.
pub open spec fn no_eq(s: Seq<char>) -> bool {
    forall|j: int| 0 <= j < s.len() ==> s[j] != '='
}

/// One partition value of a path, written `key=value`.
#[derive(Debug)]
pub struct DeltaTablePartition {
    pub key: String,
    pub value: String,
}

impl DeltaTablePartition {
    /// Parses `key=value`; anything without exactly one `=` is malformed.
    pub fn from_hive_str(s: &str) -> (r: Result<DeltaTablePartition, DeltaTableError>)
        ensures
            r is Ok <==> exactly_one_eq(s@),
            r matches Ok(p) ==> s@ == p.key@ + seq!['='] + p.value@ && no_eq(p.key@) && no_eq(
                p.value@,
            ),
            r is Err ==> (r matches Err(DeltaTableError::PartitionError { partition }) && partition@
                == s@),
    {
        let n = s.unicode_len();
        let mut pos: Option<usize> = None;
        let mut i: usize = 0;
        while i < n
            invariant
                n == s@.len(),
                i <= n,
                match pos {
                    None => forall|j: int| 0 <= j < i ==> s@[j] != '=',
                    Some(p) => p < i && s@[p as int] == '=' && forall|j: int|
                        0 <= j < i && j != p ==> s@[j] != '=',
                },
            decreases n - i,
        {
            if s.get_char(i) == '=' {
                match pos {
                    Some(p) => {
                        assert(s@[p as int] == '=' && s@[i as int] == '=');
                        assert(!exactly_one_eq(s@));
                        return Err(DeltaTableError::PartitionError { partition: String::from_str(s) });
                    },
                    None => {
                        pos = Some(i);
                    },
                }
            }
            i += 1;
        }
        match pos {
            None => {
                assert(!exactly_one_eq(s@));
                Err(DeltaTableError::PartitionError { partition: String::from_str(s) })
            },
            Some(p) => {
                let key = s.substring_char(0, p);
                let value = s.substring_char(p + 1, n);
                let r = DeltaTablePartition {
                    key: String::from_str(key),
                    value: String::from_str(value),
                };
                assert(s@ =~= r.key@ + seq!['='] + r.value@);
                assert(s@[p as int] == '=');
                Ok(r)
            },
        }
    }
}

/// A filter on a partition column: rows whose `key` partition equals `value`.
#[derive(Debug)]
pub struct PartitionFilter {
    pub key: String,
    pub value: String,
}

/// The column each filter names.
pub open spec fn filter_columns(filters: Seq<PartitionFilter>) -> Seq<Seq<char>> {
    filters.map_values(|f: PartitionFilter| f.key@)
}

/// The columns of `cols` that are not partition columns, in order.
pub open spec fn nonpartitioned(cols: Seq<Seq<char>>, parts: Seq<Seq<char>>) -> Seq<Seq<char>>
    decreases cols.len(),
{
    if cols.len() == 0 {
        seq![]
    } else {
        nonpartitioned(cols.drop_last(), parts) + if contains_str(parts, cols.last()) {
            seq![]
        } else {
            seq![cols.last()]
        }
    }
}

/// Checks that every filter names a partition column; the error lists those
/// that do not, in filter order.
pub fn validate_partition_filters(filters: &Vec<PartitionFilter>, partition_columns: &Vec<String>) -> (r:
    Result<(), DeltaTableError>)
    ensures
        nonpartitioned(filter_columns(filters@), str_seq(partition_columns@)).len() == 0 ==> r is Ok,
        nonpartitioned(filter_columns(filters@), str_seq(partition_columns@)).len() > 0 ==> (r matches Err(
            DeltaTableError::ColumnsNotPartitioned { nonpartitioned_columns },
        ) && str_seq(nonpartitioned_columns@) == nonpartitioned(
            filter_columns(filters@),
            str_seq(partition_columns@),
        )),
{
    let ghost cols = filter_columns(filters@);
    let ghost parts = str_seq(partition_columns@);
    let mut out: Vec<String> = Vec::new();
    let mut i: usize = 0;
    while i < filters.len()
        invariant
            i <= filters.len(),
            cols == filter_columns(filters@),
            parts == str_seq(partition_columns@),
            str_seq(out@) == nonpartitioned(cols.take(i as int), parts),
        decreases filters.len() - i,
    {
        assert(cols.take(i + 1).drop_last() =~= cols.take(i as int));
        assert(cols.take(i + 1).last() == filters@[i as int].key@);
        if !vec_contains(partition_columns, &filters[i].key) {
            out.push(filters[i].key.clone());
        }
        i += 1;
        assert(str_seq(out@) =~= nonpartitioned(cols.take(i as int), parts));
    }
    assert(cols.take(i as int) =~= cols);
    if out.len() == 0 {
        Ok(())
    } else {
        Err(DeltaTableError::ColumnsNotPartitioned { nonpartitioned_columns: out })
    }
}

} // verus!
