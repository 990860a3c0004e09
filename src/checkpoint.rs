//! Deciding when to consolidate the log, and what the consolidation holds.
use vstd::prelude::*;

use crate::action::{Action, ActionView, RemoveFile, RemoveFileView, entry_view};
use crate::log::DeltaLog;
use crate::snapshot::Snapshot;
use crate::MAX_VERSIONS;

verus! {

/// The `_last_checkpoint` marker: where the latest checkpoint is, and how many
/// actions it holds.
#[derive(Debug, Clone, Copy, PartialEq, Eq, Structural)]
pub struct LastCheckpoint {
    pub version: i64,
    pub size: usize,
}

/// A consolidated state, the tombstones kept beside it, and the marker that
/// points to it.
#[derive(Debug)]
pub struct Checkpoint {
    pub snapshot: Snapshot,
    pub tombstones: Vec<RemoveFile>,
    pub marker: LastCheckpoint,
}

pub open spec fn remove_seq(v: Seq<RemoveFile>) -> Seq<RemoveFileView> {
    v.map_values(|r: RemoveFile| r@)
}

/// The remove actions of an entry, in order.
pub open spec fn removes_in(e: Seq<ActionView>) -> Seq<RemoveFileView>
    decreases e.len(),
{
    if e.len() == 0 {
        seq![]
    } else {
        removes_in(e.drop_last()) + match e.last() {
            ActionView::Remove(r) => seq![r],
            _ => seq![],
        }
    }
}

/// The remove actions of the first `n` versions, in order.
pub open spec fn log_removes(log: Seq<Seq<ActionView>>, n: int) -> Seq<RemoveFileView>
    decreases n,
{
    if n <= 0 {
        seq![]
    } else {
        log_removes(log, n - 1) + removes_in(log[n - 1])
    }
}

/// Whether a tombstone is still inside the retention window at `now`.
pub open spec fn unexpired(r: RemoveFileView, now: i64, retention: i64) -> bool {
    r.deletion_timestamp + retention >= now
}

/// The tombstones still inside the retention window, in order.
pub open spec fn retained(rs: Seq<RemoveFileView>, now: i64, retention: i64) -> Seq<RemoveFileView>
    decreases rs.len(),
{
    if rs.len() == 0 {
        seq![]
    } else {
        retained(rs.drop_last(), now, retention) + if unexpired(rs.last(), now, retention) {
            seq![rs.last()]
        } else {
            seq![]
        }
    }
}

/// The tombstones of versions `0 ..= version` whose deletion lies within
/// `retention` milliseconds before `now`.
pub fn checkpoint_tombstones(log: &DeltaLog, version: i64, now: i64, retention: i64) -> (r: Vec<RemoveFile>)
    requires
        log.wf(),
        0 <= version < log@.len(),
    ensures
        remove_seq(r@) == retained(log_removes(log@, version + 1), now, retention),
{
    let mut all: Vec<RemoveFile> = Vec::new();
    let mut v: i64 = 0;
    while v <= version
        invariant
            0 <= v <= version + 1,
            version < log@.len(),
            log@.len() <= MAX_VERSIONS,
            remove_seq(all@) == log_removes(log@, v as int),
        decreases version + 1 - v,
    {
        let e = log.entry(v).unwrap();
        let ghost ev = entry_view(e@);
        let ghost before = remove_seq(all@);
        let mut i: usize = 0;
        while i < e.len()
            invariant
                i <= e.len(),
                ev == entry_view(e@),
                ev == log@[v as int],
                0 <= v <= version,
                version < log@.len(),
                log@.len() <= MAX_VERSIONS,
                before == log_removes(log@, v as int),
                remove_seq(all@) == before + removes_in(ev.take(i as int)),
            decreases e.len() - i,
        {
            assert(ev.take(i + 1).drop_last() =~= ev.take(i as int));
            assert(ev.take(i + 1).last() == e@[i as int]@);
            let ghost mid = remove_seq(all@);
            assert(removes_in(ev.take(i + 1)) == removes_in(ev.take(i as int)) + match e@[i as int]@ {
                ActionView::Remove(r) => seq![r],
                _ => Seq::<RemoveFileView>::empty(),
            });
            if let Action::Remove(rm) = &e[i] {
                all.push(rm.duplicate());
                assert(remove_seq(all@) =~= mid.push(rm@));
            } else {
                assert(remove_seq(all@) =~= mid);
            }
            assert(remove_seq(all@) =~= before + removes_in(ev.take(i + 1)));
            i += 1;
        }
        assert(ev.take(i as int) =~= ev);
        v = v + 1;
    }
    let mut out: Vec<RemoveFile> = Vec::new();
    let ghost rs = remove_seq(all@);
    let mut j: usize = 0;
    while j < all.len()
        invariant
            j <= all.len(),
            rs == remove_seq(all@),
            remove_seq(out@) == retained(rs.take(j as int), now, retention),
        decreases all.len() - j,
    {
        assert(rs.take(j + 1).drop_last() =~= rs.take(j as int));
        if (all[j].deletion_timestamp as i128) + (retention as i128) >= (now as i128) {
            out.push(all[j].duplicate());
        }
        assert(remove_seq(out@) =~= retained(rs.take(j + 1), now, retention));
        j += 1;
    }
    assert(rs.take(j as int) =~= rs);
    out
}

/// Whether the policy of checkpointing every `interval` versions asks for a
/// checkpoint at `version`.
pub open spec fn checkpoint_due(version: i64, interval: i64) -> bool {
    interval > 0 && version > 0 && version % interval == 0
}

/// The number of actions a checkpoint of `s` holds: one per file and per
/// tombstone, plus the metadata and the protocol when present.
pub open spec fn checkpoint_size(s: &Snapshot, tombstones: int) -> int {
    s.files@.len() + tombstones + (if s.metadata is Some { 1int } else { 0int }) + (if s.protocol is Some {
        1int
    } else {
        0int
    })
}

/// Whether a checkpoint is due at `version`.
pub fn should_checkpoint(version: i64, interval: i64) -> (r: bool)
    ensures
        r == checkpoint_due(version, interval),
{
    interval > 0 && version > 0 && version % interval == 0
}

/// Consolidates `snapshot` and its tombstones when the policy asks for it. The
/// content depends on its inputs alone, so concurrent writers produce identical
/// checkpoints.
pub fn maybe_checkpoint(snapshot: &Snapshot, tombstones: Vec<RemoveFile>, interval: i64) -> (r: Option<
    Checkpoint,
>)
    requires
        snapshot.files@.len() + tombstones@.len() + 2 <= usize::MAX,
    ensures
        r is Some <==> checkpoint_due(snapshot.version, interval),
        r matches Some(c) ==> c.snapshot.state() == snapshot.state() && c.snapshot.version
            == snapshot.version && remove_seq(c.tombstones@) == remove_seq(tombstones@)
            && c.marker.version == snapshot.version && c.marker.size == checkpoint_size(
            snapshot,
            tombstones@.len() as int,
        ),
{
    if !should_checkpoint(snapshot.version, interval) {
        return None;
    }
    let mut size: usize = snapshot.files.len() + tombstones.len();
    if snapshot.metadata.is_some() {
        size = size + 1;
    }
    if snapshot.protocol.is_some() {
        size = size + 1;
    }
    let copy = snapshot.duplicate();
    Some(
        Checkpoint {
            snapshot: copy,
            tombstones,
            marker: LastCheckpoint { version: snapshot.version, size },
        },
    )
}

} // verus!
