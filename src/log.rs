//! The append-only log of versions, snapshot loading and checkpoints.
use vstd::prelude::*;

use crate::action::{Action, ActionView, entry_view};
use crate::error::DeltaTableError;
use crate::snapshot::{Snapshot, TableState, empty_state, lemma_replay_err_prefix, replay, state_at};
use crate::MAX_VERSIONS;

verus! {

/// The committed entries of a table, indexed by version: version `v` is
/// entry `v`, with no gaps.
#[derive(Debug)]
pub struct DeltaLog {
    entries: Vec<Vec<Action>>,
}

impl View for DeltaLog {
    type V = Seq<Seq<ActionView>>;

    closed spec fn view(&self) -> Seq<Seq<ActionView>> {
        self.entries@.map_values(|e: Vec<Action>| entry_view(e@))
    }
}

impl DeltaLog {
    /// The log never holds more than `MAX_VERSIONS` entries.
    pub open spec fn wf(&self) -> bool {
        self@.len() <= MAX_VERSIONS
    }

    /// A log with no version.
    pub fn new() -> (r: DeltaLog)
        ensures
            r.wf(),
            r@ == Seq::<Seq<ActionView>>::empty(),
    {
        let r = DeltaLog { entries: Vec::new() };
        assert(r@ =~= Seq::<Seq<ActionView>>::empty());
        r
    }

    /// How many versions are committed.
    pub fn version_count(&self) -> (r: usize)
        ensures
            r == self@.len(),
    {
        self.entries.len()
    }

    /// The entry of a committed version.
    pub fn entry(&self, version: i64) -> (r: Option<&Vec<Action>>)
        ensures
            match r {
                Some(e) => 0 <= version < self@.len() && entry_view(e@) == self@[version as int],
                None => !(0 <= version < self@.len()),
            },
    {
        if version >= 0 && (version as u64) < (self.entries.len() as u64) {
            Some(&self.entries[version as usize])
        } else {
            None
        }
    }

    /// Writes `entry` as `version` only when that version is the next one.
    /// A taken version gives `VersionAlreadyExists`; one that would leave a gap,
    /// or exceed the log's bound, gives `InvalidVersion`.
    pub fn put_if_absent(&mut self, version: i64, entry: Vec<Action>) -> (r: Result<(), DeltaTableError>)
        requires
            old(self).wf(),
        ensures
            final(self).wf(),
            version == old(self)@.len() && old(self)@.len() < MAX_VERSIONS ==> r is Ok && final(self)@
                == old(self)@.push(entry_view(entry@)),
            0 <= version < old(self)@.len() ==> r == Err::<(), DeltaTableError>(
                DeltaTableError::VersionAlreadyExists(version),
            ) && final(self)@ == old(self)@,
            (version < 0 || version >= old(self)@.len()) && !(version == old(self)@.len() && old(
                self,
            )@.len() < MAX_VERSIONS) ==> r == Err::<(), DeltaTableError>(
                DeltaTableError::InvalidVersion(version),
            ) && final(self)@ == old(self)@,
    {
        let n = self.entries.len();
        if version >= 0 && (version as u64) < (n as u64) {
            return Err(DeltaTableError::VersionAlreadyExists(version));
        }
        if version >= 0 && (version as u64) == (n as u64) && n < MAX_VERSIONS {
            let ghost before = self@;
            self.entries.push(entry);
            assert(self@ =~= before.push(entry_view(entry@)));
            Ok(())
        } else {
            Err(DeltaTableError::InvalidVersion(version))
        }
    }
}

/// Replaying `from .. mid` and then `mid .. to` is replaying `from .. to`.
pub proof fn lemma_replay_split(s: TableState, log: Seq<Seq<ActionView>>, from: int, mid: int, to: int)
    requires
        from <= mid <= to,
    ensures
        replay(s, log, from, to) == match replay(s, log, from, mid) {
            Ok(t) => replay(t, log, mid, to),
            Err(p) => Err(p),
        },
    decreases to - mid,
{
    if mid < to {
        lemma_replay_split(s, log, from, mid, to - 1);
    }
}

/// A state built from a checkpoint at `c` and the versions after it up to `v`
/// equals the state built by replaying every version from the first up to `v`.
pub proof fn lemma_checkpoint_replay(log: Seq<Seq<ActionView>>, c: int, v: int)
    requires
        0 <= c <= v,
    ensures
        state_at(log, v) == match state_at(log, c) {
            Ok(t) => replay(t, log, c + 1, v + 1),
            Err(p) => Err(p),
        },
{
    lemma_replay_split(empty_state(), log, 0, c + 1, v + 1);
}

/// Whether a checkpoint can serve as the base of the snapshot at `target`.
pub open spec fn checkpoint_usable(checkpoint: Option<&Snapshot>, target: int) -> bool {
    match checkpoint {
        Some(c) => 0 <= c.version <= target,
        None => false,
    }
}

/// The state that loading the snapshot at `target` computes.
pub open spec fn loaded_state(log: Seq<Seq<ActionView>>, checkpoint: Option<&Snapshot>, target: int) -> Result<
    TableState,
    Seq<char>,
> {
    if checkpoint_usable(checkpoint, target) {
        replay(checkpoint.unwrap().state(), log, checkpoint.unwrap().version + 1, target + 1)
    } else {
        state_at(log, target)
    }
}

/// The version that loading resolves `version` to: the latest when none is given.
pub open spec fn target_version(log: Seq<Seq<ActionView>>, version: Option<i64>) -> int {
    match version {
        Some(v) => v as int,
        None => log.len() - 1,
    }
}

/// Whether a checkpoint holds the state of the log at its own version.
pub open spec fn checkpoint_faithful(log: Seq<Seq<ActionView>>, c: &Snapshot) -> bool {
    state_at(log, c.version as int) == Ok::<TableState, Seq<char>>(c.state())
}

/// Builds the snapshot at `version` (the latest when `None`): from the
/// checkpoint when it lies at or before that version, else from the first
/// version, replaying each later entry in order.
pub fn load_snapshot(log: &DeltaLog, location: &str, checkpoint: Option<&Snapshot>, version: Option<i64>) -> (r:
    Result<Snapshot, DeltaTableError>)
    requires
        log.wf(),
    ensures
        log@.len() == 0 ==> (r matches Err(DeltaTableError::NotATable(m)) && m@
            == crate::error::not_a_table_message(location@)),
        log@.len() > 0 && version is Some && !(0 <= version.unwrap() < log@.len()) ==> r == Err::<
            Snapshot,
            DeltaTableError,
        >(DeltaTableError::InvalidVersion(version.unwrap())),
        log@.len() > 0 && 0 <= target_version(log@, version) < log@.len() ==> match loaded_state(
            log@,
            checkpoint,
            target_version(log@, version),
        ) {
            Ok(t) => r matches Ok(s) && s.state() == t && s.version == target_version(log@, version),
            Err(p) => r matches Err(DeltaTableError::MissingDataFile { path, .. }) && path@ == p,
        },
        log@.len() > 0 && 0 <= target_version(log@, version) < log@.len() && checkpoint is Some
            && checkpoint_faithful(log@, checkpoint.unwrap()) ==> loaded_state(
            log@,
            checkpoint,
            target_version(log@, version),
        ) == state_at(log@, target_version(log@, version)),
{
    let n = log.version_count();
    if n == 0 {
        return Err(DeltaTableError::not_a_table(location));
    }
    let target: i64 = match version {
        Some(v) => {
            if v < 0 || (v as u64) >= (n as u64) {
                return Err(DeltaTableError::InvalidVersion(v));
            }
            v
        },
        None => (n - 1) as i64,
    };
    assert(target as int == target_version(log@, version));
    let usable = match checkpoint {
        Some(c) => 0 <= c.version && c.version <= target,
        None => false,
    };
    let mut snap = if usable {
        checkpoint.unwrap().duplicate()
    } else {
        Snapshot::empty()
    };
    proof {
        if let Some(c) = checkpoint {
            if usable {
                lemma_checkpoint_replay(log@, c.version as int, target as int);
            }
        }
    }
    let ghost base = snap.state();
    let ghost from = snap.version + 1;
    assert(loaded_state(log@, checkpoint, target as int) == replay(base, log@, from, target + 1));
    let mut v: i64 = snap.version + 1;
    while v <= target
        invariant
            log.wf(),
            0 <= from <= v <= target + 1,
            target < log@.len(),
            log@.len() <= MAX_VERSIONS,
            snap.version == v - 1,
            target as int == target_version(log@, version),
            0 <= target < log@.len(),
            loaded_state(log@, checkpoint, target as int) == replay(base, log@, from, target + 1),
            checkpoint is Some && checkpoint_faithful(log@, checkpoint.unwrap()) ==> loaded_state(
                log@,
                checkpoint,
                target as int,
            ) == state_at(log@, target as int),
            replay(base, log@, from, v as int) == Ok::<TableState, Seq<char>>(snap.state()),
        decreases target + 1 - v,
    {
        let e = log.entry(v).unwrap();
        match snap.apply_entry(e) {
            Ok(()) => {},
            Err(err) => {
                proof { lemma_replay_err_prefix(base, log@, from, v + 1, target + 1); }
                return Err(err);
            },
        }
        snap.version = v;
        v = v + 1;
    }
    Ok(snap)
}

/// Loading the same version from the same log and checkpoint twice gives the
/// same state: a snapshot is a function of the log alone.
pub proof fn lemma_load_deterministic(
    log: Seq<Seq<ActionView>>,
    checkpoint: Option<&Snapshot>,
    target: int,
    first: &Snapshot,
    second: &Snapshot,
)
    requires
        loaded_state(log, checkpoint, target) == Ok::<TableState, Seq<char>>(first.state()),
        loaded_state(log, checkpoint, target) == Ok::<TableState, Seq<char>>(second.state()),
    ensures
        first.state() == second.state(),
{
}

} // verus!
