//! Publishing a new version with conflict detection and bounded rebase.
use vstd::prelude::*;

use crate::action::{Action, ActionView, CommitInfo, entry_view};
use crate::error::DeltaTableError;
use crate::log::DeltaLog;
use crate::snapshot::{Snapshot, TableState, apply_actions, empty_state, replay, state_at};
use crate::validate::{first_violation, reports, validate_actions};
use crate::MAX_VERSIONS;

verus! {

/// Whether `a` adds the file at `p`.
pub open spec fn is_add_of(a: ActionView, p: Seq<char>) -> bool {
    match a {
        ActionView::Add(f) => f.path == p,
        _ => false,
    }
}

/// Whether `a` removes the file at `p`.
pub open spec fn is_remove_of(a: ActionView, p: Seq<char>) -> bool {
    match a {
        ActionView::Remove(r) => r.path == p,
        _ => false,
    }
}

pub open spec fn adds_path(acts: Seq<ActionView>, p: Seq<char>) -> bool {
    exists|i: int| 0 <= i < acts.len() && #[trigger] is_add_of(acts[i], p)
}

pub open spec fn removes_path(acts: Seq<ActionView>, p: Seq<char>) -> bool {
    exists|i: int| 0 <= i < acts.len() && #[trigger] is_remove_of(acts[i], p)
}

/// Whether one action of a concurrent winner clashes with `acts`: it adds a
/// path `acts` adds, removes a path `acts` removes, or changes metadata or
/// protocol.
pub open spec fn clashes(acts: Seq<ActionView>, w: ActionView) -> bool {
    match w {
        ActionView::Add(g) => adds_path(acts, g.path),
        ActionView::Remove(r) => removes_path(acts, r.path),
        ActionView::Metadata(_) => true,
        ActionView::Protocol(_) => true,
        _ => false,
    }
}

/// Whether a concurrent winner's entry makes rebasing `acts` over it unsafe.
pub open spec fn conflicts(acts: Seq<ActionView>, winner: Seq<ActionView>) -> bool {
    exists|j: int| 0 <= j < winner.len() && #[trigger] clashes(acts, winner[j])
}

/// The end of a commit attempt sequence.
pub enum CommitOutcome {
    /// The entry landed as the version, giving the state.
    Committed(TableState, int),
    /// The entry at the version conflicts with the one being committed.
    Conflict(int),
    /// Attempts ran out; the version was already taken.
    Exhausted(int),
    /// Applying an entry hit a remove of an absent path.
    Missing(Seq<char>),
    /// The version cannot be written: a gap, or past the log's bound.
    Unwritable(int),
}

/// What committing `entry` on top of state `s` gives, trying `target` first,
/// with `attempts` attempts left.
pub open spec fn commit_outcome(
    s: TableState,
    log: Seq<Seq<ActionView>>,
    target: int,
    entry: Seq<ActionView>,
    attempts: nat,
) -> CommitOutcome
    decreases attempts,
{
    if attempts == 0 {
        CommitOutcome::Exhausted(target)
    } else if target < 0 || target > log.len() || target >= MAX_VERSIONS {
        CommitOutcome::Unwritable(target)
    } else if target == log.len() {
        match apply_actions(s, entry) {
            Ok(t) => CommitOutcome::Committed(t, target),
            Err(p) => CommitOutcome::Missing(p),
        }
    } else if conflicts(entry, log[target]) {
        CommitOutcome::Conflict(target)
    } else if attempts == 1 {
        CommitOutcome::Exhausted(target)
    } else {
        match apply_actions(s, log[target]) {
            Ok(t) => commit_outcome(t, log, target + 1, entry, (attempts - 1) as nat),
            Err(p) => CommitOutcome::Missing(p),
        }
    }
}

/// The entry a commit writes: its actions followed by its commit info.
pub open spec fn written_entry(actions: Seq<Action>, info: CommitInfo) -> Seq<ActionView> {
    entry_view(actions).push(ActionView::CommitInfo(info@))
}

/// Whether some action of `acts` adds the file at `p`.
fn has_add(acts: &Vec<Action>, p: &String) -> (r: bool)
    ensures
        r == adds_path(entry_view(acts@), p@),
{
    let ghost ev = entry_view(acts@);
    let mut i: usize = 0;
    while i < acts.len()
        invariant
            i <= acts.len(),
            ev == entry_view(acts@),
            forall|j: int| 0 <= j < i ==> !is_add_of(#[trigger] ev[j], p@),
        decreases acts.len() - i,
    {
        if let Action::Add(f) = &acts[i] {
            if f.path == *p {
                assert(is_add_of(ev[i as int], p@));
                return true;
            }
        }
        i += 1;
    }
    false
}

/// Whether some action of `acts` removes the file at `p`.
fn has_remove(acts: &Vec<Action>, p: &String) -> (r: bool)
    ensures
        r == removes_path(entry_view(acts@), p@),
{
    let ghost ev = entry_view(acts@);
    let mut i: usize = 0;
    while i < acts.len()
        invariant
            i <= acts.len(),
            ev == entry_view(acts@),
            forall|j: int| 0 <= j < i ==> !is_remove_of(#[trigger] ev[j], p@),
        decreases acts.len() - i,
    {
        if let Action::Remove(f) = &acts[i] {
            if f.path == *p {
                assert(is_remove_of(ev[i as int], p@));
                return true;
            }
        }
        i += 1;
    }
    false
}

/// Whether a concurrent winner's entry conflicts with `own`.
pub fn conflicts_with(own: &Vec<Action>, winner: &Vec<Action>) -> (r: bool)
    ensures
        r == conflicts(entry_view(own@), entry_view(winner@)),
{
    let ghost wv = entry_view(winner@);
    let ghost ov = entry_view(own@);
    let mut j: usize = 0;
    while j < winner.len()
        invariant
            j <= winner.len(),
            wv == entry_view(winner@),
            ov == entry_view(own@),
            forall|k: int| 0 <= k < j ==> !clashes(ov, #[trigger] wv[k]),
        decreases winner.len() - j,
    {
        let clash = match &winner[j] {
            Action::Add(g) => has_add(own, &g.path),
            Action::Remove(g) => has_remove(own, &g.path),
            Action::Metadata(_) => true,
            Action::Protocol(_) => true,
            _ => false,
        };
        if clash {
            assert(clashes(ov, wv[j as int]));
            return true;
        }
        j += 1;
    }
    false
}

/// Options of a commit.
#[derive(Debug, Clone, Copy, PartialEq, Eq, Structural)]
pub struct CommitProperties {
    /// How many versions a commit may try before it gives up.
    pub max_attempts: u32,
    /// Whether a metadata action may change the schema incompatibly.
    pub allow_schema_evolution: bool,
}

/// Commits `actions`, followed by `info`, on top of `base`.
///
/// The actions are first validated against `base`; nothing is written if they
/// fail. The entry is then written at `base.version + 1`. When that version is
/// taken, the entry that won is read: if it conflicts the commit fails with
/// `VersionMismatch`, else the commit rebases onto it and tries the next
/// version, up to `max_attempts` versions, then fails with
/// `VersionAlreadyExists`. On success the log gains exactly the entry, and the
/// snapshot returned is the state it lands on with the entry applied.
pub fn commit(
    log: &mut DeltaLog,
    base: &Snapshot,
    actions: Vec<Action>,
    info: CommitInfo,
    props: CommitProperties,
) -> (r: Result<Snapshot, DeltaTableError>)
    requires
        old(log).wf(),
        base.version < i64::MAX,
    ensures
        final(log).wf(),
        match first_violation(
            base.state(),
            entry_view(actions@),
            props.allow_schema_evolution,
        ) {
            Some(v) => (r matches Err(e) && reports(e, v)) && final(log)@ == old(log)@,
            None => match commit_outcome(
                base.state(),
                old(log)@,
                base.version + 1,
                written_entry(actions@, info),
                props.max_attempts as nat,
            ) {
                CommitOutcome::Committed(t, v) => (r matches Ok(s) && s.state() == t && s.version
                    == v) && final(log)@ == old(log)@.push(written_entry(actions@, info)),
                CommitOutcome::Conflict(v) => r == Err::<Snapshot, DeltaTableError>(
                    DeltaTableError::VersionMismatch(v as i64, base.version),
                ) && final(log)@ == old(log)@,
                CommitOutcome::Exhausted(v) => r == Err::<Snapshot, DeltaTableError>(
                    DeltaTableError::VersionAlreadyExists(v as i64),
                ) && final(log)@ == old(log)@,
                CommitOutcome::Missing(p) => (r matches Err(DeltaTableError::MissingDataFile {
                    path,
                    ..
                }) && path@ == p) && final(log)@ == old(log)@,
                CommitOutcome::Unwritable(v) => r == Err::<Snapshot, DeltaTableError>(
                    DeltaTableError::InvalidVersion(v as i64),
                ) && final(log)@ == old(log)@,
            },
        },
{
    match validate_actions(base, &actions, props.allow_schema_evolution) {
        Ok(()) => {},
        Err(e) => {
            return Err(e);
        },
    }
    let ghost l0 = log@;
    let mut entry = actions;
    entry.push(Action::CommitInfo(info));
    let ghost ev = entry_view(entry@);
    assert(ev =~= written_entry(actions@, info));
    if props.max_attempts == 0 {
        return Err(DeltaTableError::VersionAlreadyExists(base.version + 1));
    }
    if base.version < -1 || base.version >= MAX_VERSIONS as i64 {
        return Err(DeltaTableError::InvalidVersion(base.version + 1));
    }
    let max = props.max_attempts;
    let mut current = base.duplicate();
    let mut target: i64 = base.version + 1;
    let mut attempt: u32 = 0;
    loop
        invariant
            log.wf(),
            log@ == l0,
            l0 == old(log)@,
            ev == entry_view(entry@),
            ev == written_entry(actions@, info),
            attempt <= max,
            max == props.max_attempts,
            first_violation(base.state(), entry_view(actions@), props.allow_schema_evolution) is None,
            -1 <= base.version < MAX_VERSIONS,
            0 <= target <= MAX_VERSIONS,
            target == base.version + 1 + attempt,
            commit_outcome(base.state(), l0, base.version + 1, ev, max as nat) == commit_outcome(
                current.state(),
                l0,
                target as int,
                ev,
                (max - attempt) as nat,
            ),
        decreases max - attempt,
    {
        if attempt == max {
            return Err(DeltaTableError::VersionAlreadyExists(target));
        }
        let n = log.version_count();
        if (target as u64) > (n as u64) || target >= MAX_VERSIONS as i64 {
            return Err(DeltaTableError::InvalidVersion(target));
        }
        if (target as u64) == (n as u64) {
            let mut next = current.duplicate();
            match next.apply_entry(&entry) {
                Ok(()) => {},
                Err(e) => {
                    return Err(e);
                },
            }
            let ghost written = entry_view(entry@);
            let put = log.put_if_absent(target, entry);
            assert(put is Ok);
            assert(log@ == old(log)@.push(written));
            next.version = target;
            return Ok(next);
        }
        let winner = log.entry(target).unwrap();
        if conflicts_with(&entry, winner) {
            return Err(DeltaTableError::VersionMismatch(target, base.version));
        }
        if attempt + 1 == max {
            return Err(DeltaTableError::VersionAlreadyExists(target));
        }
        match current.apply_entry(winner) {
            Ok(()) => {},
            Err(e) => {
                return Err(e);
            },
        }
        current.version = target;
        target = target + 1;
        attempt = attempt + 1;
    }
}

/// Replays over two logs that agree on the versions replayed are equal.
pub proof fn lemma_replay_same_prefix(
    s: TableState,
    l1: Seq<Seq<ActionView>>,
    l2: Seq<Seq<ActionView>>,
    from: int,
    to: int,
)
    requires
        forall|k: int| from <= k < to ==> l1[k] == l2[k],
    ensures
        replay(s, l1, from, to) == replay(s, l2, from, to),
    decreases to - from,
{
    if from < to {
        lemma_replay_same_prefix(s, l1, l2, from, to - 1);
    }
}

/// A commit that succeeds lands at the log's next version, and the state it
/// gives is the state of the log, with its entry appended, at that version.
pub proof fn lemma_commit_matches_log(
    s: TableState,
    log: Seq<Seq<ActionView>>,
    target: int,
    entry: Seq<ActionView>,
    attempts: nat,
)
    requires
        0 <= target,
        replay(empty_state(), log, 0, target) == Ok::<TableState, Seq<char>>(s),
    ensures
        commit_outcome(s, log, target, entry, attempts) matches CommitOutcome::Committed(t, w) ==> w
            == log.len() && state_at(log.push(entry), w) == Ok::<TableState, Seq<char>>(t),
    decreases attempts,
{
    if attempts == 0 || target < 0 || target > log.len() || target >= MAX_VERSIONS {
    } else if target == log.len() {
        lemma_replay_same_prefix(empty_state(), log, log.push(entry), 0, target);
    } else if conflicts(entry, log[target]) || attempts == 1 {
    } else {
        if let Ok(t) = apply_actions(s, log[target]) {
            lemma_commit_matches_log(t, log, target + 1, entry, (attempts - 1) as nat);
        }
    }
}

/// Committing an action set against the snapshot at the latest version `v`
/// gives, at `v + 1`, exactly the actions applied to that snapshot, and that
/// is the state the log holds at `v + 1` afterwards.
pub proof fn lemma_commit_applies(
    s: TableState,
    log: Seq<Seq<ActionView>>,
    entry: Seq<ActionView>,
    attempts: nat,
)
    requires
        state_at(log, log.len() - 1) == Ok::<TableState, Seq<char>>(s),
        attempts >= 1,
        log.len() < MAX_VERSIONS,
        apply_actions(s, entry) is Ok,
    ensures
        commit_outcome(s, log, log.len() as int, entry, attempts) == CommitOutcome::Committed(
            apply_actions(s, entry)->Ok_0,
            log.len() as int,
        ),
        state_at(log.push(entry), log.len() as int) == apply_actions(s, entry),
{
    lemma_commit_matches_log(s, log, log.len() as int, entry, attempts);
}

/// Two commits based on the same latest version `v`: the first lands at
/// `v + 1`. The second never lands at `v + 1`: if it conflicts with the first
/// it fails at `v + 1`, and otherwise, with a second attempt allowed and its
/// actions applicable, it rebases and lands at `v + 2` on top of the first.
pub proof fn lemma_concurrent_commits(
    s: TableState,
    log: Seq<Seq<ActionView>>,
    a: Seq<ActionView>,
    b: Seq<ActionView>,
    attempts: nat,
)
    requires
        attempts >= 1,
        log.len() + 1 < MAX_VERSIONS,
        apply_actions(s, a) is Ok,
    ensures
        commit_outcome(s, log, log.len() as int, a, attempts) == CommitOutcome::Committed(
            apply_actions(s, a)->Ok_0,
            log.len() as int,
        ),
        !(commit_outcome(s, log.push(a), log.len() as int, b, attempts) matches CommitOutcome::Committed(
            _,
            w,
        ) && w == log.len()),
        conflicts(b, a) ==> commit_outcome(s, log.push(a), log.len() as int, b, attempts)
            == CommitOutcome::Conflict(log.len() as int),
        !conflicts(b, a) && attempts >= 2 && apply_actions(apply_actions(s, a)->Ok_0, b) is Ok
            ==> commit_outcome(s, log.push(a), log.len() as int, b, attempts)
            == CommitOutcome::Committed(
            apply_actions(apply_actions(s, a)->Ok_0, b)->Ok_0,
            log.len() + 1 as int,
        ),
{
    let l2 = log.push(a);
    let n = log.len() as int;
    assert(l2[n] == a);
    assert(l2.len() == n + 1);
    if !conflicts(b, a) && attempts >= 2 {
        let ta = apply_actions(s, a)->Ok_0;
        assert(commit_outcome(s, l2, n, b, attempts) == commit_outcome(
            ta,
            l2,
            n + 1,
            b,
            (attempts - 1) as nat,
        ));
    }
}

} // verus!
