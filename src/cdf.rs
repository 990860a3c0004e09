//! Change events between two versions of a table.
use vstd::prelude::*;

use crate::action::{Action, ActionView, entry_view, pair_seq};
use crate::error::DeltaTableError;
use crate::log::DeltaLog;
use crate::action::AddFileView;
use crate::snapshot::{
    Snapshot, TableState, apply_action, apply_actions, empty_state, index_of, lemma_index_of_range,
    lemma_replay_err_prefix, replay, state_at, upsert,
};
use crate::log::lemma_replay_split;
use crate::MAX_VERSIONS;

verus! {

/// What happened to a file.
#[derive(Debug, Clone, Copy, PartialEq, Eq, Structural)]
pub enum ChangeType {
    /// Its rows were inserted.
    Insert,
    /// Its rows were deleted.
    Delete,
    /// It is a change-data file that lists the changed rows.
    ChangeFile,
}

/// One change: a file, what happened to it, and the version and commit time.
#[derive(Debug)]
pub struct ChangeEvent {
    pub version: i64,
    pub timestamp: i64,
    pub path: String,
    pub change_type: ChangeType,
}

pub struct ChangeEventView {
    pub version: i64,
    pub timestamp: i64,
    pub path: Seq<char>,
    pub change_type: ChangeType,
}

impl View for ChangeEvent {
    type V = ChangeEventView;

    open spec fn view(&self) -> ChangeEventView {
        ChangeEventView {
            version: self.version,
            timestamp: self.timestamp,
            path: self.path@,
            change_type: self.change_type,
        }
    }
}

pub open spec fn event_seq(v: Seq<ChangeEvent>) -> Seq<ChangeEventView> {
    v.map_values(|e: ChangeEvent| e@)
}

/// The configuration key that turns the change feed on.
pub open spec fn cdf_key() -> Seq<char> {
    "delta.enableChangeDataFeed"@
}

/// Whether the state's configuration turns the change feed on.
pub open spec fn cdf_enabled(s: TableState) -> bool {
    match s.metadata {
        Some(m) => exists|i: int|
            0 <= i < m.configuration.len() && #[trigger] m.configuration[i] == (cdf_key(), "true"@),
        None => false,
    }
}

/// The timestamp of the first commit info of an entry, 0 when it has none.
pub open spec fn entry_timestamp(e: Seq<ActionView>) -> i64
    decreases e.len(),
{
    if e.len() == 0 {
        0
    } else if e[0] is CommitInfo {
        e[0]->CommitInfo_0.timestamp
    } else {
        entry_timestamp(e.drop_first())
    }
}

/// Whether an entry holds change-data files.
pub open spec fn has_cdc(e: Seq<ActionView>) -> bool {
    exists|i: int| 0 <= i < e.len() && #[trigger] e[i] is Cdc
}

/// The events of one action: its change-data file when the entry has them,
/// else the insert of an added file or the delete of a removed one.
pub open spec fn action_events(a: ActionView, cdc: bool, version: i64, ts: i64) -> Seq<ChangeEventView> {
    match a {
        ActionView::Cdc(c) => if cdc {
            seq![ChangeEventView { version, timestamp: ts, path: c.path, change_type: ChangeType::ChangeFile }]
        } else {
            seq![]
        },
        ActionView::Add(f) => if cdc {
            seq![]
        } else {
            seq![ChangeEventView { version, timestamp: ts, path: f.path, change_type: ChangeType::Insert }]
        },
        ActionView::Remove(r) => if cdc {
            seq![]
        } else {
            seq![ChangeEventView { version, timestamp: ts, path: r.path, change_type: ChangeType::Delete }]
        },
        _ => seq![],
    }
}

/// The events of the first `n` actions of an entry.
pub open spec fn prefix_events(e: Seq<ActionView>, n: int, cdc: bool, version: i64, ts: i64) -> Seq<
    ChangeEventView,
>
    decreases n,
{
    if n <= 0 {
        seq![]
    } else {
        prefix_events(e, n - 1, cdc, version, ts) + action_events(e[n - 1], cdc, version, ts)
    }
}

/// The events of the entry of `version`, in action order.
pub open spec fn entry_events(e: Seq<ActionView>, version: i64) -> Seq<ChangeEventView> {
    prefix_events(e, e.len() as int, has_cdc(e), version, entry_timestamp(e))
}

/// The events of versions `from .. to`, by version then action order.
pub open spec fn range_events(log: Seq<Seq<ActionView>>, from: int, to: int) -> Seq<ChangeEventView>
    decreases to - from,
{
    if to <= from {
        seq![]
    } else {
        range_events(log, from, to - 1) + entry_events(log[to - 1], (to - 1) as i64)
    }
}

/// The latest version among the first `n` whose commit is no later than `t`, or -1.
pub open spec fn version_at_time(log: Seq<Seq<ActionView>>, t: i64, n: int) -> int
    decreases n,
{
    if n <= 0 {
        -1
    } else if entry_timestamp(log[n - 1]) <= t {
        n - 1
    } else {
        version_at_time(log, t, n - 1)
    }
}

/// The end version a query resolves to.
pub open spec fn resolved_end(log: Seq<Seq<ActionView>>, ending_version: Option<i64>, ending_timestamp: Option<i64>) -> int {
    match ending_version {
        Some(e) => e as int,
        None => match ending_timestamp {
            Some(t) => version_at_time(log, t, log.len() as int),
            None => log.len() - 1,
        },
    }
}

/// Whether the configuration turns the change feed on.
fn is_cdf_enabled(table: &Snapshot) -> (r: bool)
    ensures
        r == cdf_enabled(table.state()),
{
    match &table.metadata {
        Some(m) => {
            let key = String::from_str("delta.enableChangeDataFeed");
            let on = String::from_str("true");
            let ghost conf = pair_seq(m.configuration@);
            let mut i: usize = 0;
            while i < m.configuration.len()
                invariant
                    i <= m.configuration.len(),
                    conf == pair_seq(m.configuration@),
                    table.state().metadata == Some(m@),
                    key@ == cdf_key(),
                    on@ == "true"@,
                    forall|j: int| 0 <= j < i ==> conf[j] != (cdf_key(), "true"@),
                decreases m.configuration.len() - i,
            {
                if m.configuration[i].0 == key && m.configuration[i].1 == on {
                    assert(conf[i as int] == (cdf_key(), "true"@));
                    assert(m@.configuration[i as int] == (cdf_key(), "true"@));
                    let ghost mv = table.state().metadata.unwrap();
                    assert(mv.configuration[i as int] == (cdf_key(), "true"@));
                    assert(cdf_enabled(table.state()));
                    return true;
                }
                i += 1;
            }
            false
        },
        None => false,
    }
}

/// The commit timestamp of an entry.
pub fn commit_timestamp(e: &Vec<Action>) -> (r: i64)
    ensures
        r == entry_timestamp(entry_view(e@)),
{
    let ghost ev = entry_view(e@);
    let mut i: usize = 0;
    assert(ev.skip(0) =~= ev);
    while i < e.len()
        invariant
            i <= e.len(),
            ev == entry_view(e@),
            entry_timestamp(ev) == entry_timestamp(ev.skip(i as int)),
        decreases e.len() - i,
    {
        assert(ev.skip(i as int).drop_first() =~= ev.skip(i + 1));
        if let Action::CommitInfo(c) = &e[i] {
            return c.timestamp;
        }
        i += 1;
    }
    assert(ev.skip(i as int).len() == 0);
    0
}

/// Whether an entry holds change-data files.
fn entry_has_cdc(e: &Vec<Action>) -> (r: bool)
    ensures
        r == has_cdc(entry_view(e@)),
{
    let ghost ev = entry_view(e@);
    let mut i: usize = 0;
    while i < e.len()
        invariant
            i <= e.len(),
            ev == entry_view(e@),
            forall|j: int| 0 <= j < i ==> !(#[trigger] ev[j] is Cdc),
        decreases e.len() - i,
    {
        if let Action::Cdc(_) = &e[i] {
            assert(ev[i as int] is Cdc);
            return true;
        }
        i += 1;
    }
    false
}

/// Appends the events of one entry.
fn push_entry_events(out: &mut Vec<ChangeEvent>, e: &Vec<Action>, version: i64)
    ensures
        event_seq(final(out)@) == event_seq(old(out)@) + entry_events(entry_view(e@), version),
{
    let ghost ev = entry_view(e@);
    let cdc = entry_has_cdc(e);
    let ts = commit_timestamp(e);
    let ghost start = event_seq(out@);
    let mut i: usize = 0;
    while i < e.len()
        invariant
            i <= e.len(),
            ev == entry_view(e@),
            cdc == has_cdc(ev),
            ts == entry_timestamp(ev),
            event_seq(out@) == start + prefix_events(ev, i as int, cdc, version, ts),
        decreases e.len() - i,
    {
        let ghost before = event_seq(out@);
        match &e[i] {
            Action::Cdc(c) => {
                if cdc {
                    out.push(ChangeEvent { version, timestamp: ts, path: c.path.clone(), change_type: ChangeType::ChangeFile });
                }
            },
            Action::Add(f) => {
                if !cdc {
                    out.push(ChangeEvent { version, timestamp: ts, path: f.path.clone(), change_type: ChangeType::Insert });
                }
            },
            Action::Remove(r) => {
                if !cdc {
                    out.push(ChangeEvent { version, timestamp: ts, path: r.path.clone(), change_type: ChangeType::Delete });
                }
            },
            _ => {},
        }
        assert(event_seq(out@) =~= before + action_events(ev[i as int], cdc, version, ts));
        i += 1;
        assert(event_seq(out@) =~= start + prefix_events(ev, i as int, cdc, version, ts));
    }
}

/// The change events of versions `starting_version ..= end`, by version then
/// action order. The end is `ending_version` when given, else the latest
/// version committed no later than `ending_timestamp` when that is given, else
/// the latest version. The change feed must be on in `table`'s configuration.
pub fn read_changes(
    log: &DeltaLog,
    table: &Snapshot,
    starting_version: Option<i64>,
    ending_version: Option<i64>,
    ending_timestamp: Option<i64>,
) -> (r: Result<Vec<ChangeEvent>, DeltaTableError>)
    requires
        log.wf(),
    ensures
        starting_version is None ==> r == Err::<Vec<ChangeEvent>, DeltaTableError>(
            DeltaTableError::NoStartingVersionOrTimestamp,
        ),
        starting_version is Some && !cdf_enabled(table.state()) ==> r == Err::<
            Vec<ChangeEvent>,
            DeltaTableError,
        >(DeltaTableError::ChangeDataNotEnabled { version: table.version }),
        starting_version is Some && cdf_enabled(table.state()) ==> {
            let start = starting_version.unwrap() as int;
            let ts_late = ending_version is None && ending_timestamp is Some && log@.len() > 0
                && ending_timestamp.unwrap() > entry_timestamp(log@[log@.len() - 1]);
            let end = resolved_end(log@, ending_version, ending_timestamp);
            if ts_late {
                r == Err::<Vec<ChangeEvent>, DeltaTableError>(
                    DeltaTableError::ChangeDataTimestampGreaterThanCommit {
                        ending_timestamp: ending_timestamp.unwrap(),
                    },
                )
            } else if start > end {
                r == Err::<Vec<ChangeEvent>, DeltaTableError>(
                    DeltaTableError::ChangeDataInvalidVersionRange {
                        start: start as i64,
                        end: end as i64,
                    },
                )
            } else if start < 0 {
                r == Err::<Vec<ChangeEvent>, DeltaTableError>(
                    DeltaTableError::InvalidVersion(start as i64),
                )
            } else if end >= log@.len() {
                r == Err::<Vec<ChangeEvent>, DeltaTableError>(
                    DeltaTableError::InvalidVersion(end as i64),
                )
            } else {
                r matches Ok(evs) && event_seq(evs@) == range_events(log@, start, end + 1)
            }
        },
{
    let start = match starting_version {
        Some(s) => s,
        None => {
            return Err(DeltaTableError::NoStartingVersionOrTimestamp);
        },
    };
    if !is_cdf_enabled(table) {
        return Err(DeltaTableError::ChangeDataNotEnabled { version: table.version });
    }
    let n = log.version_count();
    let end: i64 = match ending_version {
        Some(e) => e,
        None => match ending_timestamp {
            Some(t) => {
                if n > 0 && t > commit_timestamp(log.entry((n - 1) as i64).unwrap()) {
                    return Err(DeltaTableError::ChangeDataTimestampGreaterThanCommit { ending_timestamp: t });
                }
                let mut k: usize = n;
                let mut found = false;
                while k > 0 && !found
                    invariant
                        k <= n,
                        n == log@.len(),
                        n <= MAX_VERSIONS,
                        version_at_time(log@, t, n as int) == version_at_time(log@, t, k as int),
                        found ==> k > 0 && entry_timestamp(log@[k - 1]) <= t,
                    decreases k + (if found { 0int } else { 1int }),
                {
                    if commit_timestamp(log.entry((k - 1) as i64).unwrap()) <= t {
                        found = true;
                    } else {
                        k -= 1;
                    }
                }
                (k as i64) - 1
            },
            None => (n as i64) - 1,
        },
    };
    assert(end as int == resolved_end(log@, ending_version, ending_timestamp));
    if start > end {
        return Err(DeltaTableError::ChangeDataInvalidVersionRange { start, end });
    }
    if start < 0 {
        return Err(DeltaTableError::InvalidVersion(start));
    }
    if (end as u64) >= (n as u64) {
        return Err(DeltaTableError::InvalidVersion(end));
    }
    let mut out: Vec<ChangeEvent> = Vec::new();
    let mut v: i64 = start;
    assert(event_seq(out@) =~= range_events(log@, start as int, start as int));
    while v <= end
        invariant
            0 <= start <= v <= end + 1,
            end < log@.len(),
            log@.len() <= MAX_VERSIONS,
            event_seq(out@) == range_events(log@, start as int, v as int),
        decreases end + 1 - v,
    {
        let e = log.entry(v).unwrap();
        push_entry_events(&mut out, e, v);
        v = v + 1;
    }
    Ok(out)
}

/// The paths of a list of files.
pub open spec fn paths(files: Seq<AddFileView>) -> Set<Seq<char>> {
    Set::new(|p: Seq<char>| exists|i: int| 0 <= i < files.len() && #[trigger] files[i].path == p)
}

/// No two files share a path.
pub open spec fn unique_paths(files: Seq<AddFileView>) -> bool {
    forall|i: int, j: int|
        0 <= i < files.len() && 0 <= j < files.len() && i != j ==> #[trigger] files[i].path
            != #[trigger] files[j].path
}

/// The set of live paths after one event.
pub open spec fn apply_event(ps: Set<Seq<char>>, e: ChangeEventView) -> Set<Seq<char>> {
    match e.change_type {
        ChangeType::Insert => ps.insert(e.path),
        ChangeType::Delete => ps.remove(e.path),
        ChangeType::ChangeFile => ps,
    }
}

/// The set of live paths after a sequence of events.
pub open spec fn net_effect(ps: Set<Seq<char>>, evs: Seq<ChangeEventView>) -> Set<Seq<char>>
    decreases evs.len(),
{
    if evs.len() == 0 {
        ps
    } else {
        apply_event(net_effect(ps, evs.drop_last()), evs.last())
    }
}

pub proof fn lemma_net_effect_concat(ps: Set<Seq<char>>, xs: Seq<ChangeEventView>, ys: Seq<ChangeEventView>)
    ensures
        net_effect(ps, xs + ys) == net_effect(net_effect(ps, xs), ys),
    decreases ys.len(),
{
    if ys.len() == 0 {
        assert(xs + ys =~= xs);
    } else {
        assert((xs + ys).drop_last() =~= xs + ys.drop_last());
        lemma_net_effect_concat(ps, xs, ys.drop_last());
    }
}

pub proof fn lemma_index_of_none(files: Seq<AddFileView>, p: Seq<char>)
    requires
        index_of(files, p) == -1,
    ensures
        forall|i: int| 0 <= i < files.len() ==> files[i].path != p,
    decreases files.len(),
{
    if files.len() > 0 {
        lemma_index_of_none(files.drop_last(), p);
        assert forall|i: int| 0 <= i < files.len() implies files[i].path != p by {
            if i < files.len() - 1 {
                assert(files.drop_last()[i] == files[i]);
            }
        }
    }
}

/// Adding a file keeps paths unique and adds its path to the set.
pub proof fn lemma_upsert_paths(fs: Seq<AddFileView>, f: AddFileView)
    requires
        unique_paths(fs),
    ensures
        unique_paths(upsert(fs, f)),
        paths(upsert(fs, f)) == paths(fs).insert(f.path),
{
    let k = index_of(fs, f.path);
    lemma_index_of_range(fs, f.path);
    let nf = upsert(fs, f);
    if k >= 0 {
        assert(nf == fs.update(k, f));
        assert forall|p: Seq<char>| #[trigger] paths(nf).contains(p) <==> paths(fs).insert(f.path).contains(p) by {
            if paths(nf).contains(p) {
                let i = choose|i: int| 0 <= i < nf.len() && #[trigger] nf[i].path == p;
                if i != k {
                    assert(fs[i].path == p);
                }
            }
            if paths(fs).contains(p) {
                let i = choose|i: int| 0 <= i < fs.len() && #[trigger] fs[i].path == p;
                assert(nf[i].path == p);
            }
            if p == f.path {
                assert(nf[k].path == p);
            }
        }
        assert(paths(nf) =~= paths(fs).insert(f.path));
    } else {
        lemma_index_of_none(fs, f.path);
        assert(nf == fs.push(f));
        assert forall|p: Seq<char>| #[trigger] paths(nf).contains(p) <==> paths(fs).insert(f.path).contains(p) by {
            if paths(nf).contains(p) {
                let i = choose|i: int| 0 <= i < nf.len() && #[trigger] nf[i].path == p;
                if i < fs.len() {
                    assert(fs[i].path == p);
                }
            }
            if paths(fs).contains(p) {
                let i = choose|i: int| 0 <= i < fs.len() && #[trigger] fs[i].path == p;
                assert(nf[i].path == p);
            }
            if p == f.path {
                assert(nf[fs.len() as int].path == p);
            }
        }
        assert(paths(nf) =~= paths(fs).insert(f.path));
    }
}

/// One action keeps paths unique, and changes the set of paths as its events say.
pub proof fn lemma_action_paths(s: TableState, a: ActionView, v: i64, ts: i64)
    requires
        unique_paths(s.files),
        apply_action(s, a) is Ok,
    ensures
        unique_paths(apply_action(s, a)->Ok_0.files),
        net_effect(paths(s.files), action_events(a, false, v, ts)) == paths(
            apply_action(s, a)->Ok_0.files,
        ),
{
    let t = apply_action(s, a)->Ok_0;
    let fs = s.files;
    match a {
        ActionView::Add(f) => {
            lemma_upsert_paths(fs, f);
            let evs = action_events(a, false, v, ts);
            assert(evs.drop_last() =~= Seq::<ChangeEventView>::empty());
            assert(net_effect(paths(fs), evs.drop_last()) == paths(fs));

        },
        ActionView::Remove(r) => {
            let k = index_of(fs, r.path);
            lemma_index_of_range(fs, r.path);
            let evs = action_events(a, false, v, ts);
            assert(evs.drop_last() =~= Seq::<ChangeEventView>::empty());
            assert(t.files == fs.remove(k));
            assert forall|p: Seq<char>| #[trigger] paths(t.files).contains(p) <==> paths(fs).remove(r.path).contains(p) by {
                if paths(t.files).contains(p) {
                    let i = choose|i: int| 0 <= i < t.files.len() && #[trigger] t.files[i].path == p;
                    if i < k {
                        assert(fs[i].path == p);
                    } else {
                        assert(fs[i + 1].path == p);
                    }
                }
                if paths(fs).remove(r.path).contains(p) {
                    let i = choose|i: int| 0 <= i < fs.len() && #[trigger] fs[i].path == p;
                    assert(i != k);
                    if i < k {
                        assert(t.files[i].path == p);
                    } else {
                        assert(t.files[i - 1].path == p);
                    }
                }
            }
            assert(paths(t.files) =~= paths(fs).remove(r.path));
            assert(net_effect(paths(fs), evs.drop_last()) == paths(fs));
        },
        _ => {
            assert(action_events(a, false, v, ts) =~= Seq::<ChangeEventView>::empty());
        },
    }
}

/// The first `n` actions of an entry keep paths unique; without change-data
/// files, their events change the set of paths as the actions do.
pub proof fn lemma_prefix_paths(s: TableState, e: Seq<ActionView>, n: int, v: i64, ts: i64)
    requires
        unique_paths(s.files),
        0 <= n <= e.len(),
        apply_actions(s, e.take(n)) is Ok,
    ensures
        unique_paths(apply_actions(s, e.take(n))->Ok_0.files),
        net_effect(paths(s.files), prefix_events(e, n, false, v, ts)) == paths(
            apply_actions(s, e.take(n))->Ok_0.files,
        ),
    decreases n,
{
    if n > 0 {
        assert(e.take(n).drop_last() =~= e.take(n - 1));
        lemma_prefix_paths(s, e, n - 1, v, ts);
        let t = apply_actions(s, e.take(n - 1))->Ok_0;
        lemma_action_paths(t, e[n - 1], v, ts);
        lemma_net_effect_concat(
            paths(s.files),
            prefix_events(e, n - 1, false, v, ts),
            action_events(e[n - 1], false, v, ts),
        );
    } else {
        assert(e.take(n) =~= Seq::<ActionView>::empty());
    }
}

/// Every state replayed from one with unique paths has unique paths.
pub proof fn lemma_actions_unique(s: TableState, e: Seq<ActionView>)
    requires
        unique_paths(s.files),
        apply_actions(s, e) is Ok,
    ensures
        unique_paths(apply_actions(s, e)->Ok_0.files),
{
    assert(e.take(e.len() as int) =~= e);
    lemma_prefix_paths(s, e, e.len() as int, 0, 0);
}

pub proof fn lemma_replay_unique(s: TableState, log: Seq<Seq<ActionView>>, from: int, to: int)
    requires
        unique_paths(s.files),
        replay(s, log, from, to) is Ok,
    ensures
        unique_paths(replay(s, log, from, to)->Ok_0.files),
    decreases to - from,
{
    if from < to {
        if replay(s, log, from, to - 1) is Err {
            lemma_replay_err_prefix(s, log, from, to - 1, to);
        }
        lemma_replay_unique(s, log, from, to - 1);
        lemma_actions_unique(replay(s, log, from, to - 1)->Ok_0, log[to - 1]);
    }
}

pub proof fn lemma_range_paths(s: TableState, log: Seq<Seq<ActionView>>, from: int, to: int)
    requires
        0 <= from,
        to <= log.len(),
        unique_paths(s.files),
        replay(s, log, from, to) is Ok,
        forall|k: int| from <= k < to ==> !has_cdc(#[trigger] log[k]),
    ensures
        net_effect(paths(s.files), range_events(log, from, to)) == paths(
            replay(s, log, from, to)->Ok_0.files,
        ),
    decreases to - from,
{
    if from < to {
        if replay(s, log, from, to - 1) is Err {
            lemma_replay_err_prefix(s, log, from, to - 1, to);
        }
        lemma_range_paths(s, log, from, to - 1);
        lemma_replay_unique(s, log, from, to - 1);
        let t = replay(s, log, from, to - 1)->Ok_0;
        let e = log[to - 1];
        assert(!has_cdc(e));
        assert(e.take(e.len() as int) =~= e);
        lemma_prefix_paths(t, e, e.len() as int, (to - 1) as i64, entry_timestamp(e));
        lemma_net_effect_concat(
            paths(s.files),
            range_events(log, from, to - 1),
            entry_events(e, (to - 1) as i64),
        );
    }
}

/// Where no version in `start ..= end` holds change-data files, the events
/// read for that range, applied to the paths of the snapshot before `start`,
/// give exactly the paths of the snapshot at `end`.
pub proof fn lemma_changes_net_effect(log: Seq<Seq<ActionView>>, start: int, end: int)
    requires
        0 <= start <= end < log.len(),
        state_at(log, end) is Ok,
        forall|k: int| start <= k <= end ==> !has_cdc(#[trigger] log[k]),
    ensures
        state_at(log, start - 1) is Ok,
        net_effect(paths(state_at(log, start - 1)->Ok_0.files), range_events(log, start, end + 1))
            == paths(state_at(log, end)->Ok_0.files),
{
    lemma_replay_split(empty_state(), log, 0, start, end + 1);
    if replay(empty_state(), log, 0, start) is Err {
        lemma_replay_err_prefix(empty_state(), log, 0, start, end + 1);
    }
    let t0 = replay(empty_state(), log, 0, start)->Ok_0;
    assert(unique_paths(empty_state().files));
    lemma_replay_unique(empty_state(), log, 0, start);
    assert forall|k: int| start <= k < end + 1 implies !has_cdc(#[trigger] log[k]) by {}
    lemma_range_paths(t0, log, start, end + 1);
}

} // verus!
