//! Table state at a version, and how actions change it.
use vstd::prelude::*;

use crate::action::{Action, ActionView, AddFile, AddFileView, Metadata, MetadataView, Protocol, ProtocolView, entry_view};
use crate::error::DeltaTableError;

verus! {

/// The materialized state of a table: its live files, in the order they were
/// added, and the latest metadata and protocol.
pub struct TableState {
    pub files: Seq<AddFileView>,
    pub metadata: Option<MetadataView>,
    pub protocol: Option<ProtocolView>,
}

/// The state before any version.
pub open spec fn empty_state() -> TableState {
    TableState { files: Seq::empty(), metadata: None, protocol: None }
}

/// Index of the first file at `p`, or -1 when there is none.
pub open spec fn index_of(files: Seq<AddFileView>, p: Seq<char>) -> int
    decreases files.len(),
{
    if files.len() == 0 {
        -1
    } else {
        let k = index_of(files.drop_last(), p);
        if k >= 0 {
            k
        } else if files.last().path == p {
            files.len() - 1
        } else {
            -1
        }
    }
}

/// The files after adding `f`: it replaces the file at its path, or comes last.
pub open spec fn upsert(files: Seq<AddFileView>, f: AddFileView) -> Seq<AddFileView> {
    let k = index_of(files, f.path);
    if k >= 0 {
        files.update(k, f)
    } else {
        files.push(f)
    }
}

/// One action applied to a state; `Err(p)` when a remove names an absent path `p`.
pub open spec fn apply_action(s: TableState, a: ActionView) -> Result<TableState, Seq<char>> {
    match a {
        ActionView::Add(f) => Ok(
            TableState { files: upsert(s.files, f), metadata: s.metadata, protocol: s.protocol },
        ),
        ActionView::Remove(r) => {
            let k = index_of(s.files, r.path);
            if k >= 0 {
                Ok(
                    TableState {
                        files: s.files.remove(k),
                        metadata: s.metadata,
                        protocol: s.protocol,
                    },
                )
            } else {
                Err(r.path)
            }
        },
        ActionView::Metadata(m) => Ok(
            TableState { files: s.files, metadata: Some(m), protocol: s.protocol },
        ),
        ActionView::Protocol(p) => Ok(
            TableState { files: s.files, metadata: s.metadata, protocol: Some(p) },
        ),
        _ => Ok(s),
    }
}

/// The actions applied in order; the first failure stops it.
pub open spec fn apply_actions(s: TableState, acts: Seq<ActionView>) -> Result<TableState, Seq<char>>
    decreases acts.len(),
{
    if acts.len() == 0 {
        Ok(s)
    } else {
        match apply_actions(s, acts.drop_last()) {
            Ok(t) => apply_action(t, acts.last()),
            Err(p) => Err(p),
        }
    }
}

/// The entries of versions `from .. to` of a log applied in order.
pub open spec fn replay(s: TableState, log: Seq<Seq<ActionView>>, from: int, to: int) -> Result<
    TableState,
    Seq<char>,
>
    decreases to - from,
{
    if to <= from {
        Ok(s)
    } else {
        match replay(s, log, from, to - 1) {
            Ok(t) => apply_actions(t, log[to - 1]),
            Err(p) => Err(p),
        }
    }
}

/// The state of a log at version `v`: every entry up to and including `v`.
pub open spec fn state_at(log: Seq<Seq<ActionView>>, v: int) -> Result<TableState, Seq<char>> {
    replay(empty_state(), log, 0, v + 1)
}

pub proof fn lemma_index_of_range(files: Seq<AddFileView>, p: Seq<char>)
    ensures
        -1 <= index_of(files, p) < files.len(),
        index_of(files, p) >= 0 ==> files[index_of(files, p)].path == p,
    decreases files.len(),
{
    if files.len() > 0 {
        lemma_index_of_range(files.drop_last(), p);
    }
}

/// A match found in a prefix is the first match of the whole sequence.
pub proof fn lemma_index_of_prefix(files: Seq<AddFileView>, j: int, p: Seq<char>)
    requires
        0 <= j <= files.len(),
        index_of(files.take(j), p) >= 0,
    ensures
        index_of(files, p) == index_of(files.take(j), p),
    decreases files.len() - j,
{
    if j < files.len() {
        assert(files.take(j + 1).drop_last() =~= files.take(j));
        lemma_index_of_prefix(files, j + 1, p);
    } else {
        assert(files.take(j) =~= files);
    }
}

/// A failure in a prefix of the actions is the failure of all of them.
pub proof fn lemma_apply_err_prefix(s: TableState, acts: Seq<ActionView>, j: int)
    requires
        0 <= j <= acts.len(),
        apply_actions(s, acts.take(j)) is Err,
    ensures
        apply_actions(s, acts) == apply_actions(s, acts.take(j)),
    decreases acts.len() - j,
{
    if j < acts.len() {
        assert(acts.take(j + 1).drop_last() =~= acts.take(j));
        lemma_apply_err_prefix(s, acts, j + 1);
    } else {
        assert(acts.take(j) =~= acts);
    }
}

/// A failure in a prefix of the versions is the failure of the whole replay.
pub proof fn lemma_replay_err_prefix(s: TableState, log: Seq<Seq<ActionView>>, from: int, j: int, to: int)
    requires
        from <= j <= to,
        replay(s, log, from, j) is Err,
    ensures
        replay(s, log, from, to) == replay(s, log, from, j),
    decreases to - j,
{
    if j < to {
        lemma_replay_err_prefix(s, log, from, j + 1, to);
    }
}

/// The view of each file of a list.
pub open spec fn file_seq(v: Seq<AddFile>) -> Seq<AddFileView> {
    v.map_values(|f: AddFile| f@)
}

pub open spec fn opt_metadata(o: Option<Metadata>) -> Option<MetadataView> {
    match o {
        Some(m) => Some(m@),
        None => None,
    }
}

pub open spec fn opt_protocol(o: Option<Protocol>) -> Option<ProtocolView> {
    match o {
        Some(p) => Some(p@),
        None => None,
    }
}

/// Finds the first file at `path`.
pub fn find_file(files: &Vec<AddFile>, path: &String) -> (r: Option<usize>)
    ensures
        match r {
            Some(i) => index_of(file_seq(files@), path@) == i as int,
            None => index_of(file_seq(files@), path@) == -1,
        },
{
    let ghost fs = file_seq(files@);
    let mut i: usize = 0;
    while i < files.len()
        invariant
            i <= files.len(),
            fs == file_seq(files@),
            index_of(fs.take(i as int), path@) == -1,
        decreases files.len() - i,
    {
        assert(fs.take(i + 1).drop_last() =~= fs.take(i as int));
        if files[i].path == *path {
            proof {
                lemma_index_of_prefix(fs, i + 1, path@);
            }
            return Some(i);
        }
        i += 1;
    }
    assert(fs.take(i as int) =~= fs);
    None
}

/// The state of a table at one version.
#[derive(Debug)]
pub struct Snapshot {
    pub version: i64,
    pub files: Vec<AddFile>,
    pub metadata: Option<Metadata>,
    pub protocol: Option<Protocol>,
}

impl Snapshot {
    /// The mathematical state this snapshot holds.
    pub open spec fn state(&self) -> TableState {
        TableState {
            files: file_seq(self.files@),
            metadata: opt_metadata(self.metadata),
            protocol: opt_protocol(self.protocol),
        }
    }

    /// The snapshot of a table before its first version.
    pub fn empty() -> (r: Snapshot)
        ensures
            r.state() == empty_state(),
            r.version == -1,
    {
        let r = Snapshot { version: -1, files: Vec::new(), metadata: None, protocol: None };
        assert(r.state().files =~= Seq::<AddFileView>::empty());
        r
    }

    /// A copy with the same version and state.
    pub fn duplicate(&self) -> (r: Snapshot)
        ensures
            r.version == self.version,
            r.state() == self.state(),
    {
        let mut files: Vec<AddFile> = Vec::new();
        let mut i: usize = 0;
        while i < self.files.len()
            invariant
                i <= self.files.len(),
                files@.len() == i,
                forall|j: int| 0 <= j < i ==> (#[trigger] files@[j])@ == self.files@[j]@,
            decreases self.files.len() - i,
        {
            files.push(self.files[i].duplicate());
            i += 1;
        }
        assert(file_seq(files@) =~= file_seq(self.files@));
        let metadata = match &self.metadata {
            Some(m) => Some(m.duplicate()),
            None => None,
        };
        let protocol = match &self.protocol {
            Some(p) => Some(p.duplicate()),
            None => None,
        };
        Snapshot { version: self.version, files, metadata, protocol }
    }

    /// Applies one action; a remove of an absent path is a corruption error.
    pub fn apply_action(&mut self, a: &Action) -> (r: Result<(), DeltaTableError>)
        ensures
            final(self).version == old(self).version,
            match apply_action(old(self).state(), a@) {
                Ok(t) => r is Ok && final(self).state() == t,
                Err(p) => r matches Err(DeltaTableError::MissingDataFile { path, .. }) && path@ == p
                    && final(self).state() == old(self).state(),
            },
    {
        match a {
            Action::Add(f) => {
                let ghost fs = file_seq(self.files@);
                let nf = f.duplicate();
                match find_file(&self.files, &f.path) {
                    Some(i) => {
                        proof { lemma_index_of_range(fs, f.path@); }
                        self.files.set(i, nf);
                        assert(file_seq(self.files@) =~= fs.update(i as int, f@));
                    },
                    None => {
                        self.files.push(nf);
                        assert(file_seq(self.files@) =~= fs.push(f@));
                    },
                }
                Ok(())
            },
            Action::Remove(rm) => {
                let ghost fs = file_seq(self.files@);
                match find_file(&self.files, &rm.path) {
                    Some(i) => {
                        proof { lemma_index_of_range(fs, rm.path@); }
                        let _gone = self.files.remove(i);
                        assert(file_seq(self.files@) =~= fs.remove(i as int));
                        Ok(())
                    },
                    None => Err(
                        DeltaTableError::MissingDataFile {
                            source: String::from_str("remove of a file the table does not hold"),
                            path: rm.path.clone(),
                        },
                    ),
                }
            },
            Action::Metadata(m) => {
                self.metadata = Some(m.duplicate());
                Ok(())
            },
            Action::Protocol(p) => {
                self.protocol = Some(p.duplicate());
                Ok(())
            },
            _ => Ok(()),
        }
    }

    /// Applies the actions of an entry in order.
    pub fn apply_entry(&mut self, entry: &Vec<Action>) -> (r: Result<(), DeltaTableError>)
        ensures
            final(self).version == old(self).version,
            match apply_actions(old(self).state(), entry_view(entry@)) {
                Ok(t) => r is Ok && final(self).state() == t,
                Err(p) => r matches Err(DeltaTableError::MissingDataFile { path, .. }) && path@ == p,
            },
    {
        let ghost s0 = self.state();
        let ghost ev = entry_view(entry@);
        let mut i: usize = 0;
        while i < entry.len()
            invariant
                i <= entry.len(),
                ev == entry_view(entry@),
                s0 == old(self).state(),
                self.version == old(self).version,
                apply_actions(s0, ev.take(i as int)) == Ok::<TableState, Seq<char>>(self.state()),
            decreases entry.len() - i,
        {
            assert(ev.take(i + 1).drop_last() =~= ev.take(i as int));
            assert(ev.take(i + 1).last() == entry@[i as int]@);
            let ghost before = self.state();
            let r = self.apply_action(&entry[i]);
            assert(apply_actions(s0, ev.take(i + 1)) == apply_action(before, entry@[i as int]@));
            if r.is_err() {
                proof { lemma_apply_err_prefix(s0, ev, i + 1); }
                return r;
            }
            i += 1;
        }
        assert(ev.take(i as int) =~= ev);
        Ok(())
    }
}

} // verus!
