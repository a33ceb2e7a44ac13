//! Undo/redo history of document snapshots.

use vstd::prelude::*;

verus! {

/// Most undo steps that the history keeps; older steps fall off the front.
pub const EDIT_HISTORY_MAX_ENTRIES: usize = 1000;

/// One recorded edit: the snapshot after it (`forward_snapshot`) and the one
/// before it (`inverse_snapshot`), as indices into the snapshot store.
#[derive(Clone, Copy)]
struct UndoEntry {
    forward_snapshot: usize,
    inverse_snapshot: usize,
}

/// Abstract state of an [`EditHistory`]: each step is a pair
/// `(before, after)`, the undo stack grows to the right, and `saved` is the
/// undo depth at which the document was last saved.
pub struct HistoryModel<S> {
    pub undo: Seq<(S, S)>,
    pub redo: Seq<(S, S)>,
    pub saved: nat,
}

impl<S> HistoryModel<S> {
    pub open spec fn empty() -> Self {
        HistoryModel { undo: Seq::empty(), redo: Seq::empty(), saved: 0 }
    }

    pub open spec fn is_dirty(self) -> bool {
        self.undo.len() != self.saved
    }

    pub open spec fn mark_saved(self) -> Self {
        HistoryModel { saved: self.undo.len(), ..self }
    }

    /// Recording pushes a step, drops the oldest one beyond the limit (the
    /// save point moves with it, not below zero) and forgets every redo step.
    pub open spec fn record(self, previous: S, current: S) -> Self {
        let pushed = self.undo.push((previous, current));
        if pushed.len() > EDIT_HISTORY_MAX_ENTRIES {
            HistoryModel {
                undo: pushed.drop_first(),
                redo: Seq::empty(),
                saved: if self.saved == 0 { 0 } else { (self.saved - 1) as nat },
            }
        } else {
            HistoryModel { undo: pushed, redo: Seq::empty(), saved: self.saved }
        }
    }

    /// Undo moves the newest step to the redo stack and yields its `before`.
    pub open spec fn undo(self) -> (Self, Option<S>) {
        if self.undo.len() == 0 {
            (self, None)
        } else {
            let step = self.undo.last();
            (
                HistoryModel { undo: self.undo.drop_last(), redo: self.redo.push(step), saved: self.saved },
                Some(step.0),
            )
        }
    }

    /// Redo moves the newest redo step back and yields its `after`.
    pub open spec fn redo(self) -> (Self, Option<S>) {
        if self.redo.len() == 0 {
            (self, None)
        } else {
            let step = self.redo.last();
            (
                HistoryModel { undo: self.undo.push(step), redo: self.redo.drop_last(), saved: self.saved },
                Some(step.1),
            )
        }
    }
}

/// Snapshot-based undo/redo history.
pub struct EditHistory<S> {
    undo_entries: Vec<UndoEntry>,
    redo_entries: Vec<UndoEntry>,
    saved_position: usize,
    snapshots: Vec<S>,
}

spec fn entries_in_bounds(entries: Seq<UndoEntry>, n: nat) -> bool {
    forall|i: int|
        0 <= i < entries.len() ==> #[trigger] entries[i].forward_snapshot < n
            && entries[i].inverse_snapshot < n
}

spec fn entries_view<S>(entries: Seq<UndoEntry>, snapshots: Seq<S>) -> Seq<(S, S)> {
    entries.map_values(|e: UndoEntry| (snapshots[e.inverse_snapshot as int], snapshots[e.forward_snapshot as int]))
}

impl<S> EditHistory<S> {
    /// Every step refers to a stored snapshot.
    pub closed spec fn wf(&self) -> bool {
        &&& entries_in_bounds(self.undo_entries@, self.snapshots@.len())
        &&& entries_in_bounds(self.redo_entries@, self.snapshots@.len())
    }

    pub closed spec fn view(&self) -> HistoryModel<S> {
        HistoryModel {
            undo: entries_view(self.undo_entries@, self.snapshots@),
            redo: entries_view(self.redo_entries@, self.snapshots@),
            saved: self.saved_position as nat,
        }
    }

    /// A history whose only snapshot is `initial`, with nothing to undo.
    pub fn new(initial: S) -> (history: Self)
        ensures
            history.wf(),
            history@ == HistoryModel::<S>::empty(),
    {
        let mut snapshots = Vec::new();
        snapshots.push(initial);
        let history = EditHistory {
            undo_entries: Vec::new(),
            redo_entries: Vec::new(),
            saved_position: 0,
            snapshots,
        };
        proof {
            assert(history@.undo =~= Seq::<(S, S)>::empty());
            assert(history@.redo =~= Seq::<(S, S)>::empty());
        }
        history
    }

    /// Whether the undo depth differs from the last save point.
    pub fn is_dirty(&self) -> (dirty: bool)
        ensures
            dirty == self@.is_dirty(),
    {
        self.undo_entries.len() != self.saved_position
    }

    /// Makes the current undo depth the save point.
    pub fn mark_saved(&mut self)
        requires
            old(self).wf(),
        ensures
            final(self).wf(),
            final(self)@ == old(self)@.mark_saved(),
    {
        self.saved_position = self.undo_entries.len();
    }

    fn push_snapshot(&mut self, snapshot: S) -> (index: usize)
        requires
            old(self).wf(),
        ensures
            final(self).wf(),
            index == old(self).snapshots@.len(),
            final(self).snapshots@ == old(self).snapshots@.push(snapshot),
            final(self).undo_entries == old(self).undo_entries,
            final(self).redo_entries == old(self).redo_entries,
            final(self).saved_position == old(self).saved_position,
            final(self)@ == old(self)@,
    {
        let index = self.snapshots.len();
        self.snapshots.push(snapshot);
        proof {
            lemma_entries_view_extend(self.undo_entries@, old(self).snapshots@, snapshot);
            lemma_entries_view_extend(self.redo_entries@, old(self).snapshots@, snapshot);
        }
        index
    }

    /// Records an edit that turned `previous` into `current`.
    pub fn record(&mut self, previous: S, current: S)
        requires
            old(self).wf(),
        ensures
            final(self).wf(),
            final(self)@ == old(self)@.record(previous, current),
    {
        let ghost old_model = self@;
        let previous_index = self.push_snapshot(previous);
        let current_index = self.push_snapshot(current);
        let ghost snaps = self.snapshots@;
        self.undo_entries.push(UndoEntry { forward_snapshot: current_index, inverse_snapshot: previous_index });
        proof {
            assert(entries_view(self.undo_entries@, snaps) =~= old_model.undo.push((previous, current)));
        }
        if self.undo_entries.len() > EDIT_HISTORY_MAX_ENTRIES {
            let ghost before = self.undo_entries@;
            self.undo_entries.remove(0);
            self.saved_position = if self.saved_position == 0 { 0 } else { self.saved_position - 1 };
            proof {
                assert(self.undo_entries@ =~= before.drop_first());
                assert(entries_view(self.undo_entries@, snaps) =~= entries_view(before, snaps).drop_first());
            }
        }
        self.redo_entries.clear();
        proof {
            assert(entries_view(self.redo_entries@, snaps) =~= Seq::<(S, S)>::empty());
        }
    }

    /// Steps back one edit and hands out a copy of the snapshot before it.
    pub fn undo(&mut self) -> (snapshot: Option<S>)
        where S: Clone
        requires
            old(self).wf(),
        ensures
            final(self).wf(),
            final(self)@ == old(self)@.undo().0,
            match (snapshot, old(self)@.undo().1) {
                (None, None) => true,
                (Some(s), Some(t)) => cloned(t, s),
                _ => false,
            },
    {
        let ghost old_model = self@;
        match self.undo_entries.pop() {
            None => None,
            Some(entry) => {
                let snapshot = self.snapshots[entry.inverse_snapshot].clone();
                self.redo_entries.push(entry);
                proof {
                    assert(entries_view(self.undo_entries@, self.snapshots@) =~= old_model.undo.drop_last());
                    assert(entries_view(self.redo_entries@, self.snapshots@) =~= old_model.redo.push(old_model.undo.last()));
                }
                Some(snapshot)
            }
        }
    }

    /// Re-applies the most recently undone edit and hands out a copy of the
    /// snapshot after it.
    pub fn redo(&mut self) -> (snapshot: Option<S>)
        where S: Clone
        requires
            old(self).wf(),
        ensures
            final(self).wf(),
            final(self)@ == old(self)@.redo().0,
            match (snapshot, old(self)@.redo().1) {
                (None, None) => true,
                (Some(s), Some(t)) => cloned(t, s),
                _ => false,
            },
    {
        let ghost old_model = self@;
        match self.redo_entries.pop() {
            None => None,
            Some(entry) => {
                let snapshot = self.snapshots[entry.forward_snapshot].clone();
                self.undo_entries.push(entry);
                proof {
                    assert(entries_view(self.redo_entries@, self.snapshots@) =~= old_model.redo.drop_last());
                    assert(entries_view(self.undo_entries@, self.snapshots@) =~= old_model.undo.push(old_model.redo.last()));
                }
                Some(snapshot)
            }
        }
    }
}

impl<S> Default for EditHistory<S> {
    /// An empty history: no snapshots, nothing to undo or redo, not dirty.
    fn default() -> (history: Self)
        ensures
            history.wf(),
            history@ == HistoryModel::<S>::empty(),
    {
        let history = EditHistory {
            undo_entries: Vec::new(),
            redo_entries: Vec::new(),
            saved_position: 0,
            snapshots: Vec::new(),
        };
        proof {
            assert(history@.undo =~= Seq::<(S, S)>::empty());
            assert(history@.redo =~= Seq::<(S, S)>::empty());
        }
        history
    }
}

/// Undoing a freshly recorded edit yields the snapshot from before it, and
/// redoing that yields the snapshot after it.
pub proof fn lemma_undo_after_record_restores<S>(m: HistoryModel<S>, previous: S, current: S)
    ensures
        m.record(previous, current).undo().1 == Some(previous),
        m.record(previous, current).undo().0.redo().1 == Some(current),
{
}

/// Recording an edit leaves nothing to redo.
pub proof fn lemma_record_clears_redo<S>(m: HistoryModel<S>, previous: S, current: S)
    ensures
        m.record(previous, current).redo == Seq::<(S, S)>::empty(),
        m.record(previous, current).redo().1 == None::<S>,
{
}

/// Redo undoes an undo: the history comes back unchanged.
pub proof fn lemma_undo_then_redo_is_identity<S>(m: HistoryModel<S>)
    requires
        m.undo.len() > 0,
    ensures
        m.undo().0.redo().0 == m,
{
    assert(m.undo.drop_last().push(m.undo.last()) =~= m.undo);
    assert(m.redo.push(m.undo.last()).drop_last() =~= m.redo);
}

/// Undo undoes a redo: the history comes back unchanged.
pub proof fn lemma_redo_then_undo_is_identity<S>(m: HistoryModel<S>)
    requires
        m.redo.len() > 0,
    ensures
        m.redo().0.undo().0 == m,
{
    assert(m.redo.drop_last().push(m.redo.last()) =~= m.redo);
    assert(m.undo.push(m.redo.last()).drop_last() =~= m.undo);
}

/// Right after a save the document is clean, and undo or redo leave the save
/// point where it was.
pub proof fn lemma_save_point<S>(m: HistoryModel<S>)
    ensures
        !m.mark_saved().is_dirty(),
        m.undo().0.saved == m.saved,
        m.redo().0.saved == m.saved,
{
}

/// An edit recorded on a clean document makes it dirty; undoing that edit
/// makes it clean again while the history is below its limit.
pub proof fn lemma_record_then_undo_returns_to_clean<S>(m: HistoryModel<S>, previous: S, current: S)
    requires
        !m.is_dirty(),
    ensures
        m.record(previous, current).is_dirty(),
        m.undo.len() < EDIT_HISTORY_MAX_ENTRIES ==> !m.record(previous, current).undo().0.is_dirty(),
{
}

proof fn lemma_entries_view_extend<S>(entries: Seq<UndoEntry>, snapshots: Seq<S>, extra: S)
    requires
        entries_in_bounds(entries, snapshots.len()),
    ensures
        entries_in_bounds(entries, snapshots.len() + 1),
        entries_view(entries, snapshots.push(extra)) =~= entries_view(entries, snapshots),
{
}

} // verus!
