//! Undo/redo history of selection snapshots, bounded in depth.

use vstd::prelude::*;

verus! {

/// A recorded selection state: which files are selected and which directories are expanded.
#[derive(Debug, Clone)]
pub struct SelectionSnapshot {
    /// Paths of the selected files
    pub selected_files: Vec<String>,
    /// Paths of the expanded directories
    pub expanded_dirs: Vec<String>,
}

impl SelectionSnapshot {
    /// No path is recorded twice, in either list.
    pub open spec fn wf(&self) -> bool {
        &&& crate::text::views(self.selected_files@).no_duplicates()
        &&& crate::text::views(self.expanded_dirs@).no_duplicates()
    }
}

/// Every recorded state of a history names no path twice.
pub open spec fn snapshots_wf(h: HistoryView) -> bool {
    &&& forall|i: int| 0 <= i < h.past.len() ==> (#[trigger] h.past[i]).wf()
    &&& forall|i: int| 0 <= i < h.future.len() ==> (#[trigger] h.future[i]).wf()
}

/// The abstract state of a history: the undo stack, the redo stack and the depth bound.
/// The last element of each stack is its top.
pub struct HistoryView {
    pub past: Seq<SelectionSnapshot>,
    pub future: Seq<SelectionSnapshot>,
    pub max_depth: nat,
}

/// Drops the oldest entry of a stack that has grown beyond `max_depth`.
pub open spec fn trim(stack: Seq<SelectionSnapshot>, max_depth: nat) -> Seq<SelectionSnapshot> {
    if stack.len() > max_depth {
        stack.drop_first()
    } else {
        stack
    }
}

/// Both stacks respect the depth bound.
pub open spec fn view_wf(h: HistoryView) -> bool {
    h.past.len() <= h.max_depth && h.future.len() <= h.max_depth
}

/// Recording a new state: the redo stack is cleared and the state goes on top of the undo stack.
pub open spec fn spec_push(h: HistoryView, snapshot: SelectionSnapshot) -> HistoryView {
    HistoryView {
        past: trim(h.past.push(snapshot), h.max_depth),
        future: Seq::empty(),
        max_depth: h.max_depth,
    }
}

/// Undoing: the top of the undo stack is handed back and `current` goes on top of the redo stack.
/// With an empty undo stack nothing changes and nothing is handed back.
pub open spec fn spec_undo(h: HistoryView, current: SelectionSnapshot) -> (HistoryView, Option<SelectionSnapshot>) {
    if h.past.len() == 0 {
        (h, None)
    } else {
        (
            HistoryView {
                past: h.past.drop_last(),
                future: trim(h.future.push(current), h.max_depth),
                max_depth: h.max_depth,
            },
            Some(h.past.last()),
        )
    }
}

/// Redoing: the top of the redo stack is handed back and `current` goes on top of the undo stack.
/// With an empty redo stack nothing changes and nothing is handed back.
pub open spec fn spec_redo(h: HistoryView, current: SelectionSnapshot) -> (HistoryView, Option<SelectionSnapshot>) {
    if h.future.len() == 0 {
        (h, None)
    } else {
        (
            HistoryView {
                past: trim(h.past.push(current), h.max_depth),
                future: h.future.drop_last(),
                max_depth: h.max_depth,
            },
            Some(h.future.last()),
        )
    }
}

/// Undo/redo history with a maximum depth for each of its two stacks.
#[derive(Debug)]
pub struct HistoryManager {
    /// Past states (for undo)
    past: Vec<SelectionSnapshot>,
    /// Future states (for redo)
    future: Vec<SelectionSnapshot>,
    /// Maximum history depth
    max_depth: usize,
}

impl View for HistoryManager {
    type V = HistoryView;

    closed spec fn view(&self) -> HistoryView {
        HistoryView { past: self.past@, future: self.future@, max_depth: self.max_depth as nat }
    }
}

impl HistoryManager {
    /// The history respects its depth bound.
    pub closed spec fn wf(&self) -> bool {
        view_wf(self@)
    }

    /// Creates an empty history that keeps at most `max_depth` states on each stack.
    pub fn new(max_depth: usize) -> (r: Self)
        ensures
            r.wf(),
            r@.past == Seq::<SelectionSnapshot>::empty(),
            r@.future == Seq::<SelectionSnapshot>::empty(),
            r@.max_depth == max_depth,
    {
        HistoryManager { past: Vec::new(), future: Vec::new(), max_depth }
    }

    /// Records a new state, clearing any redo history.
    pub fn push(&mut self, snapshot: SelectionSnapshot)
        requires
            old(self).wf(),
        ensures
            final(self).wf(),
            final(self)@ == spec_push(old(self)@, snapshot),
    {
        self.future.clear();
        self.past.push(snapshot);
        if self.past.len() > self.max_depth {
            self.past.remove(0);
        }
        proof {
            assert(self.past@ =~= trim(old(self)@.past.push(snapshot), old(self)@.max_depth));
        }
    }

    /// Undoes the last action: hands back the previous state, if there is one,
    /// and keeps `current` for redo.
    pub fn undo(&mut self, current: SelectionSnapshot) -> (r: Option<SelectionSnapshot>)
        requires
            old(self).wf(),
        ensures
            final(self).wf(),
            (final(self)@, r) == spec_undo(old(self)@, current),
    {
        match self.past.pop() {
            Some(previous) => {
                self.future.push(current);
                if self.future.len() > self.max_depth {
                    self.future.remove(0);
                }
                proof {
                    assert(self.past@ =~= old(self)@.past.drop_last());
                    assert(self.future@ =~= trim(old(self)@.future.push(current), old(self)@.max_depth));
                }
                Some(previous)
            },
            None => None,
        }
    }

    /// Redoes the last undone action: hands back the next state, if there is one,
    /// and keeps `current` for undo.
    pub fn redo(&mut self, current: SelectionSnapshot) -> (r: Option<SelectionSnapshot>)
        requires
            old(self).wf(),
        ensures
            final(self).wf(),
            (final(self)@, r) == spec_redo(old(self)@, current),
    {
        match self.future.pop() {
            Some(next) => {
                self.past.push(current);
                if self.past.len() > self.max_depth {
                    self.past.remove(0);
                }
                proof {
                    assert(self.future@ =~= old(self)@.future.drop_last());
                    assert(self.past@ =~= trim(old(self)@.past.push(current), old(self)@.max_depth));
                }
                Some(next)
            },
            None => None,
        }
    }

    /// Whether an undo is available.
    pub fn can_undo(&self) -> (r: bool)
        ensures
            r == (self@.past.len() > 0),
    {
        !self.past.is_empty()
    }

    /// Whether a redo is available.
    pub fn can_redo(&self) -> (r: bool)
        ensures
            r == (self@.future.len() > 0),
    {
        !self.future.is_empty()
    }
}

/// Every operation keeps both stacks within the depth bound.
pub proof fn law_depth_bound_kept(h: HistoryView, s: SelectionSnapshot)
    requires
        view_wf(h),
    ensures
        view_wf(spec_push(h, s)),
        view_wf(spec_undo(h, s).0),
        view_wf(spec_redo(h, s).0),
{
}

/// Undo right after recording a state hands that state back, provided the history keeps any state at all.
pub proof fn law_undo_returns_last_recorded(h: HistoryView, s: SelectionSnapshot, current: SelectionSnapshot)
    requires
        view_wf(h),
        h.max_depth > 0,
    ensures
        spec_undo(spec_push(h, s), current).1 == Some(s),
{
}

/// Recording a state leaves nothing to redo.
pub proof fn law_push_clears_redo(h: HistoryView, s: SelectionSnapshot)
    ensures
        spec_push(h, s).future.len() == 0,
        spec_redo(spec_push(h, s), s).1 == None::<SelectionSnapshot>,
{
}

/// Undo and then redo of the state that undo handed back restores the history exactly
/// and hands back the state that was current before the undo, unless the redo stack was full.
pub proof fn law_redo_undoes_undo(h: HistoryView, current: SelectionSnapshot)
    requires
        view_wf(h),
        h.past.len() > 0,
        h.future.len() < h.max_depth,
    ensures
        spec_redo(spec_undo(h, current).0, spec_undo(h, current).1.unwrap()) == (h, Some(current)),
{
    let (h1, p) = spec_undo(h, current);
    let (h2, r) = spec_redo(h1, p.unwrap());
    assert(h2.past =~= h.past);
    assert(h2.future =~= h.future);
}

/// Redo and then undo of the state that redo handed back restores the history exactly
/// and hands back the state that was current before the redo, unless the undo stack was full.
pub proof fn law_undo_undoes_redo(h: HistoryView, current: SelectionSnapshot)
    requires
        view_wf(h),
        h.future.len() > 0,
        h.past.len() < h.max_depth,
    ensures
        spec_undo(spec_redo(h, current).0, spec_redo(h, current).1.unwrap()) == (h, Some(current)),
{
    let (h1, n) = spec_redo(h, current);
    let (h2, r) = spec_undo(h1, n.unwrap());
    assert(h2.past =~= h.past);
    assert(h2.future =~= h.future);
}

/// With nothing to undo (or redo), the operation changes nothing and hands nothing back.
pub proof fn law_empty_stack_is_noop(h: HistoryView, current: SelectionSnapshot)
    ensures
        h.past.len() == 0 ==> spec_undo(h, current) == (h, None::<SelectionSnapshot>),
        h.future.len() == 0 ==> spec_redo(h, current) == (h, None::<SelectionSnapshot>),
{
}

/// Recording, undoing and redoing keep every recorded state free of repeated paths when the
/// states handed in are, and what undo and redo hand back is free of them too.
pub proof fn law_history_keeps_snapshots_wf(h: HistoryView, s: SelectionSnapshot)
    requires
        snapshots_wf(h),
        s.wf(),
    ensures
        snapshots_wf(spec_push(h, s)),
        snapshots_wf(spec_undo(h, s).0),
        snapshots_wf(spec_redo(h, s).0),
        spec_undo(h, s).1 matches Some(r) ==> r.wf(),
        spec_redo(h, s).1 matches Some(r) ==> r.wf(),
{
    let p = trim(h.past.push(s), h.max_depth);
    assert forall|i: int| 0 <= i < p.len() implies (#[trigger] p[i]).wf() by {
        if h.past.push(s).len() > h.max_depth {
            assert(p[i] == h.past.push(s)[i + 1]);
        }
    }
    let f = trim(h.future.push(s), h.max_depth);
    assert forall|i: int| 0 <= i < f.len() implies (#[trigger] f[i]).wf() by {
        if h.future.push(s).len() > h.max_depth {
            assert(f[i] == h.future.push(s)[i + 1]);
        }
    }
    if h.past.len() > 0 {
        assert(h.past.last() == h.past[h.past.len() - 1]);
        let d = h.past.drop_last();
        assert forall|i: int| 0 <= i < d.len() implies (#[trigger] d[i]).wf() by {
            assert(d[i] == h.past[i]);
        }
    }
    if h.future.len() > 0 {
        assert(h.future.last() == h.future[h.future.len() - 1]);
        let d = h.future.drop_last();
        assert forall|i: int| 0 <= i < d.len() implies (#[trigger] d[i]).wf() by {
            assert(d[i] == h.future[i]);
        }
    }
}

} // verus!
