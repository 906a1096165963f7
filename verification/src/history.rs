//! Undo and redo of whole-document snapshots.
use vstd::prelude::*;

verus! {

/// The number of snapshots the undo stack keeps.
pub const MAX_HISTORY: usize = 50;

/// Undo and redo stacks of snapshots. The last item of each stack is its top.
/// While `paused`, new snapshots are not recorded.
pub struct History<T> {
    pub undo_stack: Vec<T>,
    pub redo_stack: Vec<T>,
    pub paused: bool,
}

/// The undo stack after recording `snap` on `stack`: pushed, and the oldest
/// dropped when the stack would exceed `MAX_HISTORY`.
pub open spec fn recorded<T>(stack: Seq<T>, snap: T) -> Seq<T> {
    let pushed = stack.push(snap);
    if pushed.len() > MAX_HISTORY {
        pushed.subrange(1, pushed.len() as int)
    } else {
        pushed
    }
}

/// The two stacks and the pause flag of a history.
pub struct HistoryState<T> {
    pub undo: Seq<T>,
    pub redo: Seq<T>,
    pub paused: bool,
}

impl<T> View for History<T> {
    type V = HistoryState<T>;

    open spec fn view(&self) -> HistoryState<T> {
        HistoryState { undo: self.undo_stack@, redo: self.redo_stack@, paused: self.paused }
    }
}

/// The history after recording `snap`: unless paused, `snap` is recorded on the
/// undo stack and the redo stack is emptied.
pub open spec fn pushed<T>(h: HistoryState<T>, snap: T) -> HistoryState<T> {
    if h.paused {
        h
    } else {
        HistoryState { undo: recorded(h.undo, snap), redo: Seq::empty(), paused: false }
    }
}

/// The history and current document after an undo from `cur`: the top of the
/// undo stack comes back and `cur` goes on the redo stack; nothing changes
/// when the undo stack is empty.
pub open spec fn undone<T>(h: HistoryState<T>, cur: T) -> (HistoryState<T>, T) {
    if h.undo.len() == 0 {
        (h, cur)
    } else {
        (HistoryState { undo: h.undo.drop_last(), redo: h.redo.push(cur), paused: false }, h.undo.last())
    }
}

/// The history and current document after a redo from `cur`: the top of the
/// redo stack comes back and `cur` goes on the undo stack; nothing changes
/// when the redo stack is empty.
pub open spec fn redone<T>(h: HistoryState<T>, cur: T) -> (HistoryState<T>, T) {
    if h.redo.len() == 0 {
        (h, cur)
    } else {
        (HistoryState { undo: h.undo.push(cur), redo: h.redo.drop_last(), paused: false }, h.redo.last())
    }
}

impl<T> History<T> {
    /// Empty stacks, recording on.
    pub fn new() -> (h: Self)
        ensures
            h@ == (HistoryState::<T> { undo: Seq::empty(), redo: Seq::empty(), paused: false }),
    {
        let h = History { undo_stack: Vec::new(), redo_stack: Vec::new(), paused: false };
        assert(h@.undo =~= Seq::<T>::empty());
        assert(h@.redo =~= Seq::<T>::empty());
        h
    }

    /// Records `snapshot`, the document as it was before a user action: pushed
    /// on the undo stack (the oldest dropped beyond `MAX_HISTORY`), and the redo
    /// stack cleared. Does nothing while paused.
    pub fn push_history(&mut self, snapshot: T)
        ensures
            final(self)@ == pushed(old(self)@, snapshot),
    {
        if self.paused {
            return;
        }
        self.undo_stack.push(snapshot);
        if self.undo_stack.len() > MAX_HISTORY {
            self.undo_stack.remove(0);
        }
        self.redo_stack = Vec::new();
        assert(self.undo_stack@ =~= recorded(old(self).undo_stack@, snapshot));
        assert(self.redo_stack@ =~= Seq::<T>::empty());
    }

    /// Steps back: the top of the undo stack becomes the current document and
    /// the current document goes on the redo stack; recording is on
    /// afterwards. Nothing happens when the undo stack is empty.
    pub fn undo(&mut self, current: &mut T)
        ensures
            (final(self)@, *final(current)) == undone(old(self)@, *old(current)),
    {
        match self.undo_stack.pop() {
            None => {},
            Some(prev) => {
                self.paused = true;
                let mut prev = prev;
                std::mem::swap(current, &mut prev);
                self.redo_stack.push(prev);
                self.paused = false;
            },
        }
    }

    /// Steps forward: the top of the redo stack becomes the current document
    /// and the current document goes on the undo stack; recording is on
    /// afterwards. Nothing happens when the redo stack is empty.
    pub fn redo(&mut self, current: &mut T)
        ensures
            (final(self)@, *final(current)) == redone(old(self)@, *old(current)),
    {
        match self.redo_stack.pop() {
            None => {},
            Some(next) => {
                self.paused = true;
                let mut next = next;
                std::mem::swap(current, &mut next);
                self.undo_stack.push(next);
                self.paused = false;
            },
        }
    }

    /// There is a step to undo.
    pub fn can_undo(&self) -> (r: bool)
        ensures
            r == (self@.undo.len() > 0),
    {
        self.undo_stack.len() > 0
    }

    /// There is a step to redo.
    pub fn can_redo(&self) -> (r: bool)
        ensures
            r == (self@.redo.len() > 0),
    {
        self.redo_stack.len() > 0
    }
}

/// Redo undoes an undo: after an undo from `cur` and a redo, the document is
/// `cur` again and both stacks are as they were; recording is on. (With
/// nothing to undo, the undo does nothing and the redo acts alone.)
pub proof fn law_undo_then_redo<T>(h: HistoryState<T>, cur: T)
    requires
        h.undo.len() > 0 || (h.redo.len() == 0 && !h.paused),
    ensures
        redone(undone(h, cur).0, undone(h, cur).1) == (HistoryState { paused: false, ..h }, cur),
{
    if h.undo.len() > 0 {
        let (u, d) = undone(h, cur);
        assert(u.undo.push(d) =~= h.undo);
        assert(u.redo.drop_last() =~= h.redo);
    }
}

/// Undo undoes a redo: after a redo from `cur` and an undo, the document is
/// `cur` again and both stacks are as they were; recording is on. (With
/// nothing to redo, the redo does nothing and the undo acts alone.)
pub proof fn law_redo_then_undo<T>(h: HistoryState<T>, cur: T)
    requires
        h.redo.len() > 0 || (h.undo.len() == 0 && !h.paused),
    ensures
        undone(redone(h, cur).0, redone(h, cur).1) == (HistoryState { paused: false, ..h }, cur),
{
    if h.redo.len() > 0 {
        let (r, d) = redone(h, cur);
        assert(r.redo.push(d) =~= h.redo);
        assert(r.undo.drop_last() =~= h.undo);
    }
}

/// Undo reverts a recorded action: when `before` was recorded and the action
/// led to `after`, an undo brings back `before`, leaves `after` alone on the
/// redo stack, and (below the size limit) restores the former undo stack.
pub proof fn law_undo_reverts_action<T>(h: HistoryState<T>, before: T, after: T)
    requires
        !h.paused,
    ensures
        undone(pushed(h, before), after).1 == before,
        undone(pushed(h, before), after).0.redo == seq![after],
        h.undo.len() < MAX_HISTORY ==> undone(pushed(h, before), after).0.undo == h.undo,
{
    assert(Seq::<T>::empty().push(after) =~= seq![after]);
    if h.undo.len() < MAX_HISTORY {
        assert(h.undo.push(before).drop_last() =~= h.undo);
    }
}

/// The history never holds more than `MAX_HISTORY` snapshots in its two stacks
/// together: recording, undo and redo all keep that bound.
pub proof fn law_history_bounded<T>(h: HistoryState<T>, snap: T, cur: T)
    requires
        h.undo.len() + h.redo.len() <= MAX_HISTORY,
    ensures
        pushed(h, snap).undo.len() + pushed(h, snap).redo.len() <= MAX_HISTORY,
        undone(h, cur).0.undo.len() + undone(h, cur).0.redo.len() <= MAX_HISTORY,
        redone(h, cur).0.undo.len() + redone(h, cur).0.redo.len() <= MAX_HISTORY,
{
}

} // verus!
