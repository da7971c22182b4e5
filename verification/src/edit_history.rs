//! Undo/redo history of commit-message edits.
//!
//! The history keeps a current entry, a bounded stack of earlier entries and a
//! stack of undone entries. Persisting the history to disk is left to the
//! caller (see `EditHistory::undo_entries` and `EditHistory::from_parts`).
use std::collections::VecDeque;
use vstd::prelude::*;

verus! {

/// Number of earlier entries that the history keeps.
pub const MAX_HISTORY_SIZE: usize = 50;

/// One state of the message being edited.
pub struct HistoryEntry {
    pub message: String,
    pub cursor: (usize, usize),
}

impl Clone for HistoryEntry {
    fn clone(&self) -> (r: Self)
        ensures
            r == *self,
    {
        HistoryEntry { message: self.message.clone(), cursor: self.cursor }
    }
}

impl HistoryEntry {
    /// An entry for `message` with the cursor at `cursor`; the description
    /// of the edit is not stored.
    pub fn new(message: &str, cursor: (usize, usize), description: &str) -> (e: Self)
        ensures
            e.message@ == message@,
            e.cursor == cursor,
    {
        HistoryEntry { message: message.to_owned(), cursor }
    }
}

/// Abstract state of an `EditHistory`.
pub struct HistoryView {
    /// Earlier entries, oldest first.
    pub undo: Seq<HistoryEntry>,
    /// Undone entries, the next one to redo last.
    pub redo: Seq<HistoryEntry>,
    pub current: Option<HistoryEntry>,
}

/// Undo/redo history with a bounded undo stack.
pub struct EditHistory {
    undo_stack: VecDeque<HistoryEntry>,
    redo_stack: Vec<HistoryEntry>,
    current: Option<HistoryEntry>,
    max_size: usize,
}

impl View for EditHistory {
    type V = HistoryView;

    closed spec fn view(&self) -> HistoryView {
        HistoryView { undo: self.undo_stack@, redo: self.redo_stack@, current: self.current }
    }
}

/// The state after `undo`.
pub open spec fn undo_spec(h: HistoryView) -> HistoryView {
    match h.current {
        Some(c) => HistoryView {
            undo: if h.undo.len() > 0 {
                h.undo.drop_last()
            } else {
                h.undo
            },
            redo: h.redo.push(c),
            current: if h.undo.len() > 0 {
                Some(h.undo.last())
            } else {
                None
            },
        },
        None => h,
    }
}

/// The state after `redo`.
pub open spec fn redo_spec(h: HistoryView) -> HistoryView {
    if h.redo.len() > 0 {
        HistoryView {
            undo: match h.current {
                Some(c) => h.undo.push(c),
                None => h.undo,
            },
            redo: h.redo.drop_last(),
            current: Some(h.redo.last()),
        }
    } else {
        h
    }
}

/// The oldest entries dropped until at most `max` remain.
pub open spec fn keep_newest(s: Seq<HistoryEntry>, max: nat) -> Seq<HistoryEntry> {
    if s.len() > max {
        s.subrange(s.len() - max, s.len() as int)
    } else {
        s
    }
}

/// The state after `push(e)`.
pub open spec fn push_spec(h: HistoryView, e: HistoryEntry) -> HistoryView {
    HistoryView {
        undo: match h.current {
            Some(c) => keep_newest(h.undo.push(c), MAX_HISTORY_SIZE as nat),
            None => h.undo,
        },
        redo: Seq::empty(),
        current: Some(e),
    }
}

/// The empty history.
pub open spec fn empty_history() -> HistoryView {
    HistoryView { undo: Seq::empty(), redo: Seq::empty(), current: None }
}

/// The states a history can reach: the undo stack is within its bound, it is
/// empty whenever there is no current entry, and undo, redo and current
/// together hold at most one entry more than the bound.
pub open spec fn history_wf(h: HistoryView) -> bool {
    &&& h.undo.len() <= MAX_HISTORY_SIZE
    &&& (h.current is None ==> h.undo.len() == 0)
    &&& h.undo.len() + h.redo.len() + (if h.current is Some {
        1int
    } else {
        0int
    }) <= MAX_HISTORY_SIZE + 1
}

impl EditHistory {
    /// The internal invariant.
    pub closed spec fn wf(&self) -> bool {
        &&& self.max_size == MAX_HISTORY_SIZE
        &&& history_wf(self@)
    }

    /// An empty history.
    pub fn new() -> (h: Self)
        ensures
            h.wf(),
            h@ == empty_history(),
    {
        EditHistory {
            undo_stack: VecDeque::with_capacity(MAX_HISTORY_SIZE),
            redo_stack: Vec::new(),
            current: None,
            max_size: MAX_HISTORY_SIZE,
        }
    }

    /// Records `entry` as the current state: the previous current entry goes
    /// onto the undo stack (the oldest entries beyond the bound are dropped)
    /// and the redo stack is cleared.
    pub fn push(&mut self, entry: HistoryEntry)
        requires
            old(self).wf(),
        ensures
            final(self).wf(),
            final(self)@ == push_spec(old(self)@, entry),
    {
        let ghost before = self@;
        if self.current.is_some() {
            let current = self.current.take().unwrap();
            self.undo_stack.push_back(current);
            let ghost pushed = self.undo_stack@;
            while self.undo_stack.len() > self.max_size
                invariant
                    self.max_size == MAX_HISTORY_SIZE,
                    self.undo_stack@.len() <= pushed.len(),
                    pushed.len() <= MAX_HISTORY_SIZE + 1,
                    self.undo_stack@.len() >= MAX_HISTORY_SIZE || self.undo_stack@.len()
                        == pushed.len(),
                    self.undo_stack@ == pushed.subrange(
                        pushed.len() - self.undo_stack@.len(),
                        pushed.len() as int,
                    ),
                decreases self.undo_stack@.len(),
            {
                self.undo_stack.pop_front();
            }
            assert(self.undo_stack@ =~= keep_newest(pushed, MAX_HISTORY_SIZE as nat));
        }
        self.redo_stack.clear();
        self.current = Some(entry);
        assert(self@ =~= push_spec(before, entry));
    }

    /// Steps back: the current entry goes onto the redo stack and the newest
    /// earlier entry becomes current. Returns the new current entry.
    pub fn undo(&mut self) -> (r: Option<&HistoryEntry>)
        requires
            old(self).wf(),
        ensures
            final(self).wf(),
            final(self)@ == undo_spec(old(self)@),
            (r is Some) == (final(self)@.current is Some),
            r matches Some(e) ==> final(self)@.current == Some(*e),
    {
        let ghost before = self@;
        if self.current.is_some() {
            let current = self.current.take().unwrap();
            self.redo_stack.push(current);
            self.current = self.undo_stack.pop_back();
        }
        assert(self@ =~= undo_spec(before));
        self.current.as_ref()
    }

    /// Steps forward: the newest undone entry becomes current and the current
    /// entry goes back onto the undo stack. Returns the new current entry.
    pub fn redo(&mut self) -> (r: Option<&HistoryEntry>)
        requires
            old(self).wf(),
        ensures
            final(self).wf(),
            final(self)@ == redo_spec(old(self)@),
            (r is Some) == (final(self)@.current is Some),
            r matches Some(e) ==> final(self)@.current == Some(*e),
    {
        let ghost before = self@;
        if let Some(redo) = self.redo_stack.pop() {
            if self.current.is_some() {
                let current = self.current.take().unwrap();
                self.undo_stack.push_back(current);
            }
            self.current = Some(redo);
        }
        assert(self@ =~= redo_spec(before));
        self.current.as_ref()
    }

    /// The current entry.
    pub fn current(&self) -> (r: Option<&HistoryEntry>)
        ensures
            (r is Some) == (self@.current is Some),
            r matches Some(e) ==> self@.current == Some(*e),
    {
        self.current.as_ref()
    }

    /// Forgets every entry.
    pub fn clear(&mut self)
        requires
            old(self).wf(),
        ensures
            final(self).wf(),
            final(self)@ == empty_history(),
    {
        self.undo_stack.clear();
        self.redo_stack.clear();
        self.current = None;
        assert(self@ =~= empty_history());
    }

    /// Starts a fresh history whose only entry is `message` with the cursor
    /// at the start.
    pub fn initialize(&mut self, message: &str)
        requires
            old(self).wf(),
        ensures
            final(self).wf(),
            final(self)@.undo.len() == 0,
            final(self)@.redo.len() == 0,
            final(self)@.current matches Some(e) && e.message@ == message@ && e.cursor == (
                0usize,
                0usize,
            ),
    {
        self.clear();
        self.current = Some(HistoryEntry::new(message, (0, 0), "initial"));
    }

    /// Number of earlier entries.
    pub fn undo_len(&self) -> (n: usize)
        ensures
            n == self@.undo.len(),
    {
        self.undo_stack.len()
    }

    /// Number of undone entries.
    pub fn redo_len(&self) -> (n: usize)
        ensures
            n == self@.redo.len(),
    {
        self.redo_stack.len()
    }

    /// Copies of the earlier entries, oldest first.
    pub fn undo_entries(&self) -> (v: Vec<HistoryEntry>)
        ensures
            v@ == self@.undo,
    {
        let mut v: Vec<HistoryEntry> = Vec::new();
        let mut i: usize = 0;
        while i < self.undo_stack.len()
            invariant
                i <= self.undo_stack@.len(),
                v@ == self.undo_stack@.take(i as int),
            decreases self.undo_stack@.len() - i,
        {
            v.push(self.undo_stack[i].clone());
            assert(self.undo_stack@.take(i + 1) =~= self.undo_stack@.take(i as int).push(
                self.undo_stack@[i as int],
            ));
            i = i + 1;
        }
        assert(self.undo_stack@.take(self.undo_stack@.len() as int) =~= self.undo_stack@);
        v
    }

    /// Copies of the undone entries, the next one to redo last.
    pub fn redo_entries(&self) -> (v: Vec<HistoryEntry>)
        ensures
            v@ == self@.redo,
    {
        let mut v: Vec<HistoryEntry> = Vec::new();
        let mut i: usize = 0;
        while i < self.redo_stack.len()
            invariant
                i <= self.redo_stack@.len(),
                v@ == self.redo_stack@.take(i as int),
            decreases self.redo_stack@.len() - i,
        {
            v.push(self.redo_stack[i].clone());
            assert(self.redo_stack@.take(i + 1) =~= self.redo_stack@.take(i as int).push(
                self.redo_stack@[i as int],
            ));
            i = i + 1;
        }
        assert(self.redo_stack@.take(self.redo_stack@.len() as int) =~= self.redo_stack@);
        v
    }

    /// Rebuilds a history from stored parts, for instance after reading it
    /// back from disk. Parts that no sequence of edits can produce are
    /// refused.
    pub fn from_parts(
        undo: Vec<HistoryEntry>,
        redo: Vec<HistoryEntry>,
        current: Option<HistoryEntry>,
    ) -> (r: Option<Self>)
        ensures
            r is Some <==> history_wf(HistoryView { undo: undo@, redo: redo@, current }),
            r matches Some(h) ==> h.wf() && h@ == (HistoryView { undo: undo@, redo: redo@, current }),
    {
        let some = current.is_some();
        if undo.len() > MAX_HISTORY_SIZE {
            return None;
        }
        if !some && undo.len() > 0 {
            return None;
        }
        if redo.len() > MAX_HISTORY_SIZE + 1 - undo.len() - (if some {
            1
        } else {
            0
        }) {
            return None;
        }
        let mut deque: VecDeque<HistoryEntry> = VecDeque::new();
        let mut undo = undo;
        let ghost orig = undo@;
        let mut rest: Vec<HistoryEntry> = Vec::new();
        while undo.len() > 0
            invariant
                orig == undo@ + rest@.reverse(),
            decreases undo@.len(),
        {
            let e = undo.pop().unwrap();
            rest.push(e);
            assert(orig =~= undo@ + rest@.reverse());
        }
        assert(rest@.reverse() =~= orig);
        while rest.len() > 0
            invariant
                orig == deque@ + rest@.reverse(),
            decreases rest@.len(),
        {
            let e = rest.pop().unwrap();
            deque.push_back(e);
            assert(orig =~= deque@ + rest@.reverse());
        }
        assert(deque@ =~= orig);
        Some(EditHistory { undo_stack: deque, redo_stack: redo, current, max_size: MAX_HISTORY_SIZE })
    }
}

/// Every history that `new`, `push`, `undo`, `redo` and `clear` produce keeps
/// at most `MAX_HISTORY_SIZE` earlier entries.
pub proof fn law_undo_stack_bounded(h: EditHistory)
    requires
        h.wf(),
    ensures
        h@.undo.len() <= MAX_HISTORY_SIZE,
{
}

/// Undo followed by redo restores the history whenever there is a current
/// entry.
pub proof fn law_redo_undoes_undo(h: HistoryView)
    requires
        history_wf(h),
        h.current is Some,
    ensures
        redo_spec(undo_spec(h)) == h,
{
    let u = undo_spec(h);
    assert(u.redo.drop_last() =~= h.redo);
    if h.undo.len() > 0 {
        assert(u.undo.push(u.current.unwrap()) =~= h.undo);
    }
}

/// Redo followed by undo restores the history whenever something was undone.
pub proof fn law_undo_undoes_redo(h: HistoryView)
    requires
        history_wf(h),
        h.redo.len() > 0,
    ensures
        undo_spec(redo_spec(h)) == h,
{
    let r = redo_spec(h);
    assert(r.redo.push(h.redo.last()) =~= h.redo);
    if h.current is Some {
        assert(r.undo.drop_last() =~= h.undo);
    }
}

/// Pushing a new entry discards everything that could have been redone, and
/// the entry becomes current.
pub proof fn law_push_clears_redo(h: HistoryView, e: HistoryEntry)
    ensures
        push_spec(h, e).redo.len() == 0,
        push_spec(h, e).current == Some(e),
{
}

impl Default for EditHistory {
    fn default() -> (h: Self)
        ensures
            h.wf(),
            h@ == empty_history(),
    {
        Self::new()
    }
}

} // verus!
