//! Undo history: a list of edits, the first `done` of which are applied.
use vstd::prelude::*;

verus! {

/// The edits, oldest first, and how many of them are applied.
#[derive(Debug)]
pub struct UndoStack<A> {
    atoms: Vec<A>,
    done: usize,
}

/// The model of an undo history.
pub struct History<A> {
    pub atoms: Seq<A>,
    pub done: nat,
}

impl<A> View for UndoStack<A> {
    type V = History<A>;

    closed spec fn view(&self) -> History<A> {
        History { atoms: self.atoms@, done: self.done as nat }
    }
}

/// The history after a new edit: the undone edits are dropped, the new one
/// is applied.
pub open spec fn history_add<A>(h: History<A>, atom: A) -> History<A> {
    History { atoms: h.atoms.take(h.done as int).push(atom), done: h.done + 1 }
}

/// The history with at most `limit` edits: the oldest go first, and applied
/// ones among them stay applied no more.
pub open spec fn history_limit<A>(h: History<A>, limit: nat) -> History<A> {
    if h.atoms.len() > limit {
        let excess = (h.atoms.len() - limit) as nat;
        History {
            atoms: h.atoms.skip(excess as int),
            done: if h.done >= excess {
                (h.done - excess) as nat
            } else {
                0
            },
        }
    } else {
        h
    }
}

/// The history after an undo: one applied edit fewer, if there was one.
pub open spec fn history_undo<A>(h: History<A>) -> History<A> {
    History { atoms: h.atoms, done: if h.done > 0 { (h.done - 1) as nat } else { 0 } }
}

/// The history after a redo: one more applied edit, if one was undone.
pub open spec fn history_redo<A>(h: History<A>) -> History<A> {
    History { atoms: h.atoms, done: if h.done < h.atoms.len() { h.done + 1 } else { h.done } }
}

impl<A> UndoStack<A> {
    /// No more edits are applied than there are.
    pub open spec fn wf(&self) -> bool {
        history_wf(self@)
    }

    pub fn new() -> (r: Self)
        ensures
            r.wf(),
            r@.atoms == Seq::<A>::empty(),
            r@.done == 0,
    {
        UndoStack { atoms: Vec::new(), done: 0 }
    }

    /// Whether an applied edit can be undone.
    pub fn has_undo(&self) -> (r: bool)
        ensures
            r == (self@.done > 0),
    {
        self.done > 0
    }

    /// Whether an undone edit can be applied again.
    pub fn has_redo(&self) -> (r: bool)
        requires
            self.wf(),
        ensures
            r == (self@.done < self@.atoms.len()),
    {
        self.done < self.atoms.len()
    }

    /// The edit at the position.
    pub fn atom(&self, i: usize) -> (r: &A)
        requires
            i < self@.atoms.len(),
        ensures
            *r == self@.atoms[i as int],
    {
        &self.atoms[i]
    }

    /// Records a new edit as applied; edits that were undone are dropped.
    pub fn add(&mut self, atom: A)
        requires
            old(self).wf(),
        ensures
            final(self).wf(),
            final(self)@ == history_add(old(self)@, atom),
    {
        self.atoms.truncate(self.done);
        self.atoms.push(atom);
        assert(self.atoms.len() == self.done + 1);
        self.done = self.done + 1;
    }

    /// Drops the oldest edits until at most `limit` are left.
    pub fn truncate_to_limit(&mut self, limit: usize)
        requires
            old(self).wf(),
        ensures
            final(self).wf(),
            final(self)@ == history_limit(old(self)@, limit as nat),
    {
        if self.atoms.len() > limit {
            let excess = self.atoms.len() - limit;
            let mut k: usize = 0;
            while k < excess
                invariant
                    k <= excess,
                    excess == old(self).atoms@.len() - limit,
                    self.atoms@ == old(self).atoms@.skip(k as int),
                    self.done == old(self).done,
                decreases excess - k,
            {
                self.atoms.remove(0);
                assert(self.atoms@ =~= old(self).atoms@.skip(k + 1));
                k = k + 1;
            }
            self.done = if self.done >= excess {
                self.done - excess
            } else {
                0
            };
        }
    }

    /// Marks the last applied edit as undone, and gives its position.
    pub fn undo(&mut self) -> (r: Option<usize>)
        requires
            old(self).wf(),
        ensures
            final(self).wf(),
            final(self)@.atoms == old(self)@.atoms,
            old(self)@.done > 0 ==> r == Some((old(self)@.done - 1) as usize) && final(self)@.done
                == old(self)@.done - 1,
            old(self)@.done == 0 ==> r is None && final(self)@.done == 0,
    {
        if self.done > 0 {
            self.done = self.done - 1;
            Some(self.done)
        } else {
            None
        }
    }

    /// Marks the first undone edit as applied again, and gives its position.
    pub fn redo(&mut self) -> (r: Option<usize>)
        requires
            old(self).wf(),
        ensures
            final(self).wf(),
            final(self)@.atoms == old(self)@.atoms,
            old(self)@.done < old(self)@.atoms.len() ==> r == Some(old(self)@.done as usize)
                && final(self)@.done == old(self)@.done + 1,
            old(self)@.done == old(self)@.atoms.len() ==> r is None && final(self)@.done
                == old(self)@.done,
    {
        if self.done < self.atoms.len() {
            let i = self.done;
            self.done = self.done + 1;
            Some(i)
        } else {
            None
        }
    }
}

/// Which of the undo, redo and save commands are available.
#[derive(Clone, Copy, Debug, PartialEq, Eq, Structural)]
pub struct CommandStates {
    pub undo: bool,
    pub redo: bool,
    pub save: bool,
}

/// The undo history of the editor, with its limit.
#[derive(Debug)]
pub struct UndoManager<A> {
    pub max_undo: usize,
    stack: UndoStack<A>,
}

impl<A> UndoManager<A> {
    /// The history is valid: no more edits are applied than there are.
    pub open spec fn wf(&self) -> bool {
        history_wf(self.history())
    }

    /// The most edits that the history keeps.
    pub closed spec fn limit(&self) -> usize {
        self.max_undo
    }

    /// The history.
    pub closed spec fn history(&self) -> History<A> {
        self.stack@
    }

    /// An empty history that keeps at most 30 edits.
    pub fn new() -> (r: Self)
        ensures
            r.wf(),
            r.limit() == 30,
            r.history().atoms == Seq::<A>::empty(),
            r.history().done == 0,
    {
        UndoManager { max_undo: 30, stack: UndoStack::new() }
    }

    /// Records a new edit, and drops the oldest ones beyond the limit. The
    /// undo command becomes available; saving is available as long as there
    /// is something to undo.
    pub fn add_undo(&mut self, atom: A) -> (r: CommandStates)
        requires
            old(self).wf(),
        ensures
            final(self).wf(),
            final(self).limit() == old(self).limit(),
            final(self).history() == history_limit(
                history_add(old(self).history(), atom),
                old(self).limit() as nat,
            ),
            history_wf(final(self).history()),
            final(self).history().atoms.len() <= old(self).limit(),
            old(self).limit() > 0 ==> {
                &&& final(self).history().done > 0
                &&& final(self).history().done == final(self).history().atoms.len()
                &&& final(self).history().atoms.last() == atom
            },
            r.undo,
            r.redo == (final(self).history().done < final(self).history().atoms.len()),
            r.save == (final(self).history().done > 0),
    {
        self.stack.add(atom);
        let limit = self.max_undo;
        self.stack.truncate_to_limit(limit);
        proof {
            law_history_within_limit(history_add(old(self).history(), atom), limit as nat);
            if limit > 0 {
                law_undo_reverts_added(old(self).history(), atom, limit as nat);
            }
        }
        CommandStates { undo: true, redo: self.stack.has_redo(), save: self.can_save() }
    }

    /// Undoes the last applied edit: gives the position of the edit that
    /// the caller is to revert, and the commands that are then available.
    pub fn undo(&mut self) -> (r: (Option<usize>, CommandStates))
        requires
            old(self).wf(),
        ensures
            final(self).wf(),
            final(self).limit() == old(self).limit(),
            final(self).history().atoms == old(self).history().atoms,
            old(self).history().done > 0 ==> r.0 == Some((old(self).history().done - 1) as usize)
                && final(self).history().done == old(self).history().done - 1,
            old(self).history().done == 0 ==> r.0 is None && final(self).history().done == 0,
            final(self).history() == history_undo(old(self).history()),
            r.1 == final(self).commands(),
    {
        let i = self.stack.undo();
        (i, self.command_states())
    }

    /// Applies the first undone edit again: gives the position of the edit
    /// that the caller is to apply, and the commands that are then available.
    pub fn redo(&mut self) -> (r: (Option<usize>, CommandStates))
        requires
            old(self).wf(),
        ensures
            final(self).wf(),
            final(self).limit() == old(self).limit(),
            final(self).history().atoms == old(self).history().atoms,
            old(self).history().done < old(self).history().atoms.len() ==> r.0 == Some(
                old(self).history().done as usize,
            ) && final(self).history().done == old(self).history().done + 1,
            old(self).history().done == old(self).history().atoms.len() ==> r.0 is None
                && final(self).history().done == old(self).history().done,
            final(self).history() == history_redo(old(self).history()),
            r.1 == final(self).commands(),
    {
        let i = self.stack.redo();
        (i, self.command_states())
    }

    /// The commands that the history allows.
    pub open spec fn commands(&self) -> CommandStates {
        CommandStates {
            undo: self.history().done > 0,
            redo: self.history().done < self.history().atoms.len(),
            save: self.history().done > 0,
        }
    }

    /// The commands that the history allows.
    pub fn command_states(&self) -> (r: CommandStates)
        requires
            self.wf(),
        ensures
            r == self.commands(),
    {
        CommandStates {
            undo: self.stack.has_undo(),
            redo: self.stack.has_redo(),
            save: self.can_save(),
        }
    }

    /// The edit at the position.
    pub fn atom(&self, i: usize) -> (r: &A)
        requires
            i < self.history().atoms.len(),
        ensures
            *r == self.history().atoms[i as int],
    {
        self.stack.atom(i)
    }

    /// Whether saving is available: there is an edit to undo.
    pub fn can_save(&self) -> (r: bool)
        ensures
            r == (self.history().done > 0),
    {
        self.has_undo()
    }

    /// Checks if the undo manager has any undoable actions.
    pub fn has_undo(&self) -> (r: bool)
        ensures
            r == (self.history().done > 0),
    {
        self.stack.has_undo()
    }
}

/// A valid history: no more edits applied than there are.
pub open spec fn history_wf<A>(h: History<A>) -> bool {
    h.done <= h.atoms.len()
}

/// Undoing an edit and redoing it gives the history back.
pub proof fn law_redo_after_undo<A>(h: History<A>)
    requires
        history_wf(h),
        h.done > 0,
    ensures
        history_redo(history_undo(h)) == h,
{
}

/// Redoing an edit and undoing it gives the history back.
pub proof fn law_undo_after_redo<A>(h: History<A>)
    requires
        history_wf(h),
        h.done < h.atoms.len(),
    ensures
        history_undo(history_redo(h)) == h,
{
}

/// After a new edit, within a limit that keeps at least one edit, the next
/// undo reverts that edit, and nothing is left to redo.
pub proof fn law_undo_reverts_added<A>(h: History<A>, atom: A, limit: nat)
    requires
        history_wf(h),
        limit > 0,
    ensures
        ({
            let h1 = history_limit(history_add(h, atom), limit);
            &&& h1.done > 0
            &&& h1.atoms[h1.done - 1] == atom
            &&& h1.done == h1.atoms.len()
        }),
{
    let h0 = history_add(h, atom);
    assert(h0.atoms.len() == h0.done);
    assert(h0.atoms[h0.done - 1] == atom);
    if h0.atoms.len() > limit {
        let excess = (h0.atoms.len() - limit) as nat;
        assert(h0.atoms.skip(excess as int)[h0.done - excess - 1] == h0.atoms[h0.done - 1]);
    }
}

/// A limited history keeps the newest edits up to the limit, and stays valid.
pub proof fn law_history_within_limit<A>(h: History<A>, limit: nat)
    requires
        history_wf(h),
    ensures
        history_limit(h, limit).atoms.len() == if h.atoms.len() > limit {
            limit
        } else {
            h.atoms.len()
        },
        history_wf(history_limit(h, limit)),
{
}

/// The commands a history reports: undo and save just when some edit is
/// applied, redo just when some applied edit was undone. So once a redo
/// applies the newest edit again, nothing is left to redo, and once an undo
/// reverts the oldest applied edit, nothing is left to undo or save.
pub proof fn law_command_states<A>(m: UndoManager<A>, m1: UndoManager<A>)
    requires
        m.wf(),
    ensures
        m.commands().undo <==> m.history().done > 0,
        m.commands().save <==> m.history().done > 0,
        m.commands().redo <==> m.history().done < m.history().atoms.len(),
        m1.history() == history_redo(m.history()) && m.history().done + 1
            == m.history().atoms.len() ==> !m1.commands().redo && m1.commands().undo
            && m1.commands().save,
        m1.history() == history_undo(m.history()) && m.history().done == 1 ==> m1.commands().redo
            && !m1.commands().undo && !m1.commands().save,
{
}


} // verus!
