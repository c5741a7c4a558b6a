use vstd::prelude::*;

use crate::channel::{Received, Slot};

verus! {

/// What the driver saw when it advanced the set of spawned futures once.
pub enum Report<T> {
    /// No task could make progress; the scope should suspend.
    Idle,
    /// The task with this id ran to completion and produced this value.
    Finished(usize, T),
    /// No task is left.
    Exhausted,
}

/// Whether the entries hold a task that has not finished.
pub open spec fn has_pending<T>(entries: Seq<Slot<T>>) -> bool {
    exists|i: int| 0 <= i < entries.len() && entries[i].pending()
}

/// Whether a report could have come from a driver running the tasks that
/// `entries` describes.
pub open spec fn report_fits<T>(entries: Seq<Slot<T>>, report: Report<T>) -> bool {
    match report {
        Report::Idle => has_pending(entries),
        Report::Finished(id, _) => id < entries.len() && entries[id as int] is Open,
        Report::Exhausted => !has_pending(entries),
    }
}

/// The entries after the finished task of a report has sent its value.
pub open spec fn entries_after<T>(entries: Seq<Slot<T>>, report: Report<T>) -> Seq<Slot<T>> {
    match report {
        Report::Finished(id, v) => entries.update(id as int, entries[id as int].sent(v)),
        _ => entries,
    }
}

/// The entries after a receive on entry `id`, with what the receiver gets; an
/// id that names no entry gets nothing.
pub open spec fn receive_at<T>(entries: Seq<Slot<T>>, id: usize) -> (Seq<Slot<T>>, Received<T>) {
    if id < entries.len() {
        (entries.update(id as int, entries[id as int].received().0), entries[id as int].received().1)
    } else {
        (entries, Received::Abandoned)
    }
}

/// The entries after every pending task has been dropped.
pub open spec fn cleared<T>(entries: Seq<Slot<T>>) -> Seq<Slot<T>> {
    entries.map_values(|s: Slot<T>| s.closed())
}

/// The arena of spawned tasks: one result slot per task ever spawned, indexed
/// by the task's id. A task is pending exactly while its slot is open, or
/// holds a producer that never sends.
pub struct TaskRegistry<T> {
    entries: Vec<Slot<T>>,
}

impl<T> View for TaskRegistry<T> {
    type V = Seq<Slot<T>>;

    closed spec fn view(&self) -> Seq<Slot<T>> {
        self.entries@
    }
}

impl<T> TaskRegistry<T> {
    /// An empty registry.
    pub fn new() -> (r: Self)
        ensures
            r@ == Seq::<Slot<T>>::empty(),
    {
        TaskRegistry { entries: Vec::new() }
    }

    /// Admits a new pending task and returns its id.
    pub fn push(&mut self) -> (id: usize)
        ensures
            id == old(self)@.len(),
            final(self)@ == old(self)@.push(Slot::Open),
    {
        let id = self.entries.len();
        self.entries.push(Slot::Open);
        id
    }

    /// Admits a new pending task that never finishes, and returns its id.
    pub fn push_never(&mut self) -> (id: usize)
        ensures
            id == old(self)@.len(),
            final(self)@ == old(self)@.push(Slot::Never),
    {
        let id = self.entries.len();
        self.entries.push(Slot::Never);
        id
    }

    /// Records that the task `id` finished with `v`, and delivers `v`
    /// best-effort into its slot.
    pub fn finish(&mut self, id: usize, v: T)
        requires
            id < old(self)@.len(),
        ensures
            final(self)@ == old(self)@.update(id as int, old(self)@[id as int].sent(v)),
    {
        let mut slot = Slot::Taken;
        self.entries.set_and_swap(id, &mut slot);
        let mut filled = slot.send(v);
        self.entries.set_and_swap(id, &mut filled);
    }

    /// Applies a report of the driver to the entries.
    pub fn apply(&mut self, report: Report<T>)
        requires
            report_fits(old(self)@, report),
        ensures
            final(self)@ == entries_after(old(self)@, report),
    {
        match report {
            Report::Finished(id, v) => self.finish(id, v),
            _ => {},
        }
    }

    /// Receives from the slot of task `id`.
    pub fn receive(&mut self, id: usize) -> (r: Received<T>)
        ensures
            (final(self)@, r) == receive_at(old(self)@, id),
    {
        if id >= self.entries.len() {
            return Received::Abandoned;
        }
        let mut slot = Slot::Taken;
        self.entries.set_and_swap(id, &mut slot);
        let (mut after, r) = slot.receive();
        self.entries.set_and_swap(id, &mut after);
        r
    }

    /// Drops every pending task without resuming it: their slots close.
    pub fn clear(&mut self)
        ensures
            final(self)@ == cleared(old(self)@),
    {
        let ghost start = self.entries@;
        let n = self.entries.len();
        let mut i: usize = 0;
        while i < n
            invariant
                n == start.len(),
                i <= n,
                self.entries@.len() == n,
                forall|j: int| 0 <= j < i ==> self.entries@[j] == start[j].closed(),
                forall|j: int| i <= j < n ==> self.entries@[j] == start[j],
            decreases n - i,
        {
            let mut slot = Slot::Taken;
            self.entries.set_and_swap(i, &mut slot);
            let mut after = slot.close();
            self.entries.set_and_swap(i, &mut after);
            i = i + 1;
        }
        assert(self.entries@ =~= cleared(start));
    }

    /// Whether some task has not finished.
    pub fn has_pending(&self) -> (r: bool)
        ensures
            r == has_pending(self@),
    {
        let n = self.entries.len();
        let mut i: usize = 0;
        while i < n
            invariant
                n == self@.len(),
                i <= n,
                forall|j: int| 0 <= j < i ==> !self@[j].pending(),
            decreases n - i,
        {
            if self.entries[i].is_pending() {
                return true;
            }
            i = i + 1;
        }
        false
    }

    /// Whether `report` could have come from a driver running these tasks.
    pub fn fits(&self, report: &Report<T>) -> (r: bool)
        ensures
            r == report_fits(self@, *report),
    {
        match report {
            Report::Idle => self.has_pending(),
            Report::Finished(id, _) => *id < self.entries.len() && self.entries[*id].is_open(),
            Report::Exhausted => !self.has_pending(),
        }
    }
}

} // verus!
