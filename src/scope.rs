use vstd::prelude::*;

use crate::channel::{Received, Slot};
use crate::registry::{
    cleared, entries_after, receive_at, report_fits, Report, TaskRegistry,
};

verus! {

/// The scope's single termination slot.
pub enum Termination<R> {
    /// Nobody asked the scope to terminate.
    Unset,
    /// A final value is waiting to be handed to the poller.
    Requested(R),
    /// The final value was handed to the poller; the scope is finished.
    Delivered,
}

/// What one call of the polling entry point concludes.
pub enum PollOutcome<R> {
    /// Some task is not ready; poll again once woken.
    Pending,
    /// The scope was terminated with this final value.
    Terminated(R),
    /// No spawned task is outstanding right now.
    Quiescent,
}

/// What the scope asks the driver to do next while polling.
pub enum Directive<R> {
    /// Advance the set of spawned futures once and report what happened.
    PollRegistry,
    /// Stop polling with this outcome.
    Done(PollOutcome<R>),
}

/// The caller's end of a spawned task's result channel.
pub struct Handle {
    id: usize,
}

impl Handle {
    /// The id of the task whose result this handle receives.
    pub closed spec fn id(self) -> usize {
        self.id
    }

    /// The id of the task whose result this handle receives, for the driver
    /// that tags each future with its task.
    pub fn task_id(&self) -> (r: usize)
        ensures
            r == self.id(),
    {
        self.id
    }
}

/// The abstract state of a scope: the task arena and the termination slot.
pub ghost struct ScopeModel<R, T> {
    pub entries: Seq<Slot<T>>,
    pub termination: Termination<R>,
}

/// The model after one more task is admitted.
pub open spec fn spawned<R, T>(m: ScopeModel<R, T>) -> ScopeModel<R, T> {
    ScopeModel { entries: m.entries.push(Slot::Open), termination: m.termination }
}

/// The model after `terminate(v)`: the first request wins, and the returned
/// handle belongs to a task that stays pending and never sends.
pub open spec fn terminated_with<R, T>(m: ScopeModel<R, T>, v: R) -> ScopeModel<R, T> {
    ScopeModel {
        entries: m.entries.push(Slot::Never),
        termination: match m.termination {
            Termination::Unset => Termination::Requested(v),
            other => other,
        },
    }
}

/// The termination check: a requested final value is delivered at once,
/// otherwise `otherwise` is the outcome.
pub open spec fn settle<R, T>(m: ScopeModel<R, T>, otherwise: Directive<R>) -> (
    ScopeModel<R, T>,
    Directive<R>,
) {
    match m.termination {
        Termination::Requested(r) => (
            ScopeModel { entries: m.entries, termination: Termination::Delivered },
            Directive::Done(PollOutcome::Terminated(r)),
        ),
        _ => (m, otherwise),
    }
}

/// The first step of a poll: termination is honoured before any task runs.
pub open spec fn poll_started<R, T>(m: ScopeModel<R, T>) -> (ScopeModel<R, T>, Directive<R>) {
    settle(m, Directive::PollRegistry)
}

/// The step after the driver's report. Nothing ready means `Pending`, and a
/// termination request waits for the next poll. A finished task delivers its
/// value unless a termination request stands, in which case the value is
/// dropped; either way termination is checked before polling goes on, and
/// also before an empty registry is called quiescent.
pub open spec fn poll_reported<R, T>(m: ScopeModel<R, T>, report: Report<T>) -> (
    ScopeModel<R, T>,
    Directive<R>,
) {
    match report {
        Report::Idle => (m, Directive::Done(PollOutcome::Pending)),
        Report::Finished(_, _) => {
            if m.termination is Requested {
                settle(m, Directive::PollRegistry)
            } else {
                (
                    ScopeModel {
                        entries: entries_after(m.entries, report),
                        termination: m.termination,
                    },
                    Directive::PollRegistry,
                )
            }
        },
        Report::Exhausted => settle(m, Directive::Done(PollOutcome::Quiescent)),
    }
}

/// The model after every pending task is dropped.
pub open spec fn model_cleared<R, T>(m: ScopeModel<R, T>) -> ScopeModel<R, T> {
    ScopeModel { entries: cleared(m.entries), termination: m.termination }
}

/// The model after a receive through the handle of task `id`, with what the
/// handle gets.
pub open spec fn model_received<R, T>(m: ScopeModel<R, T>, id: usize) -> (
    ScopeModel<R, T>,
    Received<T>,
) {
    let (entries, r) = receive_at(m.entries, id);
    (ScopeModel { entries, termination: m.termination }, r)
}

/// A report fits the model when it could come from a driver running its
/// pending tasks.
pub open spec fn model_fits<R, T>(m: ScopeModel<R, T>, report: Report<T>) -> bool {
    report_fits(m.entries, report)
}

/// A structured-concurrency scope: it owns every spawned task's result slot
/// and a single termination slot, and decides what polling does next.
pub struct Scope<R, T> {
    registry: TaskRegistry<T>,
    termination: Termination<R>,
}

impl<R, T> View for Scope<R, T> {
    type V = ScopeModel<R, T>;

    closed spec fn view(&self) -> ScopeModel<R, T> {
        ScopeModel { entries: self.registry@, termination: self.termination }
    }
}

impl<R, T> Scope<R, T> {
    /// A scope with no task and no termination request.
    pub fn new() -> (r: Self)
        ensures
            r@ == (ScopeModel::<R, T> {
                entries: Seq::empty(),
                termination: Termination::Unset,
            }),
    {
        Scope { registry: TaskRegistry::new(), termination: Termination::Unset }
    }

    /// Admits a new task; the returned handle receives its result.
    pub fn spawn(&mut self) -> (h: Handle)
        ensures
            final(self)@ == spawned(old(self)@),
            h.id() == old(self)@.entries.len(),
    {
        let id = self.registry.push();
        Handle { id }
    }

    /// Asks the scope to finish with `value`, unless an earlier request
    /// stands. The returned handle belongs to a task that never finishes:
    /// awaiting it suspends the caller until the scope is torn down.
    pub fn terminate(&mut self, value: R) -> (h: Handle)
        ensures
            final(self)@ == terminated_with(old(self)@, value),
            h.id() == old(self)@.entries.len(),
    {
        if let Termination::Unset = self.termination {
            self.termination = Termination::Requested(value);
        }
        let id = self.registry.push_never();
        Handle { id }
    }

    /// First step of a poll.
    pub fn poll_start(&mut self) -> (d: Directive<R>)
        requires
            !(old(self)@.termination is Delivered),
        ensures
            (final(self)@, d) == poll_started(old(self)@),
    {
        self.settle(Directive::PollRegistry)
    }

    /// Step after the driver advanced the spawned futures once.
    pub fn poll_report(&mut self, report: Report<T>) -> (d: Directive<R>)
        requires
            !(old(self)@.termination is Delivered),
            model_fits(old(self)@, report),
        ensures
            (final(self)@, d) == poll_reported(old(self)@, report),
    {
        match report {
            Report::Idle => Directive::Done(PollOutcome::Pending),
            Report::Finished(id, v) => {
                if let Termination::Unset = self.termination {
                    self.registry.finish(id, v);
                }
                self.settle(Directive::PollRegistry)
            },
            Report::Exhausted => self.settle(Directive::Done(PollOutcome::Quiescent)),
        }
    }

    fn settle(&mut self, otherwise: Directive<R>) -> (d: Directive<R>)
        ensures
            (final(self)@, d) == settle(old(self)@, otherwise),
    {
        if let Termination::Requested(_) = self.termination {
            let mut t = Termination::Delivered;
            std::mem::swap(&mut self.termination, &mut t);
            if let Termination::Requested(r) = t {
                return Directive::Done(PollOutcome::Terminated(r));
            }
        }
        otherwise
    }

    /// Drops every pending task without resuming it. Their handles will
    /// receive nothing.
    pub fn clear(&mut self)
        ensures
            final(self)@ == model_cleared(old(self)@),
    {
        self.registry.clear();
    }

    /// Asks the handle's channel for the task's result.
    pub fn try_receive(&mut self, h: &Handle) -> (r: Received<T>)
        ensures
            (final(self)@, r) == model_received(old(self)@, h.id()),
    {
        self.registry.receive(h.id)
    }

    /// Whether `report` could have come from a driver running this scope's
    /// pending tasks.
    pub fn accepts(&self, report: &Report<T>) -> (r: bool)
        ensures
            r == model_fits(self@, *report),
    {
        self.registry.fits(report)
    }

    /// Whether the final value was already handed to the poller.
    pub fn is_finished(&self) -> (r: bool)
        ensures
            r == (self@.termination is Delivered),
    {
        match self.termination {
            Termination::Delivered => true,
            _ => false,
        }
    }

    /// Whether a termination request waits to be handed to the poller.
    pub fn is_terminating(&self) -> (r: bool)
        ensures
            r == (self@.termination is Requested),
    {
        match self.termination {
            Termination::Requested(_) => true,
            _ => false,
        }
    }

    /// Whether some spawned task has not finished.
    pub fn has_pending(&self) -> (r: bool)
        ensures
            r == crate::registry::has_pending(self@.entries),
    {
        self.registry.has_pending()
    }
}

} // verus!
