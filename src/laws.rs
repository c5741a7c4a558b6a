use vstd::prelude::*;

use crate::channel::{Received, Slot};
use crate::registry::{has_pending, Report};
use crate::scope::{
    model_cleared, model_fits, model_received, poll_reported, poll_started, spawned,
    terminated_with, Directive, PollOutcome, ScopeModel, Termination,
};

verus! {

/// The reports of a driver that saw task `ids[k]` finish with `vals[k]`, in
/// that order.
pub open spec fn finish_reports<T>(ids: Seq<usize>, vals: Seq<T>) -> Seq<Report<T>> {
    Seq::new(ids.len(), |k: int| Report::Finished(ids[k], vals[k]))
}

/// The model after the driver's reports are applied one after another.
pub open spec fn drive<R, T>(m: ScopeModel<R, T>, reports: Seq<Report<T>>) -> ScopeModel<R, T>
    decreases reports.len(),
{
    if reports.len() == 0 {
        m
    } else {
        drive(poll_reported(m, reports[0]).0, reports.drop_first())
    }
}

/// Whether a model can describe a scope in memory: every task id fits a
/// `usize`.
pub open spec fn addressable<R, T>(m: ScopeModel<R, T>) -> bool {
    m.entries.len() <= usize::MAX
}

/// Whether the report says that task `id` finished.
pub open spec fn finishes<T>(report: Report<T>, id: usize) -> bool {
    report matches Report::Finished(j, _) && j == id
}

/// A handle whose task has not finished receives nothing and changes nothing:
/// no handle resolves before the poller has seen its task complete.
pub proof fn lemma_waiting_until_finished<R, T>(m: ScopeModel<R, T>, id: usize)
    requires
        id < m.entries.len(),
        m.entries[id as int].pending(),
    ensures
        model_received(m, id) == (m, Received::<T>::Waiting),
{
    assert(m.entries.update(id as int, m.entries[id as int]) =~= m.entries);
}

/// When the poller sees a task finish, polling goes on, and the task's handle
/// then receives exactly the task's value.
pub proof fn lemma_finished_is_received<R, T>(m: ScopeModel<R, T>, id: usize, v: T)
    requires
        m.termination is Unset,
        model_fits(m, Report::Finished(id, v)),
    ensures
        poll_reported(m, Report::Finished(id, v)).1 == Directive::<R>::PollRegistry,
        model_received(poll_reported(m, Report::Finished(id, v)).0, id).1 == Received::Ready(v),
{
}

/// When every pending task finishes with an available value, in any order,
/// polling reaches `Quiescent` and every handle holds its own task's value.
pub proof fn lemma_all_finished_quiescent<R, T>(m: ScopeModel<R, T>, ids: Seq<usize>, vals: Seq<T>)
    requires
        addressable(m),
        m.termination is Unset,
        ids.no_duplicates(),
        ids.len() == vals.len(),
        forall|k: int| 0 <= k < ids.len() ==> ids[k] < m.entries.len() && m.entries[ids[k] as int] is Open,
        forall|i: int| 0 <= i < m.entries.len() && m.entries[i].pending() ==> ids.contains(i as usize),
    ensures
        drive(m, finish_reports(ids, vals)).termination is Unset,
        drive(m, finish_reports(ids, vals)).entries.len() == m.entries.len(),
        forall|k: int|
            0 <= k < ids.len() ==> drive(m, finish_reports(ids, vals)).entries[ids[k] as int]
                == Slot::Filled(vals[k]),
        forall|i: int|
            0 <= i < m.entries.len() && !ids.contains(i as usize) ==> drive(
                m,
                finish_reports(ids, vals),
            ).entries[i] == m.entries[i],
        forall|k: int|
            0 <= k < ids.len() ==> model_fits(
                #[trigger] drive(m, finish_reports(ids, vals).take(k)),
                finish_reports(ids, vals)[k],
            ) && poll_reported(drive(m, finish_reports(ids, vals).take(k)), finish_reports(
                ids,
                vals,
            )[k]).1 == Directive::<R>::PollRegistry,
        !has_pending(drive(m, finish_reports(ids, vals)).entries),
        poll_reported(drive(m, finish_reports(ids, vals)), Report::Exhausted).1
            == Directive::<R>::Done(PollOutcome::Quiescent),
    decreases ids.len(),
{
    let reports = finish_reports(ids, vals);
    let end = drive(m, reports);
    if ids.len() == 0 {
        assert(!has_pending(m.entries));
    } else {
        let id = ids[0];
        let next = poll_reported(m, reports[0]).0;
        let rest_ids = ids.drop_first();
        let rest_vals = vals.drop_first();
        assert(reports.drop_first() =~= finish_reports(rest_ids, rest_vals));
        assert(next.entries == m.entries.update(id as int, Slot::Filled(vals[0])));
        assert forall|k: int| 0 <= k < rest_ids.len() implies rest_ids[k] < next.entries.len()
            && next.entries[rest_ids[k] as int] is Open by {
            assert(ids[k + 1] != ids[0]);
        }
        assert forall|i: int|
            0 <= i < next.entries.len() && next.entries[i].pending() implies rest_ids.contains(
            i as usize) by {
            assert(ids.contains(i as usize));
            let k = choose|k: int| 0 <= k < ids.len() && ids[k] == i as usize;
            assert(i != id as int);
            assert(k != 0);
            assert(rest_ids[k - 1] == i as usize);
        }
        lemma_all_finished_quiescent(next, rest_ids, rest_vals);
        assert(end == drive(next, finish_reports(rest_ids, rest_vals)));
        assert(!rest_ids.contains(id));
        assert forall|k: int| 0 <= k < ids.len() implies end.entries[ids[k] as int]
            == Slot::Filled(vals[k]) by {
            if k > 0 {
                assert(rest_ids[k - 1] == ids[k]);
            } else {
                assert(end.entries[id as int] == next.entries[id as int]);
            }
        }
        assert forall|i: int| 0 <= i < m.entries.len() && !ids.contains(i as usize) implies
            end.entries[i] == m.entries[i] by {
            assert(i as usize != id);
            if rest_ids.contains(i as usize) {
                let k = choose|k: int| 0 <= k < rest_ids.len() && rest_ids[k] == i as usize;
                assert(ids[k + 1] == i as usize);
                assert(ids.contains(i as usize));
            }
            assert(next.entries[i] == m.entries[i]);
            assert(end.entries[i] == next.entries[i]);
        }
        let rest = finish_reports(rest_ids, rest_vals);
        assert forall|k: int| 0 <= k < ids.len() implies model_fits(
            #[trigger] drive(m, reports.take(k)),
            reports[k],
        ) && poll_reported(drive(m, reports.take(k)), reports[k]).1
            == Directive::<R>::PollRegistry by {
            if k == 0 {
                assert(reports.take(0) =~= Seq::<Report<T>>::empty());
            } else {
                assert(reports.take(k).drop_first() =~= rest.take(k - 1));
                assert(reports.take(k)[0] == reports[0]);
                assert(drive(m, reports.take(k)) == drive(next, rest.take(k - 1)));
                assert(reports[k] == rest[k - 1]);
            }
        }
    }
}

/// Once a task asks to terminate with `v`, the scope's outcome is
/// `Terminated(v)`: at once if the driver reports a finished task (whose value
/// is then dropped), otherwise at the start of the next poll, and no task
/// that was pending before the request ever hands its handle a value.
pub proof fn lemma_termination_preempts<R, T>(m: ScopeModel<R, T>, v: R, report: Report<T>)
    requires
        m.termination is Unset,
        model_fits(terminated_with(m, v), report),
    ensures
        poll_started(terminated_with(m, v)).1 == Directive::<R>::Done(PollOutcome::Terminated(v)),
        report is Idle ==> poll_reported(terminated_with(m, v), report) == (
            terminated_with(m, v),
            Directive::<R>::Done(PollOutcome::Pending),
        ),
        !(report is Idle) ==> poll_reported(terminated_with(m, v), report).1 == Directive::<
            R,
        >::Done(PollOutcome::Terminated(v)),
        !(report is Idle) ==> poll_reported(terminated_with(m, v), report).0 == (ScopeModel {
            entries: terminated_with(m, v).entries,
            termination: Termination::<R>::Delivered,
        }),
        forall|i: usize|
            i < m.entries.len() && m.entries[i as int].pending() ==> model_received(
                model_cleared(poll_reported(terminated_with(m, v), report).0),
                i,
            ).1 is Abandoned,
{
}

/// Of two termination requests on one scope, the first one decides the
/// outcome.
pub proof fn lemma_first_termination_wins<R, T>(m: ScopeModel<R, T>, a: R, b: R)
    requires
        m.termination is Unset,
    ensures
        poll_started(terminated_with(terminated_with(m, a), b)).1 == Directive::<R>::Done(
            PollOutcome::Terminated(a),
        ),
{
}

/// A task spawned while the poller is running another task joins the same
/// scope: it can finish and deliver its value like any other, or be
/// abandoned when the scope is cleared.
pub proof fn lemma_nested_spawn_admitted<R, T>(m: ScopeModel<R, T>, id: usize, v: T)
    requires
        id == m.entries.len(),
        m.termination is Unset,
        poll_started(m).1 == Directive::<R>::PollRegistry,
    ensures
        model_fits(spawned(poll_started(m).0), Report::Finished(id, v)),
        poll_reported(spawned(poll_started(m).0), Report::Finished(id, v)).1
            == Directive::<R>::PollRegistry,
        model_received(
            poll_reported(spawned(poll_started(m).0), Report::Finished(id, v)).0,
            id,
        ).1 == Received::Ready(v),
        model_received(model_cleared(spawned(poll_started(m).0)), id).1
            is Abandoned,
        !model_fits(spawned(poll_started(m).0), Report::Exhausted),
        forall|report: Report<T>|
            model_fits(spawned(poll_started(m).0), report) && !finishes(report, id) ==> (
            #[trigger] poll_reported(spawned(poll_started(m).0), report)).0.entries[id as int] is Open,
{
    assert(spawned(poll_started(m).0).entries[id as int] is Open);
}

/// After clearing, no task is pending, so no report of a finished task fits,
/// no value sent to a cleared channel lands, and every handle of a task that
/// was pending receives nothing. Without a termination request, the next poll
/// finds the registry empty and the scope quiescent.
pub proof fn lemma_clear_stops_tasks<R, T>(m: ScopeModel<R, T>)
    ensures
        !has_pending(model_cleared(m).entries),
        forall|id: usize, v: T| !model_fits(model_cleared(m), Report::Finished(id, v)),
        forall|i: int, v: T|
            0 <= i < m.entries.len() ==> #[trigger] model_cleared(m).entries[i].sent(v)
                == model_cleared(m).entries[i],
        forall|i: usize|
            i < m.entries.len() && m.entries[i as int].pending() ==> model_received(
                model_cleared(m),
                i,
            ).1 is Abandoned,
        m.termination is Unset ==> poll_started(model_cleared(m)).1 == Directive::<R>::PollRegistry,
        m.termination is Unset ==> forall|report: Report<T>|
            model_fits(model_cleared(m), report) ==> report is Exhausted && (
            #[trigger] poll_reported(model_cleared(m), report)).1 == Directive::<R>::Done(
                PollOutcome::Quiescent,
            ),
{
}

/// A scope whose registry is empty (a new one, or one just cleared) and that
/// has no termination request polls to `Quiescent`: the driver can only
/// report that no task is left.
pub proof fn lemma_empty_registry_quiescent<R, T>(m: ScopeModel<R, T>)
    requires
        m.termination is Unset,
        !has_pending(m.entries),
    ensures
        poll_started(m) == (m, Directive::<R>::PollRegistry),
        forall|report: Report<T>| #[trigger] model_fits(m, report) <==> report is Exhausted,
        poll_reported(m, Report::Exhausted) == (m, Directive::<R>::Done(PollOutcome::Quiescent)),
{
}

/// A poll ends `Pending` only while some task is still pending.
pub proof fn lemma_pending_means_work<R, T>(m: ScopeModel<R, T>, report: Report<T>)
    requires
        model_fits(m, report),
        poll_reported(m, report).1 == Directive::<R>::Done(PollOutcome::Pending),
    ensures
        has_pending(m.entries),
        has_pending(poll_reported(m, report).0.entries),
{
}

/// The task behind a handle from `terminate` never finishes: no report of
/// it finishing fits, no poll changes its slot, and its handle never receives
/// a value.
pub proof fn lemma_terminate_handle_never_resolves<R, T>(
    m: ScopeModel<R, T>,
    v: R,
    id: usize,
    report: Report<T>,
)
    requires
        id == m.entries.len(),
        !(m.termination is Delivered),
        model_fits(terminated_with(m, v), report),
    ensures
        forall|x: T| !#[trigger] model_fits(terminated_with(m, v), Report::Finished(id, x)),
        poll_started(terminated_with(m, v)).0.entries[id as int] is Never,
        poll_reported(terminated_with(m, v), report).0.entries[id as int] is Never,
        model_received(poll_reported(terminated_with(m, v), report).0, id).1 is Waiting,
        model_received(model_cleared(terminated_with(m, v)), id).1 is Abandoned,
{
}

} // verus!
