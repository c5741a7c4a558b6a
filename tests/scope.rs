use moro_local::{Directive, PollOutcome, Received, Report, Scope, Slot, TaskRegistry};

fn ready<T>(r: Received<T>) -> T {
    match r {
        Received::Ready(v) => v,
        Received::Waiting => panic!("handle is still waiting"),
        Received::Abandoned => panic!("handle was abandoned"),
    }
}

#[test]
fn three_tasks_sum_to_six() {
    let mut scope: Scope<&'static str, i32> = Scope::new();
    let h1 = scope.spawn();
    let h2 = scope.spawn();
    let h3 = scope.spawn();
    assert!(matches!(scope.poll_start(), Directive::PollRegistry));
    assert!(matches!(scope.poll_report(Report::Finished(0, 1)), Directive::PollRegistry));
    assert!(matches!(scope.poll_report(Report::Finished(1, 2)), Directive::PollRegistry));
    assert!(matches!(scope.poll_report(Report::Finished(2, 3)), Directive::PollRegistry));
    assert!(!scope.has_pending());
    assert!(matches!(
        scope.poll_report(Report::Exhausted),
        Directive::Done(PollOutcome::Quiescent)
    ));
    let sum = ready(scope.try_receive(&h1)) + ready(scope.try_receive(&h2)) + ready(scope.try_receive(&h3));
    assert_eq!(sum, 6);
}

#[test]
fn terminate_first_then_suspended_task_never_resolves() {
    let mut scope: Scope<&'static str, i32> = Scope::new();
    let a = scope.spawn();
    let b = scope.spawn();
    assert!(matches!(scope.poll_start(), Directive::PollRegistry));
    // Task A runs first and asks to terminate, then waits on the returned handle.
    let _never = scope.terminate("stopped");
    // B suspends once; the poller is told nothing finished, so this poll
    // is pending and the next one honours the termination.
    assert!(matches!(scope.poll_report(Report::Idle), Directive::Done(PollOutcome::Pending)));
    assert!(scope.is_terminating());
    match scope.poll_start() {
        Directive::Done(PollOutcome::Terminated(v)) => assert_eq!(v, "stopped"),
        _ => panic!("termination was not honoured"),
    }
    assert!(scope.is_finished());
    assert!(matches!(scope.try_receive(&b), Received::Waiting));
    scope.clear();
    assert!(matches!(scope.try_receive(&a), Received::Abandoned));
    assert!(matches!(scope.try_receive(&b), Received::Abandoned));
    assert!(!scope.accepts(&Report::Finished(1, 99)));
}

#[test]
fn handle_waits_until_its_task_finishes() {
    let mut scope: Scope<u8, u32> = Scope::new();
    let h = scope.spawn();
    assert!(matches!(scope.try_receive(&h), Received::Waiting));
    assert!(matches!(scope.poll_start(), Directive::PollRegistry));
    assert!(matches!(scope.try_receive(&h), Received::Waiting));
    assert!(matches!(scope.poll_report(Report::Finished(0, 41)), Directive::PollRegistry));
    assert_eq!(ready(scope.try_receive(&h)), 41);
    // The value is consumed once.
    assert!(matches!(scope.try_receive(&h), Received::Abandoned));
}

#[test]
fn tasks_finish_in_any_order() {
    let mut scope: Scope<u8, u32> = Scope::new();
    let hs = [scope.spawn(), scope.spawn(), scope.spawn(), scope.spawn()];
    assert!(matches!(scope.poll_start(), Directive::PollRegistry));
    for (id, v) in [(2usize, 20u32), (0, 0), (3, 30), (1, 10)] {
        assert!(scope.accepts(&Report::Finished(id, v)));
        assert!(matches!(scope.poll_report(Report::Finished(id, v)), Directive::PollRegistry));
    }
    assert!(scope.accepts(&Report::Exhausted));
    assert!(matches!(
        scope.poll_report(Report::Exhausted),
        Directive::Done(PollOutcome::Quiescent)
    ));
    for (k, h) in hs.iter().enumerate() {
        assert_eq!(ready(scope.try_receive(h)), 10 * k as u32);
    }
}

#[test]
fn termination_preempts_a_finished_task() {
    let mut scope: Scope<String, u32> = Scope::new();
    let a = scope.spawn();
    let b = scope.spawn();
    assert!(matches!(scope.poll_start(), Directive::PollRegistry));
    // Task A terminates and still finishes within the same poll.
    let _never = scope.terminate(String::from("done early"));
    match scope.poll_report(Report::Finished(0, 5)) {
        Directive::Done(PollOutcome::Terminated(v)) => assert_eq!(v, "done early"),
        _ => panic!("termination was not honoured"),
    }
    scope.clear();
    // The value that came after the request was dropped.
    assert!(matches!(scope.try_receive(&a), Received::Abandoned));
    assert!(matches!(scope.try_receive(&b), Received::Abandoned));
}

#[test]
fn termination_requested_from_the_body_wins_at_start() {
    let mut scope: Scope<i64, u32> = Scope::new();
    scope.spawn();
    scope.terminate(-1);
    match scope.poll_start() {
        Directive::Done(PollOutcome::Terminated(v)) => assert_eq!(v, -1),
        _ => panic!("termination was not honoured"),
    }
}

#[test]
fn first_termination_wins() {
    let mut scope: Scope<&'static str, ()> = Scope::new();
    scope.terminate("a");
    scope.terminate("b");
    match scope.poll_start() {
        Directive::Done(PollOutcome::Terminated(v)) => assert_eq!(v, "a"),
        _ => panic!("termination was not honoured"),
    }
    // Requests after delivery do not revive the slot.
    scope.terminate("c");
    assert!(scope.is_finished());
}

#[test]
fn task_spawned_by_a_task_joins_the_scope() {
    let mut scope: Scope<u8, u32> = Scope::new();
    let outer = scope.spawn();
    assert!(matches!(scope.poll_start(), Directive::PollRegistry));
    // While the outer task runs, it spawns an inner one and finishes.
    let inner = scope.spawn();
    assert!(matches!(scope.poll_report(Report::Finished(0, 1)), Directive::PollRegistry));
    assert!(scope.has_pending());
    assert!(!scope.accepts(&Report::Exhausted));
    assert!(matches!(scope.poll_report(Report::Finished(1, 2)), Directive::PollRegistry));
    assert!(matches!(
        scope.poll_report(Report::Exhausted),
        Directive::Done(PollOutcome::Quiescent)
    ));
    assert_eq!(ready(scope.try_receive(&outer)), 1);
    assert_eq!(ready(scope.try_receive(&inner)), 2);
}

#[test]
fn inner_task_is_abandoned_on_termination() {
    let mut scope: Scope<u8, u32> = Scope::new();
    scope.spawn();
    assert!(matches!(scope.poll_start(), Directive::PollRegistry));
    let inner = scope.spawn();
    scope.terminate(9);
    assert!(matches!(scope.poll_report(Report::Idle), Directive::Done(PollOutcome::Pending)));
    assert!(matches!(scope.poll_start(), Directive::Done(PollOutcome::Terminated(9))));
    scope.clear();
    assert!(matches!(scope.try_receive(&inner), Received::Abandoned));
}

#[test]
fn clear_stops_pending_tasks() {
    let mut scope: Scope<u8, u32> = Scope::new();
    let a = scope.spawn();
    let b = scope.spawn();
    assert!(matches!(scope.poll_report(Report::Finished(0, 3)), Directive::PollRegistry));
    scope.clear();
    assert!(!scope.has_pending());
    assert!(!scope.accepts(&Report::Finished(1, 4)));
    assert!(scope.accepts(&Report::Exhausted));
    // A value sent before clearing stays receivable.
    assert_eq!(ready(scope.try_receive(&a)), 3);
    assert!(matches!(scope.try_receive(&b), Received::Abandoned));
    // Clearing twice is harmless.
    scope.clear();
    assert!(!scope.has_pending());
}

#[test]
fn empty_scope_is_quiescent() {
    let mut scope: Scope<u8, u32> = Scope::new();
    assert!(!scope.has_pending());
    assert!(matches!(scope.poll_start(), Directive::PollRegistry));
    assert!(scope.accepts(&Report::Exhausted));
    assert!(matches!(
        scope.poll_report(Report::Exhausted),
        Directive::Done(PollOutcome::Quiescent)
    ));
    // Polling again after quiescence is allowed and picks up new work.
    let h = scope.spawn();
    assert!(!scope.accepts(&Report::Exhausted));
    assert!(matches!(scope.poll_start(), Directive::PollRegistry));
    assert!(matches!(scope.poll_report(Report::Idle), Directive::Done(PollOutcome::Pending)));
    assert!(matches!(scope.poll_report(Report::Finished(0, 8)), Directive::PollRegistry));
    assert_eq!(ready(scope.try_receive(&h)), 8);
}

#[test]
fn reports_for_unknown_tasks_do_not_fit() {
    let mut scope: Scope<u8, u32> = Scope::new();
    assert!(!scope.accepts(&Report::Finished(0, 1)));
    scope.spawn();
    assert!(scope.accepts(&Report::Finished(0, 1)));
    assert!(!scope.accepts(&Report::Finished(1, 1)));
    assert!(scope.accepts(&Report::Idle));
    scope.poll_report(Report::Finished(0, 1));
    assert!(!scope.accepts(&Report::Finished(0, 2)));
}

#[test]
fn slot_channel_states() {
    let open: Slot<u32> = Slot::Open;
    assert!(open.is_open());
    let filled = Slot::Open.send(5u32);
    assert!(matches!(filled, Slot::Filled(5)));
    // Best effort: a second send is ignored.
    let still = filled.send(6);
    assert!(matches!(still, Slot::Filled(5)));
    let (after, r) = still.receive();
    assert!(matches!(after, Slot::Taken));
    assert!(matches!(r, Received::Ready(5)));
    let dropped: Slot<u32> = Slot::Open.close();
    assert!(matches!(dropped, Slot::Dropped));
    assert!(matches!(dropped.send(1), Slot::Dropped));
    let (_, r) = Slot::<u32>::Open.receive();
    assert!(matches!(r, Received::Waiting));
    let (_, r) = Slot::<u32>::Dropped.receive();
    assert!(matches!(r, Received::Abandoned));
}

#[test]
fn registry_push_finish_clear() {
    let mut reg: TaskRegistry<u32> = TaskRegistry::new();
    assert!(!reg.has_pending());
    assert_eq!(reg.push(), 0);
    assert_eq!(reg.push(), 1);
    assert!(reg.has_pending());
    reg.finish(1, 11);
    assert!(matches!(reg.receive(1), Received::Ready(11)));
    assert!(matches!(reg.receive(0), Received::Waiting));
    assert!(matches!(reg.receive(7), Received::Abandoned));
    reg.apply(Report::Finished(0, 10));
    assert!(!reg.has_pending());
    assert!(reg.fits(&Report::Exhausted));
    reg.push();
    reg.clear();
    assert!(!reg.has_pending());
    assert!(matches!(reg.receive(2), Received::Abandoned));
}

#[test]
fn idle_does_not_fit_an_empty_registry() {
    let mut scope: Scope<u8, u32> = Scope::new();
    assert!(!scope.accepts(&Report::Idle));
    assert!(scope.accepts(&Report::Exhausted));
    scope.spawn();
    assert!(scope.accepts(&Report::Idle));
    scope.clear();
    assert!(!scope.accepts(&Report::Idle));
    assert!(matches!(scope.poll_start(), Directive::PollRegistry));
    assert!(matches!(
        scope.poll_report(Report::Exhausted),
        Directive::Done(PollOutcome::Quiescent)
    ));
}

#[test]
fn terminate_handle_never_finishes() {
    let mut scope: Scope<u8, u32> = Scope::new();
    let h = scope.terminate(1);
    assert_eq!(h.task_id(), 0);
    assert!(scope.has_pending());
    assert!(!scope.accepts(&Report::Finished(0, 5)));
    assert!(!scope.accepts(&Report::Exhausted));
    assert!(scope.accepts(&Report::Idle));
    assert!(matches!(scope.try_receive(&h), Received::Waiting));
    assert!(matches!(scope.poll_start(), Directive::Done(PollOutcome::Terminated(1))));
    assert!(matches!(scope.try_receive(&h), Received::Waiting));
    scope.clear();
    assert!(matches!(scope.try_receive(&h), Received::Abandoned));
}

#[test]
fn never_slot_states() {
    let never: Slot<u32> = Slot::Never;
    assert!(never.is_pending());
    assert!(!never.is_open());
    let (after, r) = Slot::<u32>::Never.receive();
    assert!(matches!(after, Slot::Never));
    assert!(matches!(r, Received::Waiting));
    assert!(matches!(Slot::<u32>::Never.send(3), Slot::Never));
    assert!(matches!(Slot::<u32>::Never.close(), Slot::Dropped));
    assert!(!Slot::<u32>::Taken.is_pending());
}

#[test]
fn nested_task_finishes_after_an_idle_step() {
    let mut scope: Scope<u8, u32> = Scope::new();
    let outer = scope.spawn();
    assert!(matches!(scope.poll_start(), Directive::PollRegistry));
    let inner = scope.spawn();
    assert!(matches!(scope.poll_report(Report::Idle), Directive::Done(PollOutcome::Pending)));
    assert!(matches!(scope.try_receive(&inner), Received::Waiting));
    assert!(matches!(scope.poll_start(), Directive::PollRegistry));
    assert!(matches!(scope.poll_report(Report::Finished(1, 7)), Directive::PollRegistry));
    assert!(!scope.accepts(&Report::Exhausted));
    assert!(matches!(scope.poll_report(Report::Finished(0, 6)), Directive::PollRegistry));
    assert!(matches!(
        scope.poll_report(Report::Exhausted),
        Directive::Done(PollOutcome::Quiescent)
    ));
    assert_eq!(ready(scope.try_receive(&inner)), 7);
    assert_eq!(ready(scope.try_receive(&outer)), 6);
}
