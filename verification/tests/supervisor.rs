use runner::runner::{PythonResponse, PythonStatus};
use runner::supervisor::{Action, Event, Invocation, Phase, DRAIN_TIMEOUT_MS};

fn pull() -> Action {
    Action::Pull { timeout_ms: 10 }
}

fn running() -> Invocation {
    let mut invocation = Invocation::new();
    assert_eq!(invocation.step(Event::ContextBuilt), Action::Instantiate);
    assert_eq!(invocation.step(Event::Instantiated), Action::ResolveEntry(String::from("_start")));
    assert_eq!(invocation.step(Event::EntryResolved), Action::CallEntry);
    invocation
}

#[test]
fn drain_timeout_is_ten_milliseconds() {
    assert_eq!(DRAIN_TIMEOUT_MS, 10);
}

#[test]
fn new_supervisor_waits_for_its_context() {
    let invocation = Invocation::new();
    assert_eq!(invocation.phase(), Phase::Created);
    assert_eq!(invocation.output(), "");
}

#[test]
fn phases_follow_one_another() {
    let mut invocation = Invocation::new();
    invocation.step(Event::ContextBuilt);
    assert_eq!(invocation.phase(), Phase::ContextBuilt);
    invocation.step(Event::Instantiated);
    assert_eq!(invocation.phase(), Phase::Instantiated);
    invocation.step(Event::EntryResolved);
    assert_eq!(invocation.phase(), Phase::Running);
    invocation.step(Event::GuestReturned);
    assert_eq!(invocation.phase(), Phase::Completed);
    invocation.step(Event::Chunk(String::from("x")));
    assert_eq!(invocation.phase(), Phase::Completed);
    invocation.step(Event::Idle);
    assert_eq!(invocation.phase(), Phase::Drained(PythonStatus::Success));
    assert_eq!(invocation.step(Event::Delivered), Action::Finish);
    assert_eq!(invocation.phase(), Phase::Reported(PythonStatus::Success));
    assert_eq!(invocation.output(), "x");
}

#[test]
fn returned_guest_is_reported_with_all_its_output() {
    let mut invocation = running();
    assert_eq!(invocation.step(Event::GuestReturned), pull());
    assert_eq!(invocation.step(Event::Chunk(String::from("sum:"))), pull());
    assert_eq!(invocation.step(Event::Chunk(String::from(" "))), pull());
    assert_eq!(invocation.step(Event::Chunk(String::from("2\n"))), pull());
    assert_eq!(
        invocation.step(Event::Idle),
        Action::Report(PythonResponse {
            status: PythonStatus::Success,
            output: Some(String::from("sum: 2\n")),
        })
    );
}

#[test]
fn trapped_guest_is_reported_with_what_came_before_the_fault() {
    let mut invocation = running();
    assert_eq!(invocation.step(Event::GuestTrapped), pull());
    assert_eq!(invocation.phase(), Phase::Faulted);
    assert_eq!(invocation.step(Event::Chunk(String::from("partial"))), pull());
    assert_eq!(
        invocation.step(Event::Idle),
        Action::Report(PythonResponse {
            status: PythonStatus::Error,
            output: Some(String::from("partial")),
        })
    );
    assert_eq!(invocation.phase(), Phase::Drained(PythonStatus::Error));
    invocation.step(Event::Delivered);
    assert_eq!(invocation.phase(), Phase::Reported(PythonStatus::Error));
}

#[test]
fn guest_without_output_is_reported_with_empty_output() {
    let mut invocation = running();
    invocation.step(Event::GuestReturned);
    assert_eq!(
        invocation.step(Event::Idle),
        Action::Report(PythonResponse {
            status: PythonStatus::Success,
            output: Some(String::new()),
        })
    );
}

#[test]
fn closed_channel_ends_the_drain_as_a_timeout_does() {
    let mut invocation = running();
    invocation.step(Event::GuestReturned);
    invocation.step(Event::Chunk(String::from("a")));
    assert_eq!(
        invocation.step(Event::Closed),
        Action::Report(PythonResponse {
            status: PythonStatus::Success,
            output: Some(String::from("a")),
        })
    );
}

#[test]
fn drain_that_ends_early_leaves_later_chunks_out() {
    let mut invocation = running();
    invocation.step(Event::GuestReturned);
    invocation.step(Event::Chunk(String::from("a")));
    invocation.step(Event::Idle);
    assert_eq!(invocation.step(Event::Chunk(String::from("late"))), Action::Rejected);
    assert_eq!(invocation.output(), "a");
}

#[test]
fn setup_failure_aborts_before_the_guest_runs() {
    for steps in 0..3 {
        let mut invocation = Invocation::new();
        let events = [Event::ContextBuilt, Event::Instantiated];
        for event in events.into_iter().take(steps) {
            invocation.step(event);
        }
        assert_eq!(invocation.step(Event::SetupFailed), Action::Abort);
        assert_eq!(invocation.phase(), Phase::SetupFailed);
        assert_eq!(invocation.step(Event::ContextBuilt), Action::Rejected);
        assert_eq!(invocation.step(Event::Idle), Action::Rejected);
        assert_eq!(invocation.phase(), Phase::SetupFailed);
    }
}

#[test]
fn setup_failure_is_not_taken_once_the_guest_runs() {
    let mut invocation = running();
    assert_eq!(invocation.step(Event::SetupFailed), Action::Rejected);
    assert_eq!(invocation.phase(), Phase::Running);
}

#[test]
fn events_out_of_turn_change_nothing() {
    let all = || {
        vec![
            Event::ContextBuilt,
            Event::Instantiated,
            Event::EntryResolved,
            Event::GuestReturned,
            Event::GuestTrapped,
            Event::Chunk(String::from("x")),
            Event::Idle,
            Event::Closed,
            Event::Delivered,
            Event::SetupFailed,
        ]
    };
    let mut created = Invocation::new();
    for event in all() {
        if event != Event::ContextBuilt && event != Event::SetupFailed {
            assert_eq!(created.step(event), Action::Rejected);
            assert_eq!(created.phase(), Phase::Created);
            assert_eq!(created.output(), "");
        }
    }
    let mut at_work = running();
    for event in all() {
        if event != Event::GuestReturned && event != Event::GuestTrapped {
            assert_eq!(at_work.step(event), Action::Rejected);
            assert_eq!(at_work.phase(), Phase::Running);
            assert_eq!(at_work.output(), "");
        }
    }
    let mut reported = running();
    reported.step(Event::GuestReturned);
    reported.step(Event::Idle);
    reported.step(Event::Delivered);
    for event in all() {
        assert_eq!(reported.step(event), Action::Rejected);
        assert_eq!(reported.phase(), Phase::Reported(PythonStatus::Success));
    }
}

#[test]
fn output_is_not_collected_while_the_guest_runs() {
    let mut invocation = running();
    assert_eq!(invocation.step(Event::Chunk(String::from("x"))), Action::Rejected);
    assert_eq!(invocation.output(), "");
}
