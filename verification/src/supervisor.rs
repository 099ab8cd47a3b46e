//! The execution supervisor: the decisions that see one invocation through,
//! from its sandbox context to the reported result.
//!
//! The supervisor does none of the outside work itself. It is told what has
//! happened and answers with what is to be done next; whoever drives it
//! instantiates the guest, runs it and pulls from the output channel.

use crate::runner::{PythonResponse, PythonStatus, ResponseView};
use vstd::prelude::*;
use vstd::string::StringExecFns;

verus! {

/// Milliseconds one pull from the output channel may wait for a message.
pub const DRAIN_TIMEOUT_MS: u64 = 10;

/// The name of the guest's entry point.
pub open spec fn entry_point() -> Seq<char> {
    "_start"@
}

/// Where an invocation stands.
#[derive(Debug, Clone, Copy, PartialEq, Eq, Structural)]
pub enum Phase {
    /// The request has been taken; its context is not in place yet.
    Created,
    /// The sandbox context is in place.
    ContextBuilt,
    /// A fresh store and instance are bound to the context.
    Instantiated,
    /// The guest's entry point is being called: the guest runs.
    Running,
    /// The entry point returned; its output is being collected.
    Completed,
    /// The entry point raised a fault; its output is being collected.
    Faulted,
    /// The output channel has run dry or was closed.
    Drained(PythonStatus),
    /// The result has been handed to the caller.
    Reported(PythonStatus),
    /// Setting up the sandbox failed: there is no guest outcome to report.
    SetupFailed,
}

/// What the driver tells the supervisor.
#[derive(Debug, PartialEq, Eq)]
pub enum Event {
    /// The sandbox context has been put in place.
    ContextBuilt,
    /// Store and instance have been made.
    Instantiated,
    /// The entry point was found in the instance.
    EntryResolved,
    /// The call of the entry point returned.
    GuestReturned,
    /// The call of the entry point ended in a fault.
    GuestTrapped,
    /// A pull brought this message.
    Chunk(String),
    /// A pull ran into its timeout.
    Idle,
    /// A pull found the channel closed.
    Closed,
    /// The caller has the result.
    Delivered,
    /// The step that was asked for could not be done.
    SetupFailed,
}

/// An [`Event`] as plain values.
pub enum EventView {
    ContextBuilt,
    Instantiated,
    EntryResolved,
    GuestReturned,
    GuestTrapped,
    Chunk(Seq<char>),
    Idle,
    Closed,
    Delivered,
    SetupFailed,
}

impl View for Event {
    type V = EventView;

    open spec fn view(&self) -> EventView {
        match self {
            Event::ContextBuilt => EventView::ContextBuilt,
            Event::Instantiated => EventView::Instantiated,
            Event::EntryResolved => EventView::EntryResolved,
            Event::GuestReturned => EventView::GuestReturned,
            Event::GuestTrapped => EventView::GuestTrapped,
            Event::Chunk(text) => EventView::Chunk(text@),
            Event::Idle => EventView::Idle,
            Event::Closed => EventView::Closed,
            Event::Delivered => EventView::Delivered,
            Event::SetupFailed => EventView::SetupFailed,
        }
    }
}

/// What the supervisor asks of the driver.
#[derive(Debug, PartialEq, Eq)]
pub enum Action {
    /// Make a fresh store and instance for the context.
    Instantiate,
    /// Look up the entry point of this name.
    ResolveEntry(String),
    /// Call the entry point and wait for it.
    CallEntry,
    /// Pull one message from the output channel, waiting no longer than this.
    Pull { timeout_ms: u64 },
    /// Hand this result to the caller.
    Report(PythonResponse),
    /// Nothing is left to do.
    Finish,
    /// Give up the invocation with the setup error at hand.
    Abort,
    /// The event does not belong where the invocation stands; nothing changed.
    Rejected,
}

/// An [`Action`] as plain values.
pub enum ActionView {
    Instantiate,
    ResolveEntry(Seq<char>),
    CallEntry,
    Pull { timeout_ms: u64 },
    Report(ResponseView),
    Finish,
    Abort,
    Rejected,
}

impl View for Action {
    type V = ActionView;

    open spec fn view(&self) -> ActionView {
        match self {
            Action::Instantiate => ActionView::Instantiate,
            Action::ResolveEntry(name) => ActionView::ResolveEntry(name@),
            Action::CallEntry => ActionView::CallEntry,
            Action::Pull { timeout_ms } => ActionView::Pull { timeout_ms: *timeout_ms },
            Action::Report(response) => ActionView::Report(response@),
            Action::Finish => ActionView::Finish,
            Action::Abort => ActionView::Abort,
            Action::Rejected => ActionView::Rejected,
        }
    }
}

/// What a supervisor knows: where the invocation stands and the output
/// collected so far.
pub struct InvocationView {
    pub phase: Phase,
    pub output: Seq<char>,
}

/// The supervisor of an invocation that has just been taken.
pub open spec fn initial() -> InvocationView {
    InvocationView { phase: Phase::Created, output: Seq::empty() }
}

/// The status that stands for the way the guest ended.
pub open spec fn status_of(faulted: bool) -> PythonStatus {
    if faulted {
        PythonStatus::Error
    } else {
        PythonStatus::Success
    }
}

impl InvocationView {
    /// The same supervisor in another phase.
    pub open spec fn at(self, phase: Phase) -> InvocationView {
        InvocationView { phase, ..self }
    }

    /// Whether the supervisor takes `event` where it stands.
    pub open spec fn admits(self, event: EventView) -> bool {
        match (self.phase, event) {
            (Phase::Created, EventView::ContextBuilt) => true,
            (Phase::ContextBuilt, EventView::Instantiated) => true,
            (Phase::Instantiated, EventView::EntryResolved) => true,
            (Phase::Created, EventView::SetupFailed) => true,
            (Phase::ContextBuilt, EventView::SetupFailed) => true,
            (Phase::Instantiated, EventView::SetupFailed) => true,
            (Phase::Running, EventView::GuestReturned) => true,
            (Phase::Running, EventView::GuestTrapped) => true,
            (Phase::Completed, EventView::Chunk(_)) => true,
            (Phase::Completed, EventView::Idle) => true,
            (Phase::Completed, EventView::Closed) => true,
            (Phase::Faulted, EventView::Chunk(_)) => true,
            (Phase::Faulted, EventView::Idle) => true,
            (Phase::Faulted, EventView::Closed) => true,
            (Phase::Drained(_), EventView::Delivered) => true,
            _ => false,
        }
    }

    /// The supervisor after `event`. An event that is not admitted changes
    /// nothing.
    pub open spec fn next(self, event: EventView) -> InvocationView {
        if !self.admits(event) {
            self
        } else {
            match event {
                EventView::ContextBuilt => self.at(Phase::ContextBuilt),
                EventView::Instantiated => self.at(Phase::Instantiated),
                EventView::EntryResolved => self.at(Phase::Running),
                EventView::GuestReturned => self.at(Phase::Completed),
                EventView::GuestTrapped => self.at(Phase::Faulted),
                EventView::Chunk(text) => InvocationView { output: self.output + text, ..self },
                EventView::Idle => self.at(Phase::Drained(status_of(self.phase == Phase::Faulted))),
                EventView::Closed => self.at(
                    Phase::Drained(status_of(self.phase == Phase::Faulted)),
                ),
                EventView::Delivered => match self.phase {
                    Phase::Drained(status) => self.at(Phase::Reported(status)),
                    _ => self,
                },
                EventView::SetupFailed => self.at(Phase::SetupFailed),
            }
        }
    }

    /// What the supervisor asks for in answer to `event`.
    pub open spec fn answer(self, event: EventView) -> ActionView {
        if !self.admits(event) {
            ActionView::Rejected
        } else {
            match event {
                EventView::ContextBuilt => ActionView::Instantiate,
                EventView::Instantiated => ActionView::ResolveEntry(entry_point()),
                EventView::EntryResolved => ActionView::CallEntry,
                EventView::GuestReturned => ActionView::Pull { timeout_ms: DRAIN_TIMEOUT_MS },
                EventView::GuestTrapped => ActionView::Pull { timeout_ms: DRAIN_TIMEOUT_MS },
                EventView::Chunk(_) => ActionView::Pull { timeout_ms: DRAIN_TIMEOUT_MS },
                EventView::Idle => ActionView::Report(self.report()),
                EventView::Closed => ActionView::Report(self.report()),
                EventView::Delivered => ActionView::Finish,
                EventView::SetupFailed => ActionView::Abort,
            }
        }
    }

    /// The result that is reported when the drain ends where the supervisor
    /// stands.
    pub open spec fn report(self) -> ResponseView {
        ResponseView {
            status: status_of(self.phase == Phase::Faulted),
            output: Some(self.output),
        }
    }
}

/// The supervisor of one invocation.
#[derive(Debug)]
pub struct Invocation {
    phase: Phase,
    output: String,
}

impl View for Invocation {
    type V = InvocationView;

    closed spec fn view(&self) -> InvocationView {
        InvocationView { phase: self.phase, output: self.output@ }
    }
}

impl Invocation {
    /// The supervisor of an invocation that has just been taken.
    pub fn new() -> (invocation: Self)
        ensures
            invocation@ == initial(),
    {
        Invocation { phase: Phase::Created, output: String::new() }
    }

    /// Where the invocation stands.
    pub fn phase(&self) -> (phase: Phase)
        ensures
            phase == self@.phase,
    {
        self.phase
    }

    /// The output collected so far.
    pub fn output(&self) -> (output: &str)
        ensures
            output@ == self@.output,
    {
        self.output.as_str()
    }

    /// Takes note of what has happened and says what is to be done next.
    pub fn step(&mut self, event: Event) -> (action: Action)
        ensures
            final(self)@ == old(self)@.next(event@),
            action@ == old(self)@.answer(event@),
    {
        match (self.phase, event) {
            (Phase::Created, Event::ContextBuilt) => {
                self.phase = Phase::ContextBuilt;
                Action::Instantiate
            },
            (Phase::ContextBuilt, Event::Instantiated) => {
                self.phase = Phase::Instantiated;
                Action::ResolveEntry("_start".to_owned())
            },
            (Phase::Instantiated, Event::EntryResolved) => {
                self.phase = Phase::Running;
                Action::CallEntry
            },
            (Phase::Created, Event::SetupFailed)
            | (Phase::ContextBuilt, Event::SetupFailed)
            | (Phase::Instantiated, Event::SetupFailed) => {
                self.phase = Phase::SetupFailed;
                Action::Abort
            },
            (Phase::Running, Event::GuestReturned) => {
                self.phase = Phase::Completed;
                Action::Pull { timeout_ms: DRAIN_TIMEOUT_MS }
            },
            (Phase::Running, Event::GuestTrapped) => {
                self.phase = Phase::Faulted;
                Action::Pull { timeout_ms: DRAIN_TIMEOUT_MS }
            },
            (Phase::Completed, Event::Chunk(text)) | (Phase::Faulted, Event::Chunk(text)) => {
                self.output.append(text.as_str());
                Action::Pull { timeout_ms: DRAIN_TIMEOUT_MS }
            },
            (Phase::Completed, Event::Idle) | (Phase::Completed, Event::Closed) => {
                self.phase = Phase::Drained(PythonStatus::Success);
                Action::Report(
                    PythonResponse {
                        status: PythonStatus::Success,
                        output: Some(self.output.clone()),
                    },
                )
            },
            (Phase::Faulted, Event::Idle) | (Phase::Faulted, Event::Closed) => {
                self.phase = Phase::Drained(PythonStatus::Error);
                Action::Report(
                    PythonResponse {
                        status: PythonStatus::Error,
                        output: Some(self.output.clone()),
                    },
                )
            },
            (Phase::Drained(status), Event::Delivered) => {
                self.phase = Phase::Reported(status);
                Action::Finish
            },
            _ => Action::Rejected,
        }
    }
}

/// How far an invocation has come.
pub open spec fn progress(phase: Phase) -> nat {
    match phase {
        Phase::Created => 0,
        Phase::ContextBuilt => 1,
        Phase::Instantiated => 2,
        Phase::Running => 3,
        Phase::Completed => 4,
        Phase::Faulted => 4,
        Phase::Drained(_) => 5,
        Phase::Reported(_) => 6,
        Phase::SetupFailed => 6,
    }
}

/// Law: an invocation only moves forward. Every event that is admitted takes
/// it to a later phase, but for a pulled message, which is appended to the
/// output collected so far; an event that is not admitted changes nothing.
/// The status that is reported is the one the guest ended with.
pub proof fn lemma_invocation_moves_forward(before: InvocationView, event: EventView)
    ensures
        !before.admits(event) ==> before.next(event) == before,
        before.admits(event) ==> (match event {
            EventView::Chunk(text) => before.next(event) == (InvocationView {
                output: before.output + text,
                ..before
            }),
            _ => progress(before.next(event).phase) > progress(before.phase) && before.next(
                event,
            ).output == before.output,
        }),
        before.next(event).phase matches Phase::Drained(status) ==> before.phase == Phase::Drained(
            status,
        ) || status == status_of(before.phase == Phase::Faulted),
        before.next(event).phase matches Phase::Reported(status) ==> before.phase
            == Phase::Reported(status) || before.phase == Phase::Drained(status),
{
}

} // verus!
