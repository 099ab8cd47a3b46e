//! The runner, which starts invocations, and the result that each of them
//! reports.

use crate::engine::{fixed_settings, EngineSettings, EngineSettingsView};
use crate::sandbox::{build_context, sandbox_for, SandboxContext};
use crate::supervisor::{initial, Invocation};
use vstd::prelude::*;

verus! {

/// Bytes the capture stream of an invocation accepts in one write.
pub const OUTPUT_CAPACITY: usize = 1024;

/// Two-valued outcome of a guest execution.
#[derive(Debug, Clone, Copy, PartialEq, Eq, Structural)]
pub enum PythonStatus {
    /// The guest's entry point returned.
    Success,
    /// The guest raised a fault, one of the capture stream included.
    Error,
}

/// What one invocation reports to its caller.
#[derive(Debug, PartialEq, Eq)]
pub struct PythonResponse {
    pub status: PythonStatus,
    /// Everything collected from the output channel, in the order it came.
    pub output: Option<String>,
}

/// A [`PythonResponse`] as plain values.
pub struct ResponseView {
    pub status: PythonStatus,
    pub output: Option<Seq<char>>,
}

impl View for PythonResponse {
    type V = ResponseView;

    open spec fn view(&self) -> ResponseView {
        ResponseView {
            status: self.status,
            output: match self.output {
                Some(text) => Some(text@),
                None => None,
            },
        }
    }
}

/// The settings shared by every invocation. One runner serves the whole
/// process; nothing of it changes once it is made.
pub struct PythonRunner {
    settings: EngineSettings,
    output_capacity: usize,
}

/// A [`PythonRunner`] as plain values.
pub struct RunnerView {
    pub settings: EngineSettingsView,
    pub output_capacity: nat,
}

impl View for PythonRunner {
    type V = RunnerView;

    closed spec fn view(&self) -> RunnerView {
        RunnerView { settings: self.settings@, output_capacity: self.output_capacity as nat }
    }
}

impl PythonRunner {
    #[verifier::type_invariant]
    spec fn capacity_allocatable(self) -> bool {
        self.output_capacity <= isize::MAX
    }

    /// The runner with the fixed engine settings and output capacity.
    pub fn new() -> (runner: Self)
        ensures
            runner@ == (RunnerView {
                settings: fixed_settings(),
                output_capacity: OUTPUT_CAPACITY as nat,
            }),
    {
        PythonRunner { settings: EngineSettings::new(), output_capacity: OUTPUT_CAPACITY }
    }

    /// What the engine is to be built with.
    pub fn settings(&self) -> (settings: &EngineSettings)
        ensures
            settings@ == self@.settings,
    {
        &self.settings
    }

    /// Bytes the capture stream of an invocation accepts in one write.
    pub fn output_capacity(&self) -> (capacity: usize)
        ensures
            capacity == self@.output_capacity,
    {
        self.output_capacity
    }

    /// Starts one invocation: builds its sandbox context and the supervisor
    /// that sees it through, which waits for the context to be put in place.
    pub fn run_code(&self, code: &str, csv: &str, print_guest_output: bool, id: u128) -> (started:
        (SandboxContext, Invocation))
        ensures
            started.0@ == sandbox_for(code@, csv@, print_guest_output, id, self@.output_capacity),
            started.1@ == initial(),
    {
        proof {
            use_type_invariant(self);
        }
        let context = build_context(code, csv, print_guest_output, id, self.output_capacity);
        (context, Invocation::new())
    }
}

} // verus!
