//! Settings of the sandbox engine, fixed once at start-up and shared by every
//! invocation.

use vstd::prelude::*;

verus! {

/// Bytes of call stack a guest may use: 16 MiB.
pub const GUEST_STACK_BYTES: usize = 16777216;

/// What the engine is built with.
#[derive(Debug, PartialEq, Eq)]
pub struct EngineSettings {
    /// Guest calls are driven cooperatively, not on a thread of their own.
    pub async_support: bool,
    /// The most call stack a guest may use, in bytes.
    pub max_wasm_stack: usize,
    /// The stack set aside for each suspended guest call, in bytes.
    pub async_stack_size: usize,
    /// Where the compiled guest program lies on disk.
    pub program_path: String,
}

/// [`EngineSettings`] as plain values.
pub struct EngineSettingsView {
    pub async_support: bool,
    pub max_wasm_stack: nat,
    pub async_stack_size: nat,
    pub program_path: Seq<char>,
}

impl View for EngineSettings {
    type V = EngineSettingsView;

    open spec fn view(&self) -> EngineSettingsView {
        EngineSettingsView {
            async_support: self.async_support,
            max_wasm_stack: self.max_wasm_stack as nat,
            async_stack_size: self.async_stack_size as nat,
            program_path: self.program_path@,
        }
    }
}

/// The settings every engine is built with: asynchronous execution, and a
/// guest stack limit with a reserved stack of the same size.
pub open spec fn fixed_settings() -> EngineSettingsView {
    EngineSettingsView {
        async_support: true,
        max_wasm_stack: GUEST_STACK_BYTES as nat,
        async_stack_size: GUEST_STACK_BYTES as nat,
        program_path: "python-wasm/python.wasm"@,
    }
}

impl EngineSettings {
    /// The settings every engine is built with.
    pub fn new() -> (settings: Self)
        ensures
            settings@ == fixed_settings(),
    {
        EngineSettings {
            async_support: true,
            max_wasm_stack: GUEST_STACK_BYTES,
            async_stack_size: GUEST_STACK_BYTES,
            program_path: "python-wasm/python.wasm".to_owned(),
        }
    }
}

} // verus!
