//! The sandbox factory: what one invocation's isolated execution context is
//! made of.

use crate::escape::{
    lemma_source_without_placeholder, occurs, placeholder, substitute_csv, substituted,
};
use crate::memory_pipe::{MemoryOutputPipe, PipeView};
use vstd::prelude::*;

verus! {

/// A host directory shown to the guest.
#[derive(Debug, PartialEq, Eq)]
pub struct Mount {
    /// The directory on the host.
    pub host_dir: String,
    /// Where the guest finds it.
    pub guest_dir: String,
    /// Whether the guest may change the directory.
    pub dir_writable: bool,
    /// Whether the guest may change the files in it.
    pub file_writable: bool,
}

/// A [`Mount`] as plain values.
pub struct MountView {
    pub host_dir: Seq<char>,
    pub guest_dir: Seq<char>,
    pub dir_writable: bool,
    pub file_writable: bool,
}

impl View for Mount {
    type V = MountView;

    open spec fn view(&self) -> MountView {
        MountView {
            host_dir: self.host_dir@,
            guest_dir: self.guest_dir@,
            dir_writable: self.dir_writable,
            file_writable: self.file_writable,
        }
    }
}

/// Everything a guest sees of the world during one invocation.
#[derive(Debug)]
pub struct SandboxContext {
    /// Where both the standard output and the standard error go.
    pub capture: MemoryOutputPipe,
    /// The whole environment of the guest, name and value.
    pub env: Vec<(String, String)>,
    /// The argument vector of the guest.
    pub args: Vec<String>,
    /// The one directory the guest can read.
    pub mount: Mount,
}

/// A [`SandboxContext`] as plain values.
pub struct SandboxView {
    pub capture: PipeView,
    pub env: Seq<(Seq<char>, Seq<char>)>,
    pub args: Seq<Seq<char>>,
    pub mount: MountView,
}

impl View for SandboxContext {
    type V = SandboxView;

    open spec fn view(&self) -> SandboxView {
        SandboxView {
            capture: self.capture@,
            env: Seq::new(self.env@.len(), |i: int| (self.env@[i].0@, self.env@[i].1@)),
            args: Seq::new(self.args@.len(), |i: int| self.args@[i]@),
            mount: self.mount@,
        }
    }
}

/// The context of an invocation: an empty capture stream of the given
/// capacity for both output streams, the one variable that keeps the
/// interpreter from buffering its output, the interpreter called with the
/// substituted source as inline code, and the guest's directory mounted
/// read-only.
pub open spec fn sandbox_for(
    code: Seq<char>,
    csv: Seq<char>,
    print_guest_output: bool,
    id: u128,
    capacity: nat,
) -> SandboxView {
    SandboxView {
        capture: PipeView { capacity, buffer: Seq::empty(), id, print_guest_output },
        env: seq![("PYTHONUNBUFFERED"@, "1"@)],
        args: seq!["python"@, "-c"@, substituted(code, csv)],
        mount: MountView {
            host_dir: "python-wasm"@,
            guest_dir: "."@,
            dir_writable: false,
            file_writable: false,
        },
    }
}

/// Builds the isolated execution context of one invocation.
pub fn build_context(
    code: &str,
    csv: &str,
    print_guest_output: bool,
    id: u128,
    capacity: usize,
) -> (context: SandboxContext)
    requires
        capacity <= isize::MAX,
    ensures
        context@ == sandbox_for(code@, csv@, print_guest_output, id, capacity as nat),
{
    let capture = MemoryOutputPipe::new(capacity, print_guest_output, id);
    let mut env: Vec<(String, String)> = Vec::new();
    env.push(("PYTHONUNBUFFERED".to_owned(), "1".to_owned()));
    let mut args: Vec<String> = Vec::new();
    args.push("python".to_owned());
    args.push("-c".to_owned());
    args.push(substitute_csv(code, csv));
    let mount = Mount {
        host_dir: "python-wasm".to_owned(),
        guest_dir: ".".to_owned(),
        dir_writable: false,
        file_writable: false,
    };
    let context = SandboxContext { capture, env, args, mount };
    assert(context@.env =~= sandbox_for(
        code@,
        csv@,
        print_guest_output,
        id,
        capacity as nat,
    ).env);
    assert(context@.args =~= sandbox_for(
        code@,
        csv@,
        print_guest_output,
        id,
        capacity as nat,
    ).args);
    context
}

/// Law: where the source code holds no placeholder, the program text handed
/// to the interpreter is the source code as it stands. Nothing of the input
/// data is in the guest's arguments, whatever the data is.
pub proof fn lemma_context_without_placeholder(
    code: Seq<char>,
    csv: Seq<char>,
    print_guest_output: bool,
    id: u128,
    capacity: nat,
)
    requires
        !occurs(code, placeholder()),
    ensures
        sandbox_for(code, csv, print_guest_output, id, capacity).args == seq![
            "python"@,
            "-c"@,
            code,
        ],
{
    lemma_source_without_placeholder(code, csv);
}

} // verus!
