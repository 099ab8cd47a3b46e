//! The capture stream: a bounded sink for what a guest writes to its standard
//! output and standard error.
//!
//! Every write is held against a fixed capacity, decoded, handed out as one
//! chunk of text and dropped from the buffer again, so the buffer limits how
//! much may be written at once and not how much an execution may write.

use crate::buffer::{buffer_bytes, frozen_bytes};
use crate::ident::{hyphenated, hyphenated_text};
use bytes::{Bytes, BytesMut};
use vstd::prelude::*;
use vstd::slice::slice_to_vec;
use vstd::string::StringExecFns;
use vstd::utf8::{decode_utf8, valid_utf8};

verus! {

/// Why the stream refused an operation.
#[derive(Debug, Clone, Copy, PartialEq, Eq, Structural)]
pub enum StreamFault {
    /// A single write asked for more room than the buffer had left.
    BeyondCapacity,
    /// The buffer is at capacity: no byte will be accepted any more.
    Closed,
    /// The bytes held are not well-formed UTF-8.
    Undecodable,
}

impl StreamFault {
    /// The fault in words, as it is reported to the guest.
    pub fn message(&self) -> (text: String)
        ensures
            text@ == (match *self {
                StreamFault::BeyondCapacity => "write beyond capacity of MemoryOutputPipe"@,
                StreamFault::Closed => "stream is closed"@,
                StreamFault::Undecodable => "captured bytes are not valid text"@,
            }),
    {
        match self {
            StreamFault::BeyondCapacity => "write beyond capacity of MemoryOutputPipe".to_owned(),
            StreamFault::Closed => "stream is closed".to_owned(),
            StreamFault::Undecodable => "captured bytes are not valid text".to_owned(),
        }
    }
}

/// One chunk of decoded output, ready to be handed on.
#[derive(Debug, PartialEq, Eq)]
pub struct Emission {
    /// The text for the output channel.
    pub text: String,
    /// The line for the host's console, where echoing is switched on.
    pub echo: Option<String>,
}

/// An [`Emission`] as plain text.
pub struct EmissionView {
    pub text: Seq<char>,
    pub echo: Option<Seq<char>>,
}

impl View for Emission {
    type V = EmissionView;

    open spec fn view(&self) -> EmissionView {
        EmissionView {
            text: self.text@,
            echo: match self.echo {
                Some(line) => Some(line@),
                None => None,
            },
        }
    }
}

/// The console line for a chunk of output of the invocation `id`.
pub open spec fn echo_line(id: u128, text: Seq<char>) -> Seq<char> {
    "\x1b[32mpython "@ + hyphenated_text(id) + ":\x1b[0m "@ + text
}

/// What a capture stream is: its limit, the bytes it holds, and how it tags
/// and echoes its output.
pub struct PipeView {
    pub capacity: nat,
    pub buffer: Seq<u8>,
    pub id: u128,
    pub print_guest_output: bool,
}

impl PipeView {
    /// The buffer never holds more than the capacity.
    pub open spec fn wf(self) -> bool {
        self.buffer.len() <= self.capacity
    }

    /// The stream with other bytes in its buffer.
    pub open spec fn holding(self, buffer: Seq<u8>) -> PipeView {
        PipeView { buffer, ..self }
    }

    /// The chunk handed out for decoded `text`.
    pub open spec fn emission(self, text: Seq<char>) -> EmissionView {
        EmissionView {
            text,
            echo: if self.print_guest_output {
                Some(echo_line(self.id, text))
            } else {
                None
            },
        }
    }

    /// The stream after an attempt to hand out what it holds: emptied where
    /// the bytes decode, untouched where they do not.
    pub open spec fn after_publish(self) -> PipeView {
        if valid_utf8(self.buffer) {
            self.holding(Seq::empty())
        } else {
            self
        }
    }

    /// What an attempt to hand out the buffer's bytes gives.
    pub open spec fn publish_result(self) -> Result<EmissionView, StreamFault> {
        if valid_utf8(self.buffer) {
            Ok(self.emission(decode_utf8(self.buffer)))
        } else {
            Err(StreamFault::Undecodable)
        }
    }

    /// Whether a write of `chunk` is within what the buffer has left.
    pub open spec fn accepts(self, chunk: Seq<u8>) -> bool {
        chunk.len() <= self.capacity - self.buffer.len()
    }

    /// The stream after a write of `chunk`.
    pub open spec fn after_write(self, chunk: Seq<u8>) -> PipeView {
        if self.accepts(chunk) {
            self.holding(self.buffer + chunk).after_publish()
        } else {
            self
        }
    }

    /// What a write of `chunk` gives.
    pub open spec fn write_result(self, chunk: Seq<u8>) -> Result<EmissionView, StreamFault> {
        if self.accepts(chunk) {
            self.holding(self.buffer + chunk).publish_result()
        } else {
            Err(StreamFault::BeyondCapacity)
        }
    }

    /// The stream after a flush.
    pub open spec fn after_flush(self) -> PipeView {
        if self.buffer.len() == 0 {
            self
        } else {
            self.after_publish()
        }
    }

    /// What a flush gives: nothing where the buffer is empty.
    pub open spec fn flush_result(self) -> Result<Option<EmissionView>, StreamFault> {
        if self.buffer.len() == 0 {
            Ok(None)
        } else {
            match self.publish_result() {
                Ok(chunk) => Ok(Some(chunk)),
                Err(fault) => Err(fault),
            }
        }
    }

    /// How many bytes a write may bring, or that the stream is closed.
    pub open spec fn check_write_result(self) -> Result<int, StreamFault> {
        if self.buffer.len() < self.capacity {
            Ok(self.capacity - self.buffer.len())
        } else {
            Err(StreamFault::Closed)
        }
    }
}

/// The result of a write as plain text.
pub open spec fn written(r: Result<Emission, StreamFault>) -> Result<EmissionView, StreamFault> {
    match r {
        Ok(chunk) => Ok(chunk@),
        Err(fault) => Err(fault),
    }
}

/// The result of a flush as plain text.
pub open spec fn flushed(r: Result<Option<Emission>, StreamFault>) -> Result<
    Option<EmissionView>,
    StreamFault,
> {
    match r {
        Ok(Some(chunk)) => Ok(Some(chunk@)),
        Ok(None) => Ok(None),
        Err(fault) => Err(fault),
    }
}

/// The result of a readiness check as a plain number.
pub open spec fn permitted(r: Result<usize, StreamFault>) -> Result<int, StreamFault> {
    match r {
        Ok(room) => Ok(room as int),
        Err(fault) => Err(fault),
    }
}

/// A bounded in-memory sink for the output of one invocation.
#[derive(Debug)]
pub struct MemoryOutputPipe {
    capacity: usize,
    buffer: BytesMut,
    id: u128,
    print_guest_output: bool,
}

impl View for MemoryOutputPipe {
    type V = PipeView;

    closed spec fn view(&self) -> PipeView {
        PipeView {
            capacity: self.capacity as nat,
            buffer: buffer_bytes(self.buffer),
            id: self.id,
            print_guest_output: self.print_guest_output,
        }
    }
}

impl MemoryOutputPipe {
    #[verifier::type_invariant]
    spec fn bounded(self) -> bool {
        buffer_bytes(self.buffer).len() <= self.capacity <= isize::MAX
    }

    /// An empty stream that accepts up to `capacity` bytes in one write.
    pub fn new(capacity: usize, print_guest_output: bool, id: u128) -> (pipe: Self)
        requires
            capacity <= isize::MAX,
        ensures
            pipe@ == (PipeView {
                capacity: capacity as nat,
                buffer: Seq::empty(),
                id,
                print_guest_output,
            }),
    {
        MemoryOutputPipe { capacity, buffer: BytesMut::new(), id, print_guest_output }
    }

    /// A copy of the bytes held.
    pub fn contents(&self) -> (out: Bytes)
        ensures
            frozen_bytes(out) == self@.buffer,
    {
        self.buffer.clone().freeze()
    }

    /// The bytes held, as text.
    pub fn contents_string(&self) -> (out: Result<String, StreamFault>)
        ensures
            match out {
                Ok(text) => valid_utf8(self@.buffer) && text@ == decode_utf8(self@.buffer),
                Err(fault) => !valid_utf8(self@.buffer) && fault == StreamFault::Undecodable,
            },
    {
        let held = self.contents();
        match String::from_utf8(slice_to_vec(held.as_ref())) {
            Ok(text) => Ok(text),
            Err(_) => Err(StreamFault::Undecodable),
        }
    }

    /// What one look at the buffer shows: the text it holds, or nothing where
    /// it is empty.
    pub fn poll_contents(&self) -> (seen: Result<Option<String>, StreamFault>)
        ensures
            match seen {
                Ok(None) => self@.buffer.len() == 0,
                Ok(Some(text)) => self@.buffer.len() > 0 && valid_utf8(self@.buffer) && text@
                    == decode_utf8(self@.buffer),
                Err(fault) => self@.buffer.len() > 0 && !valid_utf8(self@.buffer) && fault
                    == StreamFault::Undecodable,
            },
    {
        if self.buffer.is_empty() {
            return Ok(None);
        }
        match self.contents_string() {
            Ok(text) => Ok(Some(text)),
            Err(fault) => Err(fault),
        }
    }

    /// Gives up the stream for its buffer.
    pub fn try_into_inner(self) -> (out: Option<BytesMut>)
        ensures
            out matches Some(buffer) && buffer_bytes(buffer) == self@.buffer,
    {
        Some(self.buffer)
    }

    /// The stream is never a terminal.
    pub fn isatty(&self) -> (tty: bool)
        ensures
            !tty,
    {
        false
    }

    /// The chunk that is handed out for decoded `text`.
    fn emit(&self, text: String) -> (chunk: Emission)
        ensures
            chunk@ == self@.emission(text@),
    {
        let echo = if self.print_guest_output {
            let mut line = String::from_str("\x1b[32mpython ");
            line.append(hyphenated(self.id).as_str());
            line.append(":\x1b[0m ");
            line.append(text.as_str());
            Some(line)
        } else {
            None
        };
        Emission { text, echo }
    }

    /// Takes the buffer out of the stream, which holds an empty one until
    /// another is put in its place.
    fn take_buffer(&mut self) -> (held: BytesMut)
        ensures
            buffer_bytes(held) == old(self)@.buffer,
            final(self)@ == old(self)@.holding(Seq::empty()),
    {
        proof {
            use_type_invariant(&*self);
        }
        let mut held = BytesMut::new();
        core::mem::swap(&mut self.buffer, &mut held);
        held
    }

    /// Decodes what `held` holds and hands it out as one chunk; the stream is
    /// left with the emptied buffer. Bytes that do not decode stay in the
    /// stream.
    fn publish(&mut self, held: BytesMut) -> (r: Result<Emission, StreamFault>)
        requires
            buffer_bytes(held).len() <= old(self)@.capacity,
        ensures
            final(self)@ == old(self)@.holding(buffer_bytes(held)).after_publish(),
            written(r) == old(self)@.holding(buffer_bytes(held)).publish_result(),
    {
        proof {
            use_type_invariant(&*self);
        }
        let mut held = held;
        let copy = held.clone().freeze();
        match String::from_utf8(slice_to_vec(copy.as_ref())) {
            Ok(text) => {
                let chunk = self.emit(text);
                held.clear();
                self.buffer = held;
                Ok(chunk)
            },
            Err(_) => {
                self.buffer = held;
                Err(StreamFault::Undecodable)
            },
        }
    }

    /// Takes `bytes` into the buffer and hands them out as one chunk of
    /// text. A write that is larger than what the buffer has left is refused
    /// and changes nothing.
    pub fn write(&mut self, bytes: Bytes) -> (r: Result<Emission, StreamFault>)
        ensures
            final(self)@ == old(self)@.after_write(frozen_bytes(bytes)),
            written(r) == old(self)@.write_result(frozen_bytes(bytes)),
            final(self)@.wf(),
    {
        proof {
            use_type_invariant(&*self);
        }
        if bytes.len() > self.capacity - self.buffer.len() {
            return Err(StreamFault::BeyondCapacity);
        }
        let mut held = self.take_buffer();
        held.extend_from_slice(bytes.as_ref());
        self.publish(held)
    }

    /// Hands out what the buffer holds, if it holds anything.
    pub fn flush(&mut self) -> (r: Result<Option<Emission>, StreamFault>)
        ensures
            final(self)@ == old(self)@.after_flush(),
            flushed(r) == old(self)@.flush_result(),
            final(self)@.wf(),
    {
        proof {
            use_type_invariant(&*self);
        }
        if self.buffer.is_empty() {
            return Ok(None);
        }
        let held = self.take_buffer();
        match self.publish(held) {
            Ok(chunk) => Ok(Some(chunk)),
            Err(fault) => Err(fault),
        }
    }

    /// How many bytes the next write may bring. Once the buffer is at
    /// capacity the stream is closed.
    pub fn check_write(&mut self) -> (r: Result<usize, StreamFault>)
        ensures
            final(self)@ == old(self)@,
            permitted(r) == old(self)@.check_write_result(),
            final(self)@.wf(),
    {
        proof {
            use_type_invariant(&*self);
        }
        let consumed: usize = self.buffer.len();
        if consumed < self.capacity {
            Ok(self.capacity - consumed)
        } else {
            Err(StreamFault::Closed)
        }
    }
}

/// Law: the buffer never outgrows the capacity. A stream that keeps the
/// bound keeps it through every write and every flush.
pub proof fn lemma_bound_is_kept(pipe: PipeView, chunk: Seq<u8>)
    requires
        pipe.wf(),
    ensures
        pipe.after_write(chunk).wf(),
        pipe.after_flush().wf(),
{
}

/// Law: what the buffer holds is handed out at once. After a write that is
/// taken the buffer is empty, however much was written before.
pub proof fn lemma_buffer_is_transient(pipe: PipeView, chunk: Seq<u8>)
    requires
        pipe.write_result(chunk) is Ok,
    ensures
        pipe.after_write(chunk).buffer.len() == 0,
        pipe.after_write(chunk).capacity == pipe.capacity,
{
}

} // verus!
