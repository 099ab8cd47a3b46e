//! One invocation from end to end: what the capture stream hands out for the
//! writes of a guest, what the supervisor reports for it, and the laws that
//! hold of the two together.

use crate::escape::substituted;
use crate::memory_pipe::{EmissionView, PipeView, StreamFault};
use crate::runner::{PythonStatus, ResponseView};
use crate::sandbox::sandbox_for;
use crate::supervisor::{initial, status_of, ActionView, EventView, InvocationView, Phase};
use vstd::prelude::*;
use vstd::utf8::{
    decode_first_scalar, decode_utf8, pop_first_scalar, valid_utf8, valid_utf8_concat,
};

verus! {

/// What the host sees of one guest execution: the chunks that the guest
/// tries to write to its standard output and standard error, in order, and
/// whether its entry point ends in a fault of the guest's own making.
pub struct GuestRun {
    pub writes: Seq<Seq<u8>>,
    pub trapped: bool,
}

/// The results of the writes `writes`, made one after the other.
pub open spec fn outcomes(pipe: PipeView, writes: Seq<Seq<u8>>) -> Seq<
    Result<EmissionView, StreamFault>,
>
    decreases writes.len(),
{
    if writes.len() == 0 {
        Seq::empty()
    } else {
        seq![pipe.write_result(writes[0])] + outcomes(pipe.after_write(writes[0]), writes.skip(1))
    }
}

/// Whether one of the writes is refused, which stops the guest with a fault.
pub open spec fn refused(pipe: PipeView, writes: Seq<Seq<u8>>) -> bool
    decreases writes.len(),
{
    writes.len() > 0 && match pipe.write_result(writes[0]) {
        Ok(_) => refused(pipe.after_write(writes[0]), writes.skip(1)),
        Err(_) => true,
    }
}

/// The texts that the stream hands out before the first write that it
/// refuses, in the order of the writes.
pub open spec fn captured(pipe: PipeView, writes: Seq<Seq<u8>>) -> Seq<Seq<char>>
    decreases writes.len(),
{
    if writes.len() == 0 {
        Seq::empty()
    } else {
        match pipe.write_result(writes[0]) {
            Ok(chunk) => seq![chunk.text] + captured(
                pipe.after_write(writes[0]),
                writes.skip(1),
            ),
            Err(_) => Seq::empty(),
        }
    }
}

/// The texts put together, first to last.
pub open spec fn joined(texts: Seq<Seq<char>>) -> Seq<char>
    decreases texts.len(),
{
    if texts.len() == 0 {
        Seq::empty()
    } else {
        joined(texts.drop_last()) + texts.last()
    }
}

/// What each write says once decoded.
pub open spec fn decoded(writes: Seq<Seq<u8>>) -> Seq<Seq<char>> {
    Seq::new(writes.len(), |i: int| decode_utf8(writes[i]))
}

/// All the bytes written, first to last.
pub open spec fn all_bytes(writes: Seq<Seq<u8>>) -> Seq<u8>
    decreases writes.len(),
{
    if writes.len() == 0 {
        Seq::empty()
    } else {
        all_bytes(writes.drop_last()) + writes.last()
    }
}

/// Every write is well-formed UTF-8 by itself.
pub open spec fn all_decodable(writes: Seq<Seq<u8>>) -> bool {
    forall|i: int| 0 <= i < writes.len() ==> valid_utf8(#[trigger] writes[i])
}

/// How many of the writes come before the first one that is larger than
/// `capacity`.
pub open spec fn fitting(capacity: nat, writes: Seq<Seq<u8>>) -> nat
    decreases writes.len(),
{
    if writes.len() == 0 || writes[0].len() > capacity {
        0
    } else {
        1 + fitting(capacity, writes.skip(1))
    }
}

/// Whether the guest execution ends in a fault: one of its own, or one of the
/// capture stream.
pub open spec fn faulted(pipe: PipeView, guest: GuestRun) -> bool {
    guest.trapped || refused(pipe, guest.writes)
}

/// The result of an invocation whose guest behaves as `guest` and whose
/// captured output is collected in full. Bytes that do not decode are no
/// outcome of the guest: they end the invocation without a result.
pub open spec fn report_of(pipe: PipeView, guest: GuestRun) -> ResponseView {
    ResponseView {
        status: status_of(faulted(pipe, guest)),
        output: Some(joined(captured(pipe, guest.writes))),
    }
}

/// The supervisor after a sequence of events.
pub open spec fn run(start: InvocationView, events: Seq<EventView>) -> InvocationView
    decreases events.len(),
{
    if events.len() == 0 {
        start
    } else {
        run(start, events.drop_last()).next(events.last())
    }
}

/// The supervisor's answer to the last of a sequence of events.
pub open spec fn last_answer(start: InvocationView, events: Seq<EventView>) -> ActionView
    recommends
        events.len() > 0,
{
    run(start, events.drop_last()).answer(events.last())
}

/// One pull that brings a message, for each of the texts.
pub open spec fn pulls(texts: Seq<Seq<char>>) -> Seq<EventView> {
    Seq::new(texts.len(), |i: int| EventView::Chunk(texts[i]))
}

/// What the supervisor is told in the course of an invocation that is set up
/// without failure, where every captured chunk is pulled before the drain
/// ends with `end`.
pub open spec fn events_of(pipe: PipeView, guest: GuestRun, end: EventView) -> Seq<EventView> {
    seq![
        EventView::ContextBuilt,
        EventView::Instantiated,
        EventView::EntryResolved,
        if faulted(pipe, guest) {
            EventView::GuestTrapped
        } else {
            EventView::GuestReturned
        },
    ] + pulls(captured(pipe, guest.writes)).push(end)
}

/// The result of an invocation of `code` with the input data `csv`, where
/// the guest's behaviour is a function of the program text it is given.
pub open spec fn invocation_report(
    code: Seq<char>,
    csv: Seq<char>,
    print_guest_output: bool,
    id: u128,
    capacity: nat,
    behaviour: spec_fn(Seq<char>) -> GuestRun,
) -> ResponseView {
    let context = sandbox_for(code, csv, print_guest_output, id, capacity);
    report_of(context.capture, behaviour(context.args[2]))
}

/// Running through two sequences of events, one after the other, is running
/// through both put together.
pub proof fn lemma_run_concat(start: InvocationView, a: Seq<EventView>, b: Seq<EventView>)
    ensures
        run(start, a + b) == run(run(start, a), b),
    decreases b.len(),
{
    if b.len() == 0 {
        assert(a + b == a);
    } else {
        assert((a + b).drop_last() == a + b.drop_last());
        assert((a + b).last() == b.last());
        lemma_run_concat(start, a, b.drop_last());
    }
}

/// While the output is collected, pulled messages are appended in the order
/// in which they come and nothing else changes.
pub proof fn lemma_pulls_append(start: InvocationView, texts: Seq<Seq<char>>)
    requires
        start.phase == Phase::Completed || start.phase == Phase::Faulted,
    ensures
        run(start, pulls(texts)) == (InvocationView {
            output: start.output + joined(texts),
            ..start
        }),
    decreases texts.len(),
{
    if texts.len() == 0 {
        assert(start.output + joined(texts) == start.output);
    } else {
        let before = texts.drop_last();
        lemma_pulls_append(start, before);
        assert(pulls(texts).drop_last() == pulls(before));
        assert(pulls(texts).last() == EventView::Chunk(texts.last()));
        assert((start.output + joined(before)) + texts.last() == start.output + joined(texts));
    }
}

/// The supervisor of an invocation that is set up without failure and whose
/// captured chunks are all pulled reports the guest's outcome with the
/// concatenation of those chunks, and stands at `Drained` with that outcome.
pub proof fn lemma_supervisor_reports(pipe: PipeView, guest: GuestRun, end: EventView)
    requires
        end == EventView::Idle || end == EventView::Closed,
    ensures
        last_answer(initial(), events_of(pipe, guest, end)) == ActionView::Report(
            report_of(pipe, guest),
        ),
        run(initial(), events_of(pipe, guest, end)).phase == Phase::Drained(
            report_of(pipe, guest).status,
        ),
{
    let exit = if faulted(pipe, guest) {
        EventView::GuestTrapped
    } else {
        EventView::GuestReturned
    };
    let setup = seq![
        EventView::ContextBuilt,
        EventView::Instantiated,
        EventView::EntryResolved,
        exit,
    ];
    let texts = captured(pipe, guest.writes);
    let events = events_of(pipe, guest, end);
    let resolved = InvocationView {
        phase: if faulted(pipe, guest) {
            Phase::Faulted
        } else {
            Phase::Completed
        },
        output: Seq::empty(),
    };
    assert(run(initial(), setup) == resolved) by {
        reveal_with_fuel(run, 5);
        assert(setup.drop_last() == seq![
            EventView::ContextBuilt,
            EventView::Instantiated,
            EventView::EntryResolved,
        ]);
        assert(setup.drop_last().drop_last() == seq![
            EventView::ContextBuilt,
            EventView::Instantiated,
        ]);
        assert(setup.drop_last().drop_last().drop_last() == seq![EventView::ContextBuilt]);
        assert(setup.drop_last().drop_last().drop_last().drop_last() == Seq::<
            EventView,
        >::empty());
    }
    assert(events.drop_last() == setup + pulls(texts));
    assert(events.last() == end);
    lemma_run_concat(initial(), setup, pulls(texts));
    lemma_pulls_append(resolved, texts);
    assert(Seq::<char>::empty() + joined(texts) == joined(texts));
}

/// A fresh stream hands out what each write says until a write comes that is
/// larger than its capacity, and refuses that one.
pub proof fn lemma_capture_of_fresh_stream(pipe: PipeView, writes: Seq<Seq<u8>>)
    requires
        pipe.buffer.len() == 0,
        all_decodable(writes),
    ensures
        fitting(pipe.capacity, writes) <= writes.len(),
        captured(pipe, writes) == decoded(writes.take(fitting(pipe.capacity, writes) as int)),
        refused(pipe, writes) == (fitting(pipe.capacity, writes) < writes.len()),
    decreases writes.len(),
{
    if writes.len() == 0 || writes[0].len() > pipe.capacity {
        assert(captured(pipe, writes) =~= decoded(writes.take(0)));
    } else {
        let first = writes[0];
        let rest = writes.skip(1);
        let taken = fitting(pipe.capacity, rest);
        assert(pipe.buffer + first == first);
        assert(valid_utf8(first));
        assert(pipe.after_write(first) == pipe) by {
            assert(pipe.buffer == Seq::<u8>::empty());
        }
        assert(all_decodable(rest)) by {
            assert forall|i: int| 0 <= i < rest.len() implies valid_utf8(#[trigger] rest[i]) by {
                assert(rest[i] == writes[i + 1]);
            }
        }
        lemma_capture_of_fresh_stream(pipe, rest);
        let whole = decoded(writes.take(1 + taken as int));
        assert(captured(pipe, writes) =~= whole) by {
            assert forall|i: int| 0 <= i < whole.len() implies captured(pipe, writes)[i]
                == whole[i] by {
                if i > 0 {
                    assert(decoded(rest.take(taken as int))[i - 1] == decode_utf8(
                        rest.take(taken as int)[i - 1],
                    ));
                }
            }
        }
    }
}

/// Where every write fits, all of them come before the first that does not.
pub proof fn lemma_all_fitting(capacity: nat, writes: Seq<Seq<u8>>)
    requires
        forall|i: int| 0 <= i < writes.len() ==> (#[trigger] writes[i]).len() <= capacity,
    ensures
        fitting(capacity, writes) == writes.len(),
    decreases writes.len(),
{
    if writes.len() > 0 {
        let rest = writes.skip(1);
        assert forall|i: int| 0 <= i < rest.len() implies (#[trigger] rest[i]).len()
            <= capacity by {
            assert(rest[i] == writes[i + 1]);
        }
        lemma_all_fitting(capacity, rest);
    }
}

/// A write that is larger than the capacity is not among those that fit.
pub proof fn lemma_oversized_is_not_fitting(capacity: nat, writes: Seq<Seq<u8>>, at: int)
    requires
        0 <= at < writes.len(),
        writes[at].len() > capacity,
    ensures
        fitting(capacity, writes) <= at,
    decreases writes.len(),
{
    if at > 0 && writes[0].len() <= capacity {
        assert(writes.skip(1)[at - 1] == writes[at]);
        lemma_oversized_is_not_fitting(capacity, writes.skip(1), at - 1);
    }
}

/// Two pieces of well-formed UTF-8 put together decode to what the first
/// says followed by what the second says.
pub proof fn lemma_decode_concat(a: Seq<u8>, b: Seq<u8>)
    requires
        valid_utf8(a),
        valid_utf8(b),
    ensures
        valid_utf8(a + b),
        decode_utf8(a + b) == decode_utf8(a) + decode_utf8(b),
    decreases a.len(),
{
    valid_utf8_concat(a, b);
    if a.len() == 0 {
        assert(a + b == b);
        assert(decode_utf8(a) + decode_utf8(b) == decode_utf8(b));
    } else {
        let rest = pop_first_scalar(a);
        assert(pop_first_scalar(a + b) == rest + b);
        assert(decode_first_scalar(a + b) == decode_first_scalar(a));
        lemma_decode_concat(rest, b);
        let head = seq![decode_first_scalar(a) as char];
        assert(head + (decode_utf8(rest) + decode_utf8(b)) == (head + decode_utf8(rest))
            + decode_utf8(b));
    }
}

/// What the writes say one by one, put together, is what all their bytes
/// say when decoded as one piece.
pub proof fn lemma_joined_is_whole_text(writes: Seq<Seq<u8>>)
    requires
        all_decodable(writes),
    ensures
        valid_utf8(all_bytes(writes)),
        joined(decoded(writes)) == decode_utf8(all_bytes(writes)),
    decreases writes.len(),
{
    if writes.len() > 0 {
        let before = writes.drop_last();
        assert(all_decodable(before)) by {
            assert forall|i: int| 0 <= i < before.len() implies valid_utf8(
                #[trigger] before[i],
            ) by {
                assert(before[i] == writes[i]);
            }
        }
        lemma_joined_is_whole_text(before);
        assert(valid_utf8(writes.last())) by {
            assert(writes.last() == writes[writes.len() - 1]);
        }
        lemma_decode_concat(all_bytes(before), writes.last());
        assert(decoded(writes).drop_last() == decoded(before));
        assert(decoded(writes).last() == decode_utf8(writes.last()));
    }
}

/// Law: an invocation whose guest ends without a fault reports success
/// with exactly what its writes say, put together in the order in which they
/// were made. That is the text of all the bytes written, first to last.
///
/// The guest writes well-formed UTF-8 to a fresh stream, no write is larger
/// than the stream's capacity, and every chunk is pulled before the drain
/// ends.
pub proof fn lemma_success_reports_all_output(pipe: PipeView, guest: GuestRun, end: EventView)
    requires
        end == EventView::Idle || end == EventView::Closed,
        pipe.buffer.len() == 0,
        all_decodable(guest.writes),
        !guest.trapped,
        forall|i: int|
            0 <= i < guest.writes.len() ==> (#[trigger] guest.writes[i]).len() <= pipe.capacity,
    ensures
        last_answer(initial(), events_of(pipe, guest, end)) == ActionView::Report(
            ResponseView {
                status: PythonStatus::Success,
                output: Some(joined(decoded(guest.writes))),
            },
        ),
        joined(decoded(guest.writes)) == decode_utf8(all_bytes(guest.writes)),
{
    lemma_all_fitting(pipe.capacity, guest.writes);
    lemma_capture_of_fresh_stream(pipe, guest.writes);
    assert(guest.writes.take(guest.writes.len() as int) == guest.writes);
    lemma_supervisor_reports(pipe, guest, end);
    lemma_joined_is_whole_text(guest.writes);
}

/// Law: an invocation whose guest ends in a fault, its own or one of the
/// capture stream, reports an error together with what was written before
/// the fault.
///
/// The guest writes well-formed UTF-8 to a fresh stream, and every chunk is
/// pulled before the drain ends.
pub proof fn lemma_fault_reports_output_before_it(pipe: PipeView, guest: GuestRun, end: EventView)
    requires
        end == EventView::Idle || end == EventView::Closed,
        pipe.buffer.len() == 0,
        all_decodable(guest.writes),
        faulted(pipe, guest),
    ensures
        last_answer(initial(), events_of(pipe, guest, end)) == ActionView::Report(
            ResponseView {
                status: PythonStatus::Error,
                output: Some(
                    joined(
                        decoded(guest.writes.take(fitting(pipe.capacity, guest.writes) as int)),
                    ),
                ),
            },
        ),
{
    lemma_capture_of_fresh_stream(pipe, guest.writes);
    lemma_supervisor_reports(pipe, guest, end);
}

/// Law: an invocation in which the guest makes a write that is larger than
/// the stream's capacity reports an error, with what was written before that
/// write and nothing of what comes after.
///
/// The guest writes well-formed UTF-8 to a fresh stream, and every chunk is
/// pulled before the drain ends.
pub proof fn lemma_oversized_write_reports_error(
    pipe: PipeView,
    guest: GuestRun,
    at: int,
    end: EventView,
)
    requires
        end == EventView::Idle || end == EventView::Closed,
        pipe.buffer.len() == 0,
        all_decodable(guest.writes),
        0 <= at < guest.writes.len(),
        guest.writes[at].len() > pipe.capacity,
    ensures
        fitting(pipe.capacity, guest.writes) <= at,
        last_answer(initial(), events_of(pipe, guest, end)) == ActionView::Report(
            ResponseView {
                status: PythonStatus::Error,
                output: Some(
                    joined(
                        decoded(guest.writes.take(fitting(pipe.capacity, guest.writes) as int)),
                    ),
                ),
            },
        ),
{
    lemma_oversized_is_not_fitting(pipe.capacity, guest.writes, at);
    lemma_capture_of_fresh_stream(pipe, guest.writes);
    lemma_fault_reports_output_before_it(pipe, guest, end);
}

/// One write in the course of two invocations that run side by side: to the
/// stream of the first or of the second.
pub struct Turn {
    pub first: bool,
    pub chunk: Seq<u8>,
}

/// The writes that go to one of the two streams, in their order.
pub open spec fn writes_of(turns: Seq<Turn>, first: bool) -> Seq<Seq<u8>>
    decreases turns.len(),
{
    if turns.len() == 0 {
        Seq::empty()
    } else if turns[0].first == first {
        seq![turns[0].chunk] + writes_of(turns.skip(1), first)
    } else {
        writes_of(turns.skip(1), first)
    }
}

/// What the two streams give when the writes of both invocations come in any
/// order, each to its own stream.
pub open spec fn interleaved(a: PipeView, b: PipeView, turns: Seq<Turn>) -> (
    Seq<Result<EmissionView, StreamFault>>,
    Seq<Result<EmissionView, StreamFault>>,
)
    decreases turns.len(),
{
    if turns.len() == 0 {
        (Seq::empty(), Seq::empty())
    } else if turns[0].first {
        let rest = interleaved(a.after_write(turns[0].chunk), b, turns.skip(1));
        (seq![a.write_result(turns[0].chunk)] + rest.0, rest.1)
    } else {
        let rest = interleaved(a, b.after_write(turns[0].chunk), turns.skip(1));
        (rest.0, seq![b.write_result(turns[0].chunk)] + rest.1)
    }
}

/// Law: two invocations that run side by side do not see each other's
/// output. Whatever the order in which their writes come, each stream gives
/// what it would give if its invocation ran alone.
pub proof fn lemma_streams_are_isolated(a: PipeView, b: PipeView, turns: Seq<Turn>)
    ensures
        interleaved(a, b, turns).0 == outcomes(a, writes_of(turns, true)),
        interleaved(a, b, turns).1 == outcomes(b, writes_of(turns, false)),
    decreases turns.len(),
{
    if turns.len() > 0 {
        let chunk = turns[0].chunk;
        let rest = turns.skip(1);
        if turns[0].first {
            lemma_streams_are_isolated(a.after_write(chunk), b, rest);
            let mine = writes_of(turns, true);
            assert(mine[0] == chunk);
            assert(mine.skip(1) == writes_of(rest, true));
        } else {
            lemma_streams_are_isolated(a, b.after_write(chunk), rest);
            let mine = writes_of(turns, false);
            assert(mine[0] == chunk);
            assert(mine.skip(1) == writes_of(rest, false));
        }
    }
}

/// What a stream hands out and what it refuses does not depend on its
/// correlation id nor on whether it echoes to the console.
pub proof fn lemma_capture_ignores_tagging(a: PipeView, b: PipeView, writes: Seq<Seq<u8>>)
    requires
        a.capacity == b.capacity,
        a.buffer == b.buffer,
    ensures
        captured(a, writes) == captured(b, writes),
        refused(a, writes) == refused(b, writes),
    decreases writes.len(),
{
    if writes.len() > 0 {
        lemma_capture_ignores_tagging(
            a.after_write(writes[0]),
            b.after_write(writes[0]),
            writes.skip(1),
        );
    }
}

/// Law: running the same source with the same input data again gives an
/// equal result, where the guest's behaviour depends on nothing but the
/// program text. The correlation ids of the two runs may differ, and so may
/// their echo switches.
pub proof fn lemma_rerun_reports_the_same(
    code: Seq<char>,
    csv: Seq<char>,
    capacity: nat,
    behaviour: spec_fn(Seq<char>) -> GuestRun,
    first_id: u128,
    first_echo: bool,
    second_id: u128,
    second_echo: bool,
)
    ensures
        invocation_report(code, csv, first_echo, first_id, capacity, behaviour)
            == invocation_report(code, csv, second_echo, second_id, capacity, behaviour),
{
    let first = sandbox_for(code, csv, first_echo, first_id, capacity);
    let second = sandbox_for(code, csv, second_echo, second_id, capacity);
    assert(first.args[2] == substituted(code, csv));
    assert(second.args[2] == substituted(code, csv));
    lemma_capture_ignores_tagging(first.capture, second.capture, behaviour(first.args[2]).writes);
}

} // verus!
