//! What holds of a connection over its whole life.
//!
//! A session is the sequence of calls that a driver makes.  Each call is an
//! [`Event`] here, with what it was told; what it does is what the contracts in
//! [`crate::conn`] say.  The laws are about every session in which each call is
//! made where its contract allows it.

use vstd::prelude::*;

use crate::config::WebSocketConfig;
use crate::conn::{
    close_written_effect, data_effect, flush_done, flush_start, frame_effect, frame_fault,
    fresh_state, message_written_effect, read_effect, read_flushed_effect, received_effect,
    reply_flushed_effect, reply_written_effect, shutdown_effect, smaller, write_effect,
    write_flushed_effect, ConnState, FlushNext, ReadNext, WriteNext,
};
use crate::frame::{message_frame, pong_frame, Control, Data, FrameView, OpCode};
use crate::socket::SocketError;

verus! {

/// One call on a connection.
pub enum Event<E> {
    /// `poll_read`, with so much room.
    Read { room: nat },
    /// `read_flushed`.
    ReadFlushed { outcome: Result<(), SocketError<E>> },
    /// `frame_received`.
    FrameReceived { room: nat, frame: Result<Option<FrameView>, SocketError<E>> },
    /// `reply_written`.
    ReplyWritten { outcome: Result<(), SocketError<E>> },
    /// `reply_flushed`.
    ReplyFlushed { room: nat, outcome: Result<(), SocketError<E>> },
    /// `poll_write` of these bytes.
    Write { data: Seq<u8> },
    /// `write_flushed`.
    WriteFlushed { data: Seq<u8>, outcome: Result<(), SocketError<E>> },
    /// `message_written`.
    MessageWritten { count: usize, outcome: Result<(), SocketError<E>> },
    /// `poll_flush`.
    Flush,
    /// `poll_flush_socket`.
    Flushed { outcome: Result<(), SocketError<E>> },
    /// `poll_shutdown`.
    Shutdown,
    /// `close_written`.
    CloseWritten { outcome: Result<(), SocketError<E>> },
}

/// What a call asks for.
pub enum Reaction<E> {
    /// The next action of a read.
    Read(ReadNext<E>),
    /// The next action of a write.
    Write(WriteNext<E>),
    /// The next action of a flush or a shutdown.
    Flush(FlushNext<E>),
}

/// What a call does to the connection, and what it asks for.
pub open spec fn step<E>(s: ConnState, event: Event<E>) -> (ConnState, Reaction<E>) {
    match event {
        Event::Read { room } => {
            let (after, next) = read_effect::<E>(s, room);
            (after, Reaction::Read(next))
        },
        Event::ReadFlushed { outcome } => {
            let (after, next) = read_flushed_effect(s, outcome);
            (after, Reaction::Read(next))
        },
        Event::FrameReceived { room, frame } => {
            let (after, next) = received_effect(s, room, frame);
            (after, Reaction::Read(next))
        },
        Event::ReplyWritten { outcome } => {
            let (after, next) = reply_written_effect(s, outcome);
            (after, Reaction::Read(next))
        },
        Event::ReplyFlushed { room, outcome } => {
            let (after, next) = reply_flushed_effect(s, room, outcome);
            (after, Reaction::Read(next))
        },
        Event::Write { data } => (s, Reaction::Write(write_effect::<E>(s, data))),
        Event::WriteFlushed { data, outcome } => {
            let (after, next) = write_flushed_effect(s, data, outcome);
            (after, Reaction::Write(next))
        },
        Event::MessageWritten { count, outcome } => {
            let (after, next) = message_written_effect(s, count, outcome);
            (after, Reaction::Write(next))
        },
        Event::Flush => (s, Reaction::Flush(flush_start::<E>(s))),
        Event::Flushed { outcome } => {
            let (after, next) = flush_done(s, outcome);
            (after, Reaction::Flush(next))
        },
        Event::Shutdown => {
            let (after, next) = shutdown_effect::<E>(s);
            (after, Reaction::Flush(next))
        },
        Event::CloseWritten { outcome } => {
            let (after, next) = close_written_effect(s, outcome);
            (after, Reaction::Flush(next))
        },
    }
}

/// Whether the call's contract allows it here.
pub open spec fn allowed<E>(s: ConnState, event: Event<E>) -> bool {
    match event {
        Event::FrameReceived { .. } => s.buffer.len() == 0,
        Event::WriteFlushed { .. } => !s.write_closed,
        _ => true,
    }
}

/// The bytes that a call hands to the reader.
pub open spec fn delivered<E>(reaction: Reaction<E>) -> Seq<u8> {
    match reaction {
        Reaction::Read(ReadNext::Ready(bytes)) => bytes,
        _ => Seq::empty(),
    }
}

/// The frame that a call sends, if it sends one.
pub open spec fn sent<E>(reaction: Reaction<E>) -> Option<FrameView> {
    match reaction {
        Reaction::Read(ReadNext::Queue(frame)) => Some(frame),
        Reaction::Write(WriteNext::Queue(frame)) => Some(frame),
        Reaction::Flush(FlushNext::Queue(frame)) => Some(frame),
        _ => None,
    }
}

/// The frame that a call was given, if it was given one.
pub open spec fn received<E>(event: Event<E>) -> Option<FrameView> {
    match event {
        Event::FrameReceived { frame: Ok(Some(frame)), .. } => Some(frame),
        _ => None,
    }
}

/// The bytes that a call takes over from the peer: the payload of a data frame
/// that is in order.
pub open spec fn arrived<E>(s: ConnState, event: Event<E>) -> Seq<u8> {
    match received(event) {
        Some(frame) => if frame_fault(frame) is None && frame.is_data() {
            match data_effect::<E>(s, frame).1 {
                Ok(Some(payload)) => payload,
                _ => Seq::empty(),
            }
        } else {
            Seq::empty()
        },
        None => Seq::empty(),
    }
}

/// The bytes that a call takes over from the writer: those of a write whose
/// frame it sends.
pub open spec fn taken<E>(s: ConnState, event: Event<E>) -> Seq<u8> {
    match event {
        Event::Write { data } | Event::WriteFlushed { data, .. } => if sent(
            step(s, event).1,
        ) is Some {
            data
        } else {
            Seq::empty()
        },
        _ => Seq::empty(),
    }
}

/// Whether every call of the session is made where its contract allows it.
pub open spec fn session<E>(s: ConnState, events: Seq<Event<E>>) -> bool
    decreases events.len(),
{
    events.len() > 0 ==> {
        &&& allowed(s, events.first())
        &&& session(step(s, events.first()).0, events.drop_first())
    }
}

/// The connection after the session.
pub open spec fn state_after<E>(s: ConnState, events: Seq<Event<E>>) -> ConnState
    decreases events.len(),
{
    if events.len() == 0 {
        s
    } else {
        state_after(step(s, events.first()).0, events.drop_first())
    }
}

/// All bytes that the session hands to the reader.
pub open spec fn bytes_delivered<E>(s: ConnState, events: Seq<Event<E>>) -> Seq<u8>
    decreases events.len(),
{
    if events.len() == 0 {
        Seq::empty()
    } else {
        let (after, reaction) = step(s, events.first());
        delivered(reaction) + bytes_delivered(after, events.drop_first())
    }
}

/// All bytes that the session takes over from the peer.
pub open spec fn bytes_arrived<E>(s: ConnState, events: Seq<Event<E>>) -> Seq<u8>
    decreases events.len(),
{
    if events.len() == 0 {
        Seq::empty()
    } else {
        let (after, reaction) = step(s, events.first());
        arrived(s, events.first()) + bytes_arrived(after, events.drop_first())
    }
}

/// All bytes that the session takes over from the writer.
pub open spec fn bytes_taken<E>(s: ConnState, events: Seq<Event<E>>) -> Seq<u8>
    decreases events.len(),
{
    if events.len() == 0 {
        Seq::empty()
    } else {
        let (after, reaction) = step(s, events.first());
        taken(s, events.first()) + bytes_taken(after, events.drop_first())
    }
}

/// The sequence of one frame, or of none.
pub open spec fn as_seq(frame: Option<FrameView>) -> Seq<FrameView> {
    match frame {
        Some(frame) => seq![frame],
        None => Seq::empty(),
    }
}

/// All frames that the session sends, in order.
pub open spec fn frames_sent<E>(s: ConnState, events: Seq<Event<E>>) -> Seq<FrameView>
    decreases events.len(),
{
    if events.len() == 0 {
        Seq::empty()
    } else {
        let (after, reaction) = step(s, events.first());
        as_seq(sent(reaction)) + frames_sent(after, events.drop_first())
    }
}

/// All frames that the session receives, in order.
pub open spec fn frames_received<E>(events: Seq<Event<E>>) -> Seq<FrameView>
    decreases events.len(),
{
    if events.len() == 0 {
        Seq::empty()
    } else {
        as_seq(received(events.first())) + frames_received(events.drop_first())
    }
}

/// Whether frames are what a peer that keeps to the protocol sends: each has its
/// place in a sequence of binary messages, with control frames anywhere in
/// between.  `open` says whether a message is open at the beginning.
pub open spec fn well_ordered(frames: Seq<FrameView>, open: bool) -> bool
    decreases frames.len(),
{
    frames.len() > 0 ==> {
        let frame = frames.first();
        &&& frame_fault(frame) is None
        &&& match frame.header.opcode {
            OpCode::Data(Data::Binary) => !open && well_ordered(
                frames.drop_first(),
                !frame.header.is_final,
            ),
            OpCode::Data(Data::Continue) => open && well_ordered(
                frames.drop_first(),
                !frame.header.is_final,
            ),
            OpCode::Data(_) | OpCode::Control(Control::Reserved(_)) => false,
            OpCode::Control(_) => well_ordered(frames.drop_first(), open),
        }
    }
}

/// The payloads of the data frames among `frames`, one after the other.
pub open spec fn data_payloads(frames: Seq<FrameView>) -> Seq<u8>
    decreases frames.len(),
{
    if frames.len() == 0 {
        Seq::empty()
    } else if frames.first().is_data() {
        frames.first().payload + data_payloads(frames.drop_first())
    } else {
        data_payloads(frames.drop_first())
    }
}

/// [`law_bytes_are_conserved`] for a single call.
proof fn lemma_step_conserves_bytes<E>(s: ConnState, event: Event<E>)
    requires
        allowed(s, event),
    ensures
        delivered(step(s, event).1) + step(s, event).0.buffer == s.buffer + arrived(s, event),
{
    let (after, reaction) = step(s, event);
    match event {
        Event::FrameReceived { room, frame: Ok(Some(frame)) } => {
            let count = smaller(room, frame.payload.len()) as int;
            assert(frame.payload.take(count) + frame.payload.skip(count) =~= frame.payload);
            assert(delivered(reaction) + after.buffer =~= s.buffer + arrived(s, event));
        },
        Event::Read { room } | Event::ReplyFlushed { room, .. } => {
            let count = smaller(room, s.buffer.len()) as int;
            assert(s.buffer.take(count) + s.buffer.skip(count) =~= s.buffer);
            assert(delivered(reaction) + after.buffer =~= s.buffer + arrived(s, event));
        },
        _ => {
            assert(delivered(reaction) + after.buffer =~= s.buffer + arrived(s, event));
        },
    }
}

/// No byte is lost, made up or moved: what the reader got, followed by what
/// waits for it, is what waited at the beginning followed by what arrived.
pub proof fn law_bytes_are_conserved<E>(s: ConnState, events: Seq<Event<E>>)
    requires
        session(s, events),
    ensures
        bytes_delivered(s, events) + state_after(s, events).buffer == s.buffer + bytes_arrived(
            s,
            events,
        ),
    decreases events.len(),
{
    if events.len() == 0 {
        assert(bytes_delivered(s, events) + s.buffer =~= s.buffer + bytes_arrived(s, events));
    } else {
        let rest = events.drop_first();
        let after = step(s, events.first()).0;
        law_bytes_are_conserved(after, rest);
        lemma_step_conserves_bytes(s, events.first());
        lemma_regroup(
            delivered(step(s, events.first()).1),
            bytes_delivered(after, rest),
            state_after(after, rest).buffer,
            s.buffer,
            arrived(s, events.first()),
            bytes_arrived(after, rest),
            after.buffer,
        );
    }
}

/// Two steps of a sum of sequences put together.
proof fn lemma_regroup(
    a: Seq<u8>,
    b: Seq<u8>,
    c: Seq<u8>,
    d: Seq<u8>,
    e: Seq<u8>,
    f: Seq<u8>,
    middle: Seq<u8>,
)
    requires
        a + middle == d + e,
        b + c == middle + f,
    ensures
        (a + b) + c == d + (e + f),
{
    assert((a + b) + c =~= a + (b + c));
    assert(a + (middle + f) =~= (a + middle) + f);
    assert((d + e) + f =~= d + (e + f));
}

/// What a call does to the place in the sequence of messages.
proof fn lemma_step_order<E>(s: ConnState, event: Event<E>)
    ensures
        step(s, event).0.continuation_expected == match received(event) {
            Some(frame) => if frame_fault(frame) is None && frame.is_data() && data_effect::<E>(
                s,
                frame,
            ).1 is Ok {
                !frame.header.is_final
            } else {
                s.continuation_expected
            },
            None => s.continuation_expected,
        },
{
}

/// All that a peer sends arrives, if it keeps to the protocol: the payloads of
/// its data frames become the stream, however the messages are cut into frames,
/// and the control frames between them leave no trace in it.
pub proof fn law_ordered_frames_arrive<E>(s: ConnState, events: Seq<Event<E>>)
    requires
        well_ordered(frames_received(events), s.continuation_expected),
    ensures
        bytes_arrived(s, events) == data_payloads(frames_received(events)),
    decreases events.len(),
{
    if events.len() > 0 {
        let event = events.first();
        let rest = events.drop_first();
        let after = step(s, event).0;
        let frames = frames_received(events);
        lemma_step_order(s, event);
        match received(event) {
            Some(frame) => {
                assert(frames.first() == frame);
                assert(frames.drop_first() =~= frames_received(rest));
                law_ordered_frames_arrive(after, rest);
                if !frame.is_data() {
                    assert(bytes_arrived(s, events) =~= bytes_arrived(after, rest));
                }
            },
            None => {
                assert(frames =~= frames_received(rest));
                law_ordered_frames_arrive(after, rest);
                assert(bytes_arrived(s, events) =~= bytes_arrived(after, rest));
            },
        }
    }
}

/// Whether the call refuses the frame that it was given.
pub open spec fn refuses<E>(s: ConnState, event: Event<E>) -> bool {
    &&& received(event) is Some
    &&& step(s, event).1 matches Reaction::Read(next)
    &&& next is Failed
}

/// Whether the session refuses none of the frames that it receives.
pub open spec fn refuses_nothing<E>(s: ConnState, events: Seq<Event<E>>) -> bool
    decreases events.len(),
{
    events.len() > 0 ==> {
        &&& !refuses(s, events.first())
        &&& refuses_nothing(step(s, events.first()).0, events.drop_first())
    }
}

/// Exactly the frames of a peer that keeps to the protocol are accepted.
pub proof fn law_ordered_frames_are_accepted<E>(s: ConnState, events: Seq<Event<E>>)
    ensures
        refuses_nothing(s, events) <==> well_ordered(
            frames_received(events),
            s.continuation_expected,
        ),
    decreases events.len(),
{
    if events.len() > 0 {
        let event = events.first();
        let rest = events.drop_first();
        let frames = frames_received(events);
        lemma_step_order(s, event);
        law_ordered_frames_are_accepted(step(s, event).0, rest);
        match received(event) {
            Some(frame) => {
                assert(frames.first() == frame);
                assert(frames.drop_first() =~= frames_received(rest));
            },
            None => {
                assert(frames =~= frames_received(rest));
            },
        }
    }
}

/// What a call may send.
proof fn lemma_step_sends<E>(s: ConnState, event: Event<E>)
    requires
        allowed(s, event),
    ensures
        match sent(step(s, event).1) {
            Some(frame) => {
                &&& !s.write_closed
                &&& frame_fault(frame) is None
                &&& step(s, event).0.write_closed == frame.is_close()
                &&& frame.is_data() ==> frame == message_frame(taken(s, event))
                &&& !frame.is_data() ==> {
                    &&& taken(s, event).len() == 0
                    &&& frame.is_close() || frame.header.opcode == OpCode::Control(Control::Pong)
                }
            },
            None => {
                &&& taken(s, event).len() == 0
                &&& step(s, event).0.write_closed == s.write_closed
            },
        },
{
}

/// The connection itself keeps to the protocol: before they are masked, the
/// frames that it sends are in order, and their data is what was written, every
/// write as a message of its own.
pub proof fn law_sent_frames_are_in_order<E>(s: ConnState, events: Seq<Event<E>>)
    requires
        session(s, events),
    ensures
        well_ordered(frames_sent(s, events), false),
        data_payloads(frames_sent(s, events)) == bytes_taken(s, events),
    decreases events.len(),
{
    if events.len() > 0 {
        let event = events.first();
        let rest = events.drop_first();
        let (after, reaction) = step(s, event);
        let frames = frames_sent(s, events);
        law_sent_frames_are_in_order(after, rest);
        lemma_step_sends(s, event);
        match sent(reaction) {
            Some(frame) => {
                assert(frames.first() == frame);
                assert(frames.drop_first() =~= frames_sent(after, rest));
                assert(bytes_taken(s, events) =~= taken(s, event) + bytes_taken(after, rest));
                if !frame.is_data() {
                    assert(bytes_taken(s, events) =~= bytes_taken(after, rest));
                }
            },
            None => {
                assert(frames =~= frames_sent(after, rest));
                assert(bytes_taken(s, events) =~= bytes_taken(after, rest));
            },
        }
    }
}

/// What is written is read back: where one connection receives, without their
/// masks, the frames that another has sent, its reader gets the written bytes,
/// in order and behind what had been waiting; those that it did not ask for yet
/// wait for it.
pub proof fn law_written_bytes_are_read_back<E>(
    writer: ConnState,
    sending: Seq<Event<E>>,
    reader: ConnState,
    receiving: Seq<Event<E>>,
)
    requires
        session(writer, sending),
        session(reader, receiving),
        !reader.continuation_expected,
        frames_received(receiving) == frames_sent(writer, sending),
    ensures
        bytes_delivered(reader, receiving) + state_after(reader, receiving).buffer == reader.buffer
            + bytes_taken(writer, sending),
{
    law_sent_frames_are_in_order(writer, sending);
    law_ordered_frames_arrive(reader, receiving);
    law_bytes_are_conserved(reader, receiving);
}

/// A close is the last frame that a connection sends, and it sends at most one.
/// It is sent exactly when the writing side is closed, whether by a shutdown or
/// in answer to the peer's close; once that side is closed nothing is sent.
pub proof fn law_close_is_last<E>(s: ConnState, events: Seq<Event<E>>)
    requires
        session(s, events),
    ensures
        forall|i: int|
            0 <= i < frames_sent(s, events).len() && (#[trigger] frames_sent(s, events)[i]).is_close()
                ==> i == frames_sent(s, events).len() - 1,
        s.write_closed ==> frames_sent(s, events).len() == 0,
        state_after(s, events).write_closed <==> s.write_closed || (frames_sent(s, events).len() > 0
            && frames_sent(s, events).last().is_close()),
    decreases events.len(),
{
    if events.len() > 0 {
        let event = events.first();
        let rest = events.drop_first();
        let (after, reaction) = step(s, event);
        let frames = frames_sent(s, events);
        let later = frames_sent(after, rest);
        law_close_is_last(after, rest);
        lemma_step_sends(s, event);
        match sent(reaction) {
            Some(frame) => {
                assert(frames == seq![frame] + later);
                assert forall|i: int| 0 <= i < frames.len() && (#[trigger] frames[i]).is_close()
                    implies i == frames.len() - 1 by {
                    if i > 0 {
                        assert(frames[i] == later[i - 1]);
                    }
                }
                if later.len() > 0 {
                    assert(frames.last() == later.last());
                } else {
                    assert(frames.last() == frame);
                }
            },
            None => {
                assert(frames =~= later);
            },
        }
    }
}

/// Whether a call may come right after one that asked for `before`: an operation
/// may begin at any time, and a report answers the action that asked for it.
pub open spec fn follows<E>(before: Option<Reaction<E>>, event: Event<E>) -> bool {
    match event {
        Event::Read { .. } | Event::Write { .. } | Event::Flush | Event::Shutdown => true,
        Event::ReadFlushed { .. } => before matches Some(Reaction::Read(next)) && next is Flush,
        Event::FrameReceived { .. } => before matches Some(Reaction::Read(next))
            && next is ReadFrame,
        Event::ReplyWritten { .. } => before matches Some(Reaction::Read(next)) && next is Queue,
        Event::ReplyFlushed { .. } => before matches Some(Reaction::Read(next))
            && next is FlushReply,
        Event::WriteFlushed { .. } => before matches Some(Reaction::Write(next)) && next is Flush,
        Event::MessageWritten { .. } => before matches Some(Reaction::Write(next))
            && next is Queue,
        Event::Flushed { .. } => before matches Some(Reaction::Flush(next)) && next is Flush,
        Event::CloseWritten { .. } => before matches Some(Reaction::Flush(next)) && next is Queue,
    }
}

/// Whether every report of the session answers the action before it.  `before`
/// is what was asked for last when the session begins.
pub open spec fn driven<E>(s: ConnState, before: Option<Reaction<E>>, events: Seq<Event<E>>) -> bool
    decreases events.len(),
{
    events.len() > 0 ==> {
        &&& follows(before, events.first())
        &&& driven(
            step(s, events.first()).0,
            Some(step(s, events.first()).1),
            events.drop_first(),
        )
    }
}

/// What holds of a connection between the calls of such a session: no bytes wait
/// once reading is closed; while a read is under way no bytes wait, and reading
/// is open where a frame is about to be read; a write that asks for a flush may
/// still send.
pub open spec fn in_step<E>(s: ConnState, before: Option<Reaction<E>>) -> bool {
    &&& s.read_closed ==> s.buffer.len() == 0
    &&& match before {
        Some(Reaction::Read(next)) => {
            &&& next is Flush || next is ReadFrame ==> s.buffer.len() == 0 && !s.read_closed
            &&& next is Queue || next is FlushReply ==> s.buffer.len() == 0
        },
        Some(Reaction::Write(next)) => next is Flush ==> !s.write_closed,
        _ => true,
    }
}

/// A call that answers the action before it is allowed, and keeps step.
proof fn lemma_step_keeps_step<E>(s: ConnState, before: Option<Reaction<E>>, event: Event<E>)
    requires
        in_step(s, before),
        follows(before, event),
    ensures
        allowed(s, event),
        in_step(step(s, event).0, Some(step(s, event).1)),
{
}

/// Where a session stands between its two parts.
proof fn lemma_halfway<E>(
    s: ConnState,
    before: Option<Reaction<E>>,
    early: Seq<Event<E>>,
    late: Seq<Event<E>>,
) -> (asked: Option<Reaction<E>>)
    requires
        in_step(s, before),
        driven(s, before, early + late),
    ensures
        in_step(state_after(s, early), asked),
        driven(state_after(s, early), asked, late),
        state_after(s, early + late) == state_after(state_after(s, early), late),
        session(s, early),
    decreases early.len(),
{
    let events = early + late;
    if early.len() == 0 {
        assert(events =~= late);
        before
    } else {
        let (after, reaction) = step(s, early.first());
        assert(events.first() == early.first());
        assert(events.drop_first() =~= early.drop_first() + late);
        lemma_step_keeps_step(s, before, early.first());
        lemma_halfway(after, Some(reaction), early.drop_first(), late)
    }
}

/// What is left of a session once reading is closed.
proof fn lemma_after_the_end<E>(s: ConnState, before: Option<Reaction<E>>, events: Seq<Event<E>>)
    requires
        in_step(s, before),
        driven(s, before, events),
        s.read_closed,
    ensures
        state_after(s, events).read_closed,
        state_after(s, events).buffer.len() == 0,
        bytes_delivered(s, events).len() == 0,
    decreases events.len(),
{
    if events.len() > 0 {
        let (after, reaction) = step(s, events.first());
        lemma_step_keeps_step(s, before, events.first());
        assert(delivered(reaction).len() == 0);
        lemma_after_the_end(after, Some(reaction), events.drop_first());
    }
}

/// A driver that does what it is asked for, and reports to the method that the
/// action names before it makes another call, meets every contract from the
/// handshake on.
pub proof fn law_answers_are_allowed<E>(config: WebSocketConfig, events: Seq<Event<E>>)
    requires
        driven(fresh_state(config), None, events),
    ensures
        session(fresh_state(config), events),
{
    assert(events + Seq::empty() =~= events);
    lemma_halfway(fresh_state(config), None, events, Seq::empty());
}

/// Under such a driver no bytes wait behind the end of the stream.
pub proof fn law_nothing_waits_at_the_end<E>(config: WebSocketConfig, events: Seq<Event<E>>)
    requires
        driven(fresh_state(config), None, events),
    ensures
        state_after(fresh_state(config), events).read_closed ==> state_after(
            fresh_state(config),
            events,
        ).buffer.len() == 0,
{
    assert(events + Seq::empty() =~= events);
    lemma_halfway(fresh_state(config), None, events, Seq::empty());
}

/// Once reading is closed, no call at all opens it again.
pub proof fn law_reading_stays_closed<E>(s: ConnState, events: Seq<Event<E>>)
    requires
        s.read_closed,
    ensures
        state_after(s, events).read_closed,
    decreases events.len(),
{
    if events.len() > 0 {
        law_reading_stays_closed(step(s, events.first()).0, events.drop_first());
    }
}

/// The end of the stream is final: once it has come, in the part `early` of a
/// driver's session, reading stays closed, the part `late` hands out no bytes,
/// and a reader is told of the end each time that it asks, without the socket
/// being touched.
pub proof fn law_end_of_stream_is_final<E>(
    config: WebSocketConfig,
    early: Seq<Event<E>>,
    late: Seq<Event<E>>,
    room: nat,
)
    requires
        driven(fresh_state(config), None, early + late),
        state_after(fresh_state(config), early).read_closed,
    ensures
        ({
            let end = state_after(fresh_state(config), early);
            let now = state_after(fresh_state(config), early + late);
            &&& now.read_closed
            &&& bytes_delivered(end, late).len() == 0
            &&& step(now, Event::<E>::Read { room }) == (
                now,
                Reaction::<E>::Read(ReadNext::Ready(Seq::empty())),
            )
        }),
{
    let end = state_after(fresh_state(config), early);
    let asked = lemma_halfway(fresh_state(config), None, early, late);
    lemma_after_the_end(end, asked, late);
}

/// A reader never gets more than it has room for, and never waits for bytes that
/// are there.
pub proof fn law_reads_fit<E>(s: ConnState, event: Event<E>, room: nat)
    requires
        event matches Event::Read { room: r } ==> r == room,
        event matches Event::FrameReceived { room: r, .. } ==> r == room,
        event matches Event::ReplyFlushed { room: r, .. } ==> r == room,
    ensures
        delivered(step(s, event).1).len() <= room,
        event is Read && room > 0 && s.buffer.len() > 0 ==> delivered(step(s, event).1).len() > 0,
{
}

/// A frame that is refused leaves the connection as it was.
pub proof fn law_refused_frames_change_nothing<E>(s: ConnState, room: nat, frame: FrameView)
    ensures
        frame_effect::<E>(s, room, frame).1 is Failed ==> frame_effect::<E>(s, room, frame).0 == s,
{
}

/// A ping is answered by a pong with the same payload, and by nothing once the
/// writing side is closed; either way the connection is as it was.
pub proof fn law_pings_are_echoed<E>(s: ConnState, room: nat, frame: FrameView)
    requires
        frame_fault(frame) is None,
        frame.header.opcode == OpCode::Control(Control::Ping),
    ensures
        !s.write_closed ==> frame_effect::<E>(s, room, frame) == (
            s,
            ReadNext::<E>::Queue(pong_frame(frame.payload)),
        ),
        s.write_closed ==> frame_effect::<E>(s, room, frame) == read_effect::<E>(s, room),
{
}

/// Whether the call reports a flush that succeeded.
pub open spec fn reports_flush<E>(event: Event<E>) -> bool {
    match event {
        Event::ReadFlushed { outcome }
        | Event::ReplyFlushed { outcome, .. }
        | Event::WriteFlushed { outcome, .. }
        | Event::Flushed { outcome } => outcome is Ok,
        _ => false,
    }
}

/// Whether the call reports a frame that the socket has taken, at once or to be
/// sent later.
pub open spec fn reports_queued<E>(event: Event<E>) -> bool {
    match event {
        Event::ReplyWritten { outcome }
        | Event::MessageWritten { outcome, .. }
        | Event::CloseWritten { outcome } => outcome is Ok || outcome == Err::<(), _>(
            SocketError::<E>::WouldBlock,
        ),
        _ => false,
    }
}

/// A flush or a shutdown that is done has left nothing behind: from the time
/// that the socket takes a frame until a flush succeeds, neither is ever done.
pub proof fn law_done_means_flushed<E>(s: ConnState, event: Event<E>)
    ensures
        reports_queued(event) ==> step(s, event).0.flush_pending,
        s.flush_pending && !reports_flush(event) ==> step(s, event).0.flush_pending,
        step(s, event).1 == Reaction::<E>::Flush(FlushNext::Ready) ==> !step(
            s,
            event,
        ).0.flush_pending,
{
}

} // verus!
