//! What each operation of a connection is for.
//!
//! The laws here say, of every call and of every state, what a reader, a writer
//! and the peer get.  They speak of the calls of [`crate::session`];
//! [`law_calls_are_events`] says that those are the methods of
//! [`WebsocketConn`].

use vstd::prelude::*;

use crate::config::WebSocketConfig;
use crate::conn::{
    ConnState, FlushAction, FlushNext, ReadAction, ReadNext, WebsocketConn, WriteAction, WriteNext,
};
use crate::error::{ConnError, ProtocolError};
use crate::frame::{Control, Data, Frame, FrameView, OpCode};
use crate::session::{data_payloads, driven, state_after, step, Event, Reaction};
use crate::socket::SocketError;

verus! {

/// What came of asking the socket for a frame, with the frame's mathematical
/// value.
pub open spec fn frame_outcome<E>(outcome: Result<Option<Frame>, SocketError<E>>) -> Result<
    Option<FrameView>,
    SocketError<E>,
> {
    match outcome {
        Ok(Some(frame)) => Ok(Some(FrameView { header: frame.header, payload: frame.payload@ })),
        Ok(None) => Ok(None),
        Err(error) => Err(error),
    }
}

/// Whether a read asks for what is said of it, and a frame that it sends is
/// masked.
pub open spec fn read_asks<E>(action: ReadAction<E>, reaction: Reaction<E>) -> bool {
    match action {
        ReadAction::Ready(bytes) => reaction == Reaction::<E>::Read(ReadNext::Ready(bytes@)),
        ReadAction::Failed(error) => reaction == Reaction::<E>::Read(ReadNext::Failed(error)),
        ReadAction::Pending => reaction == Reaction::<E>::Read(ReadNext::Pending),
        ReadAction::Flush => reaction == Reaction::<E>::Read(ReadNext::Flush),
        ReadAction::ReadFrame(limit) => reaction == Reaction::<E>::Read(ReadNext::ReadFrame(limit)),
        ReadAction::Queue(frame) => {
            &&& reaction matches Reaction::Read(ReadNext::Queue(sent))
            &&& is_masked(frame, sent)
        },
        ReadAction::FlushReply => reaction == Reaction::<E>::Read(ReadNext::FlushReply),
    }
}

/// Whether a write asks for what is said of it, and a frame that it sends is
/// masked.
pub open spec fn write_asks<E>(action: WriteAction<E>, reaction: Reaction<E>) -> bool {
    match action {
        WriteAction::Ready(count) => reaction == Reaction::<E>::Write(WriteNext::Ready(count)),
        WriteAction::Failed(error) => reaction == Reaction::<E>::Write(WriteNext::Failed(error)),
        WriteAction::Flush => reaction == Reaction::<E>::Write(WriteNext::Flush),
        WriteAction::Queue(frame) => {
            &&& reaction matches Reaction::Write(WriteNext::Queue(sent))
            &&& is_masked(frame, sent)
        },
    }
}

/// Whether a flush or a shutdown asks for what is said of it, and a frame that
/// it sends is masked.
pub open spec fn flush_asks<E>(action: FlushAction<E>, reaction: Reaction<E>) -> bool {
    match action {
        FlushAction::Ready => reaction == Reaction::<E>::Flush(FlushNext::Ready),
        FlushAction::Failed(error) => reaction == Reaction::<E>::Flush(FlushNext::Failed(error)),
        FlushAction::Pending => reaction == Reaction::<E>::Flush(FlushNext::Pending),
        FlushAction::Flush => reaction == Reaction::<E>::Flush(FlushNext::Flush),
        FlushAction::Queue(frame) => {
            &&& reaction matches Reaction::Flush(FlushNext::Queue(sent))
            &&& is_masked(frame, sent)
        },
    }
}

/// Whether `frame` is `plain` with a mask.
pub open spec fn is_masked(frame: Frame, plain: FrameView) -> bool {
    &&& frame.header.mask is Some
    &&& plain.header.mask is None
    &&& plain.header.is_final == frame.header.is_final
    &&& plain.header.rsv1 == frame.header.rsv1
    &&& plain.header.rsv2 == frame.header.rsv2
    &&& plain.header.rsv3 == frame.header.rsv3
    &&& plain.header.opcode == frame.header.opcode
    &&& plain.payload == frame.payload@
}

/// The events of a session are the methods of a connection: whatever holds of
/// the one holds of the other.
pub proof fn law_calls_are_events<E>()
    ensures
        forall|conn: &mut WebsocketConn, room: usize, action: ReadAction<E>| #[trigger]
            call_ensures(WebsocketConn::poll_read::<E>, (conn, room), action) ==> {
                let (after, reaction) = step((*conn)@, Event::<E>::Read { room: room as nat });
                (*final(conn))@ == after && read_asks(action, reaction)
            },
        forall|
            conn: &mut WebsocketConn,
            outcome: Result<(), SocketError<E>>,
            action: ReadAction<E>,
        | #[trigger]
            call_ensures(WebsocketConn::read_flushed::<E>, (conn, outcome), action) ==> {
                let (after, reaction) = step((*conn)@, Event::<E>::ReadFlushed { outcome });
                (*final(conn))@ == after && read_asks(action, reaction)
            },
        forall|
            conn: &mut WebsocketConn,
            room: usize,
            outcome: Result<Option<Frame>, SocketError<E>>,
            action: ReadAction<E>,
        | #[trigger]
            call_ensures(WebsocketConn::frame_received::<E>, (conn, room, outcome), action) ==> {
                let event = Event::<E>::FrameReceived {
                    room: room as nat,
                    frame: frame_outcome(outcome),
                };
                let (after, reaction) = step((*conn)@, event);
                (*final(conn))@ == after && read_asks(action, reaction)
            },
        forall|
            conn: &mut WebsocketConn,
            outcome: Result<(), SocketError<E>>,
            action: ReadAction<E>,
        | #[trigger]
            call_ensures(WebsocketConn::reply_written::<E>, (conn, outcome), action) ==> {
                let (after, reaction) = step((*conn)@, Event::<E>::ReplyWritten { outcome });
                (*final(conn))@ == after && read_asks(action, reaction)
            },
        forall|
            conn: &mut WebsocketConn,
            room: usize,
            outcome: Result<(), SocketError<E>>,
            action: ReadAction<E>,
        | #[trigger]
            call_ensures(WebsocketConn::reply_flushed::<E>, (conn, room, outcome), action) ==> {
                let event = Event::<E>::ReplyFlushed { room: room as nat, outcome };
                let (after, reaction) = step((*conn)@, event);
                (*final(conn))@ == after && read_asks(action, reaction)
            },
        forall|conn: WebsocketConn, data: &[u8], action: WriteAction<E>| #[trigger]
            call_ensures(WebsocketConn::poll_write::<E>, (&conn, data), action) ==> {
                let (after, reaction) = step(conn@, Event::<E>::Write { data: data@ });
                conn@ == after && write_asks(action, reaction)
            },
        forall|
            conn: &mut WebsocketConn,
            data: &[u8],
            outcome: Result<(), SocketError<E>>,
            action: WriteAction<E>,
        | #[trigger]
            call_ensures(WebsocketConn::write_flushed::<E>, (conn, data, outcome), action) ==> {
                let event = Event::<E>::WriteFlushed { data: data@, outcome };
                let (after, reaction) = step((*conn)@, event);
                (*final(conn))@ == after && write_asks(action, reaction)
            },
        forall|
            conn: &mut WebsocketConn,
            count: usize,
            outcome: Result<(), SocketError<E>>,
            action: WriteAction<E>,
        | #[trigger]
            call_ensures(WebsocketConn::message_written::<E>, (conn, count, outcome), action) ==> {
                let event = Event::<E>::MessageWritten { count, outcome };
                let (after, reaction) = step((*conn)@, event);
                (*final(conn))@ == after && write_asks(action, reaction)
            },
        forall|conn: WebsocketConn, action: FlushAction<E>| #[trigger]
            call_ensures(WebsocketConn::poll_flush::<E>, (&conn,), action) ==> {
                let (after, reaction) = step(conn@, Event::<E>::Flush);
                conn@ == after && flush_asks(action, reaction)
            },
        forall|
            conn: &mut WebsocketConn,
            outcome: Result<(), SocketError<E>>,
            action: FlushAction<E>,
        | #[trigger]
            call_ensures(WebsocketConn::poll_flush_socket::<E>, (conn, outcome), action) ==> {
                let (after, reaction) = step((*conn)@, Event::<E>::Flushed { outcome });
                (*final(conn))@ == after && flush_asks(action, reaction)
            },
        forall|conn: &mut WebsocketConn, action: FlushAction<E>| #[trigger]
            call_ensures(WebsocketConn::poll_shutdown::<E>, (conn,), action) ==> {
                let (after, reaction) = step((*conn)@, Event::<E>::Shutdown);
                (*final(conn))@ == after && flush_asks(action, reaction)
            },
        forall|
            conn: &mut WebsocketConn,
            outcome: Result<(), SocketError<E>>,
            action: FlushAction<E>,
        | #[trigger]
            call_ensures(WebsocketConn::close_written::<E>, (conn, outcome), action) ==> {
                let (after, reaction) = step((*conn)@, Event::<E>::CloseWritten { outcome });
                (*final(conn))@ == after && flush_asks(action, reaction)
            },
{
}

/// Whether a frame has the shape that a frame from a server must have: no
/// reserved bit, no mask, and a control frame is whole and has no more than 125
/// bytes.
pub open spec fn is_sound(frame: FrameView) -> bool {
    &&& !frame.header.rsv1 && !frame.header.rsv2 && !frame.header.rsv3
    &&& frame.header.mask is None
    &&& frame.header.opcode is Control ==> frame.header.is_final && frame.payload.len() <= 125
}

/// Whether a frame carries the next bytes of the stream: a message begins while
/// none is open, or goes on while one is.
pub open spec fn is_next(s: ConnState, frame: FrameView) -> bool {
    if s.continuation_expected {
        frame.header.opcode == OpCode::Data(Data::Continue)
    } else {
        frame.header.opcode == OpCode::Data(Data::Binary)
    }
}

/// Whether a frame is what a connection makes of an operation code and a
/// payload: whole, without reserved bits and not masked yet.
pub open spec fn is_whole(frame: FrameView, opcode: OpCode, payload: Seq<u8>) -> bool {
    &&& frame.header.opcode == opcode
    &&& frame.header.is_final
    &&& !frame.header.rsv1 && !frame.header.rsv2 && !frame.header.rsv3
    &&& frame.header.mask is None
    &&& frame.payload == payload
}

/// A new connection is open both ways, holds no bytes and has nothing to flush.
/// It accepts frames up to the configured length, and up to 16 MiB where nothing
/// is configured.  Bytes that came behind the handshake are handed on whole.
pub proof fn law_new_connections_are_open(
    tail: Vec<u8>,
    config: Option<WebSocketConfig>,
    opened: (WebsocketConn, Option<Vec<u8>>),
)
    requires
        call_ensures(WebsocketConn::client, (tail, config), opened) || (config is Some
            && call_ensures(WebsocketConn::from_raw_stream, (tail, config->Some_0), opened)),
    ensures
        ({
            let s = opened.0@;
            &&& s.buffer.len() == 0
            &&& !s.flush_pending
            &&& !s.read_closed
            &&& !s.write_closed
            &&& !s.continuation_expected
            &&& config is Some ==> s.max_frame_size == config->Some_0.max_frame_size
            &&& config is None ==> s.max_frame_size == Some(16_777_216usize)
        }),
        tail@.len() == 0 ==> opened.1 is None,
        tail@.len() > 0 ==> opened.1 == Some(tail),
{
}

/// The limit to frames is what it was at the beginning, and every frame is asked
/// for with it.
pub proof fn law_the_limit_is_kept<E>(s: ConnState, event: Event<E>)
    ensures
        step(s, event).0.max_frame_size == s.max_frame_size,
        step(s, event).1 matches Reaction::Read(ReadNext::ReadFrame(limit)) ==> limit
            == s.max_frame_size,
{
}

/// Bytes that wait are handed out at once, in order: as many as there is room
/// for, and the others go on waiting.  Nothing else happens.
pub proof fn law_waiting_bytes_are_read_first<E>(s: ConnState, room: nat)
    requires
        room > 0,
        s.buffer.len() > 0,
    ensures
        ({
            let (after, reaction) = step(s, Event::<E>::Read { room });
            &&& reaction matches Reaction::Read(ReadNext::Ready(bytes))
            &&& bytes.len() > 0
            &&& bytes.len() <= room
            &&& bytes.len() == room || after.buffer.len() == 0
            &&& bytes + after.buffer == s.buffer
            &&& after == (ConnState { buffer: after.buffer, ..s })
        }),
{
    let count = if room <= s.buffer.len() {
        room as int
    } else {
        s.buffer.len() as int
    };
    assert(s.buffer.take(count) + s.buffer.skip(count) =~= s.buffer);
}

/// A read that finds no bytes waiting never ends by itself while reading is
/// open: what may be left to flush is flushed, then a frame is asked for.
pub proof fn law_reads_ask_for_frames<E>(s: ConnState, room: nat)
    requires
        room > 0,
        s.buffer.len() == 0,
        !s.read_closed,
    ensures
        step(s, Event::<E>::Read { room }) == (
            s,
            Reaction::<E>::Read(
                if s.flush_pending {
                    ReadNext::Flush
                } else {
                    ReadNext::ReadFrame(s.max_frame_size)
                },
            ),
        ),
{
}

/// A read without room is done at once and changes nothing.
pub proof fn law_reads_without_room<E>(s: ConnState)
    ensures
        step(s, Event::<E>::Read { room: 0 }) == (
            s,
            Reaction::<E>::Read(ReadNext::Ready(Seq::empty())),
        ),
{
}

/// No bytes, where there was room for some, mean the end of the stream and
/// nothing else: whichever call ends a read so, reading is closed after it.
pub proof fn law_no_bytes_mean_the_end<E>(s: ConnState, event: Event<E>)
    requires
        event matches Event::Read { room } ==> room > 0,
        event matches Event::FrameReceived { room, .. } ==> room > 0,
        event matches Event::ReplyFlushed { room, .. } ==> room > 0,
    ensures
        step(s, event).1 matches Reaction::Read(ReadNext::Ready(bytes)) && bytes.len() == 0
            ==> step(s, event).0.read_closed,
{
}

/// Reading is closed by the end of the socket and by the peer's close, and by
/// nothing else.
pub proof fn law_what_closes_reading<E>(s: ConnState, event: Event<E>)
    requires
        !s.read_closed,
    ensures
        step(s, event).0.read_closed <==> match event {
            Event::FrameReceived { frame: Ok(None), .. } => true,
            Event::FrameReceived { frame: Ok(Some(frame)), .. } => is_sound(frame)
                && frame.header.opcode == OpCode::Control(Control::Close),
            _ => false,
        },
{
}

/// The bytes of a frame that carries the next bytes of the stream are handed out
/// at once, as many as there is room for, and the others wait.
pub proof fn law_data_is_handed_out_at_once<E>(s: ConnState, room: nat, frame: FrameView)
    requires
        s.buffer.len() == 0,
        is_sound(frame),
        is_next(s, frame),
        frame.payload.len() > 0,
    ensures
        ({
            let event = Event::<E>::FrameReceived { room, frame: Ok(Some(frame)) };
            let (after, reaction) = step(s, event);
            &&& reaction matches Reaction::Read(ReadNext::Ready(bytes))
            &&& bytes.len() <= room
            &&& bytes.len() == room || after.buffer.len() == 0
            &&& bytes + after.buffer == frame.payload
            &&& after == (ConnState {
                buffer: after.buffer,
                continuation_expected: !frame.header.is_final,
                ..s
            })
        }),
{
    let event = Event::<E>::FrameReceived { room, frame: Ok(Some(frame)) };
    let (after, reaction) = step(s, event);
    let count = if room <= frame.payload.len() {
        room as int
    } else {
        frame.payload.len() as int
    };
    assert(after.buffer =~= frame.payload.skip(count));
    assert(frame.payload.take(count) + frame.payload.skip(count) =~= frame.payload);
}

/// A frame without bytes, and a pong that nobody asked for, leave the read where
/// it was: it goes on as if it had just begun.
pub proof fn law_frames_without_bytes_are_passed_over<E>(s: ConnState, room: nat, frame: FrameView)
    requires
        is_sound(frame),
        (is_next(s, frame) && frame.payload.len() == 0) || frame.header.opcode == OpCode::Control(
            Control::Pong,
        ),
    ensures
        ({
            let event = Event::<E>::FrameReceived { room, frame: Ok(Some(frame)) };
            let open = if is_next(s, frame) {
                !frame.header.is_final
            } else {
                s.continuation_expected
            };
            step(s, event) == step(
                ConnState { continuation_expected: open, ..s },
                Event::<E>::Read { room },
            )
        }),
{
    assert(ConnState { continuation_expected: s.continuation_expected, ..s } == s);
}

/// A frame of the wrong shape is refused for the first thing that is wrong with
/// it, and a frame that has no place here is refused for that.  Whatever is
/// refused leaves the connection as it was; whatever is not refused does not
/// fail.
pub proof fn law_frames_are_refused_for_a_reason<E>(s: ConnState, room: nat, frame: FrameView)
    ensures
        ({
            let event = Event::<E>::FrameReceived { room, frame: Ok(Some(frame)) };
            let header = frame.header;
            let because = |error: ConnError<E>|
                step(s, event) == (s, Reaction::<E>::Read(ReadNext::Failed(error)));
            let broken = |error: ProtocolError| because(ConnError::Protocol(error));
            if header.rsv1 || header.rsv2 || header.rsv3 {
                broken(ProtocolError::NonZeroReservedBits)
            } else if header.mask is Some {
                broken(ProtocolError::MaskedFrameFromServer)
            } else {
                match header.opcode {
                    OpCode::Control(control) => if !header.is_final {
                        broken(ProtocolError::FragmentedControlFrame)
                    } else if frame.payload.len() > 125 {
                        broken(ProtocolError::ControlFrameTooBig)
                    } else {
                        match control {
                            Control::Reserved(code) => broken(
                                ProtocolError::UnknownControlFrameType(code),
                            ),
                            _ => !(step(s, event).1 matches Reaction::Read(ReadNext::Failed(_))),
                        }
                    },
                    OpCode::Data(Data::Text) => because(ConnError::InvalidMessageType),
                    OpCode::Data(Data::Reserved(code)) => broken(
                        ProtocolError::UnknownDataFrameType(code),
                    ),
                    OpCode::Data(Data::Binary) => if s.continuation_expected {
                        broken(ProtocolError::ExpectedFragment(Data::Binary))
                    } else {
                        !(step(s, event).1 matches Reaction::Read(ReadNext::Failed(_)))
                    },
                    OpCode::Data(Data::Continue) => if s.continuation_expected {
                        !(step(s, event).1 matches Reaction::Read(ReadNext::Failed(_)))
                    } else {
                        broken(ProtocolError::UnexpectedContinueFrame)
                    },
                }
            }
        }),
{
}

/// A ping is answered by a pong that has its payload, whatever that is, unless
/// nothing may be sent any more; then it is passed over.  The connection is as
/// it was.
pub proof fn law_pings_are_answered<E>(s: ConnState, room: nat, frame: FrameView)
    requires
        is_sound(frame),
        frame.header.opcode == OpCode::Control(Control::Ping),
    ensures
        ({
            let event = Event::<E>::FrameReceived { room, frame: Ok(Some(frame)) };
            let (after, reaction) = step(s, event);
            &&& !s.write_closed ==> {
                &&& after == s
                &&& reaction matches Reaction::Read(ReadNext::Queue(reply))
                &&& is_whole(reply, OpCode::Control(Control::Pong), frame.payload)
            }
            &&& s.write_closed ==> (after, reaction) == step(s, Event::<E>::Read { room })
        }),
{
}

/// The peer's close, whatever its payload, closes both sides.  It is answered by
/// a close exactly if none was sent before, and otherwise ends the stream.
pub proof fn law_closes_close_both_sides<E>(s: ConnState, room: nat, frame: FrameView)
    requires
        s.buffer.len() == 0,
        is_sound(frame),
        frame.header.opcode == OpCode::Control(Control::Close),
    ensures
        ({
            let event = Event::<E>::FrameReceived { room, frame: Ok(Some(frame)) };
            let (after, reaction) = step(s, event);
            &&& after == (ConnState { read_closed: true, write_closed: true, ..s })
            &&& !s.write_closed ==> {
                &&& reaction matches Reaction::Read(ReadNext::Queue(reply))
                &&& is_whole(reply, OpCode::Control(Control::Close), Seq::empty())
            }
            &&& s.write_closed ==> reaction == Reaction::<E>::Read(ReadNext::Ready(Seq::empty()))
        }),
{
}

/// Where the socket has no frame, the read ends with the stream; where it has to
/// wait, so has the read; where it fails, the read fails with its error.  Only
/// the first of these changes anything.
pub proof fn law_reads_without_a_frame<E>(s: ConnState, room: nat, error: E)
    ensures
        step(s, Event::<E>::FrameReceived { room, frame: Ok(None) }) == (
            ConnState { read_closed: true, ..s },
            Reaction::<E>::Read(ReadNext::Ready(Seq::empty())),
        ),
        step(s, Event::<E>::FrameReceived { room, frame: Err(SocketError::WouldBlock) }) == (
            s,
            Reaction::<E>::Read(ReadNext::Pending),
        ),
        step(s, Event::<E>::FrameReceived { room, frame: Err(SocketError::Failed(error)) }) == (
            s,
            Reaction::<E>::Read(ReadNext::Failed(ConnError::Socket(error))),
        ),
{
}

/// An operation that flushes on its way goes on whether the flush is done or has
/// to wait, and stops only where it fails.  A read then asks for a frame, or
/// begins again after it has answered; a write then sends its bytes.
pub proof fn law_flushes_on_the_way<E>(
    s: ConnState,
    room: nat,
    data: Seq<u8>,
    outcome: Result<(), SocketError<E>>,
)
    ensures
        ({
            let flushed = ConnState { flush_pending: s.flush_pending && outcome is Err, ..s };
            let read = step(s, Event::<E>::ReadFlushed { outcome });
            let reply = step(s, Event::<E>::ReplyFlushed { room, outcome });
            let write = step(s, Event::<E>::WriteFlushed { data, outcome });
            match outcome {
                Err(SocketError::Failed(error)) => {
                    let failure = ConnError::Socket(error);
                    &&& read == (s, Reaction::<E>::Read(ReadNext::Failed(failure)))
                    &&& reply == (s, Reaction::<E>::Read(ReadNext::Failed(failure)))
                    &&& write == (s, Reaction::<E>::Write(WriteNext::Failed(failure)))
                },
                _ => {
                    &&& read == (
                        flushed,
                        Reaction::<E>::Read(ReadNext::ReadFrame(s.max_frame_size)),
                    )
                    &&& reply == step(flushed, Event::<E>::Read { room })
                    &&& write.0 == flushed
                    &&& write.1 matches Reaction::Write(WriteNext::Queue(frame))
                    &&& is_whole(frame, OpCode::Data(Data::Binary), data)
                },
            }
        }),
{
    assert(ConnState { flush_pending: s.flush_pending, ..s } == s);
}

/// A frame that the socket has taken, at once or for later, has to be flushed; a
/// frame that it has not taken ends the operation with the socket's error.
/// Nothing else changes.  A write that is done reports all its bytes.
pub proof fn law_frames_that_were_written<E>(
    s: ConnState,
    count: usize,
    outcome: Result<(), SocketError<E>>,
)
    ensures
        ({
            let queued = ConnState { flush_pending: true, ..s };
            let reply = step(s, Event::<E>::ReplyWritten { outcome });
            let message = step(s, Event::<E>::MessageWritten { count, outcome });
            let close = step(s, Event::<E>::CloseWritten { outcome });
            match outcome {
                Err(SocketError::Failed(error)) => {
                    let failure = ConnError::Socket(error);
                    &&& reply == (s, Reaction::<E>::Read(ReadNext::Failed(failure)))
                    &&& message == (s, Reaction::<E>::Write(WriteNext::Failed(failure)))
                    &&& close == (s, Reaction::<E>::Flush(FlushNext::Failed(failure)))
                },
                _ => {
                    &&& reply == (queued, Reaction::<E>::Read(ReadNext::FlushReply))
                    &&& message == (queued, Reaction::<E>::Write(WriteNext::Ready(count)))
                    &&& close == (queued, Reaction::<E>::Flush(FlushNext::Flush))
                },
            }
        }),
{
}

/// A write is never done before its bytes have been sent: it is done at once
/// only if there are none.  It fails at once exactly if nothing may be sent any
/// more; otherwise what may be left is flushed, or the bytes are sent as one
/// whole binary message.
pub proof fn law_writes_send_their_bytes<E>(s: ConnState, data: Seq<u8>)
    ensures
        step(s, Event::<E>::Write { data }).0 == s,
        match step(s, Event::<E>::Write { data }).1 {
            Reaction::Write(WriteNext::Ready(count)) => count == 0 && data.len() == 0,
            Reaction::Write(WriteNext::Failed(error)) => {
                &&& error is Closed
                &&& data.len() > 0
                &&& s.write_closed
            },
            Reaction::Write(WriteNext::Flush) => {
                &&& data.len() > 0
                &&& !s.write_closed
                &&& s.flush_pending
            },
            Reaction::Write(WriteNext::Queue(frame)) => {
                &&& data.len() > 0
                &&& !s.write_closed
                &&& !s.flush_pending
                &&& is_whole(frame, OpCode::Data(Data::Binary), data)
            },
            _ => false,
        },
{
}

/// A flush is done at once exactly if there is nothing to flush; otherwise it is
/// done, waits or fails as the socket does, and only success leaves nothing to
/// flush.
pub proof fn law_flushes<E>(s: ConnState, outcome: Result<(), SocketError<E>>)
    ensures
        step(s, Event::<E>::Flush) == (
            s,
            Reaction::<E>::Flush(
                if s.flush_pending {
                    FlushNext::Flush
                } else {
                    FlushNext::Ready
                },
            ),
        ),
        step(s, Event::<E>::Flushed { outcome }) == match outcome {
            Ok(_) => (
                ConnState { flush_pending: false, ..s },
                Reaction::<E>::Flush(FlushNext::Ready),
            ),
            Err(SocketError::WouldBlock) => (s, Reaction::<E>::Flush(FlushNext::Pending)),
            Err(SocketError::Failed(error)) => (
                s,
                Reaction::<E>::Flush(FlushNext::Failed(ConnError::Socket(error))),
            ),
        },
{
}

/// A shutdown closes the writing side, whatever the state was, and sends a close
/// exactly if that side was open; where it was closed before, the shutdown is a
/// flush.  It changes nothing else.
pub proof fn law_shutdowns_close_writing<E>(s: ConnState)
    ensures
        ({
            let (after, reaction) = step(s, Event::<E>::Shutdown);
            &&& after == (ConnState { write_closed: true, ..s })
            &&& !s.write_closed ==> {
                &&& reaction matches Reaction::Flush(FlushNext::Queue(frame))
                &&& is_whole(frame, OpCode::Control(Control::Close), Seq::empty())
            }
            &&& s.write_closed ==> reaction == step(s, Event::<E>::Flush).1
        }),
{
    assert(s.write_closed ==> ConnState { write_closed: true, ..s } == s);
}

/// Writing is closed by a shutdown and by the peer's close, and by nothing else.
pub proof fn law_what_closes_writing<E>(s: ConnState, event: Event<E>)
    requires
        !s.write_closed,
    ensures
        step(s, event).0.write_closed <==> match event {
            Event::Shutdown => true,
            Event::FrameReceived { frame: Ok(Some(frame)), .. } => is_sound(frame)
                && frame.header.opcode == OpCode::Control(Control::Close),
            _ => false,
        },
{
}

/// Once writing is closed it stays so, whatever calls are made, and every write
/// of bytes fails.
pub proof fn law_nothing_is_written_after_the_close<E>(
    s: ConnState,
    events: Seq<Event<E>>,
    data: Seq<u8>,
)
    requires
        s.write_closed,
        data.len() > 0,
    ensures
        state_after(s, events).write_closed,
        step(state_after(s, events), Event::<E>::Write { data }) == (
            state_after(s, events),
            Reaction::<E>::Write(WriteNext::Failed(ConnError::Closed)),
        ),
    decreases events.len(),
{
    if events.len() > 0 {
        law_nothing_is_written_after_the_close(
            step(s, events.first()).0,
            events.drop_first(),
            data,
        );
    }
}

/// A shutdown that is done means that a close was sent, that the socket has
/// taken it and that it was flushed: there is no other way from an open writing
/// side to the end of the shutdown.
pub proof fn law_shutdowns_end_with_the_close_flushed<E>(
    s: ConnState,
    written: Result<(), SocketError<E>>,
    flushed: Result<(), SocketError<E>>,
)
    requires
        !s.write_closed,
    ensures
        ({
            let (closing, first) = step(s, Event::<E>::Shutdown);
            let (queued, second) = step(closing, Event::CloseWritten { outcome: written });
            let (done, third) = step(queued, Event::Flushed { outcome: flushed });
            &&& first matches Reaction::Flush(FlushNext::Queue(frame))
            &&& is_whole(frame, OpCode::Control(Control::Close), Seq::empty())
            &&& second is Flush
            &&& second != Reaction::<E>::Flush(FlushNext::Ready)
            &&& second == Reaction::<E>::Flush(FlushNext::Flush) <==> (written is Ok || written
                == Err::<(), _>(SocketError::<E>::WouldBlock))
            &&& third == Reaction::<E>::Flush(FlushNext::Ready) <==> flushed is Ok
            &&& flushed is Ok ==> done.write_closed && !done.flush_pending
        }),
{
}

/// The bytes of the write that is under way after a call, if they were `data`
/// before it.
pub open spec fn underway<E>(data: Seq<u8>, event: Event<E>) -> Seq<u8> {
    match event {
        Event::Write { data: begun } => begun,
        _ => data,
    }
}

/// Whether the reports to a write speak of the bytes that it began with.  `data`
/// are those of the write that is under way when the session begins.
pub open spec fn keeps_to<E>(data: Seq<u8>, events: Seq<Event<E>>) -> bool
    decreases events.len(),
{
    events.len() > 0 ==> {
        &&& match events.first() {
            Event::WriteFlushed { data: same, .. } => same == data,
            Event::MessageWritten { count, .. } => count == data.len(),
            _ => true,
        }
        &&& keeps_to(underway(data, events.first()), events.drop_first())
    }
}

/// All bytes of which writes report, by being done, that they were taken.
pub open spec fn bytes_reported<E>(s: ConnState, data: Seq<u8>, events: Seq<Event<E>>) -> Seq<u8>
    decreases events.len(),
{
    if events.len() == 0 {
        Seq::empty()
    } else {
        let (after, reaction) = step(s, events.first());
        let now = underway(data, events.first());
        let reported = match reaction {
            Reaction::Write(WriteNext::Ready(count)) => now.take(count as int),
            _ => Seq::empty(),
        };
        reported + bytes_reported(after, now, events.drop_first())
    }
}

/// All messages that writes have sent and the socket has taken.
pub open spec fn messages_taken<E>(
    s: ConnState,
    before: Option<Reaction<E>>,
    events: Seq<Event<E>>,
) -> Seq<FrameView>
    decreases events.len(),
{
    if events.len() == 0 {
        Seq::empty()
    } else {
        let (after, reaction) = step(s, events.first());
        let taken = match (before, events.first()) {
            (
                Some(Reaction::Write(WriteNext::Queue(frame))),
                Event::MessageWritten { outcome, .. },
            ) => match outcome {
                Err(SocketError::Failed(_)) => Seq::empty(),
                _ => seq![frame],
            },
            _ => Seq::empty(),
        };
        taken + messages_taken(after, Some(reaction), events.drop_first())
    }
}

proof fn lemma_reported_bytes<E>(
    s: ConnState,
    before: Option<Reaction<E>>,
    data: Seq<u8>,
    events: Seq<Event<E>>,
)
    requires
        driven(s, before, events),
        keeps_to(data, events),
        before matches Some(Reaction::Write(WriteNext::Queue(frame))) ==> is_whole(
            frame,
            OpCode::Data(Data::Binary),
            data,
        ),
    ensures
        bytes_reported(s, data, events) == data_payloads(messages_taken(s, before, events)),
        forall|i: int|
            0 <= i < messages_taken(s, before, events).len() ==> is_whole(
                #[trigger] messages_taken(s, before, events)[i],
                OpCode::Data(Data::Binary),
                messages_taken(s, before, events)[i].payload,
            ),
    decreases events.len(),
{
    if events.len() > 0 {
        let event = events.first();
        let rest = events.drop_first();
        let (after, reaction) = step(s, event);
        let now = underway(data, event);
        let frames = messages_taken(s, before, events);
        let later = messages_taken(after, Some(reaction), rest);
        lemma_reported_bytes(after, Some(reaction), now, rest);
        match event {
            Event::MessageWritten { count, outcome } => {
                let frame = before->Some_0->Write_0->Queue_0;
                match outcome {
                    Err(SocketError::Failed(_)) => {
                        assert(frames =~= later);
                    },
                    _ => {
                        assert(frames =~= seq![frame] + later);
                        assert(frames.first() == frame);
                        assert(frames.drop_first() =~= later);
                        assert(now.take(count as int) =~= data);
                    },
                }
            },
            _ => {
                assert(frames =~= later);
            },
        }
        assert(bytes_reported(s, data, events) =~= data_payloads(frames));
        assert forall|i: int| 0 <= i < frames.len() implies is_whole(
            #[trigger] frames[i],
            OpCode::Data(Data::Binary),
            frames[i].payload,
        ) by {
            if frames.len() > later.len() && i > 0 {
                assert(frames[i] == later[i - 1]);
            }
        }
    }
}

/// What writes report as taken has been sent: over every session of a driver
/// that keeps to the bytes of each write, the bytes that were reported, one
/// write after the other, are the payloads of the messages that the socket has
/// taken, each of them a whole binary message.
pub proof fn law_reported_bytes_were_sent<E>(s: ConnState, events: Seq<Event<E>>)
    requires
        driven(s, None, events),
        keeps_to(Seq::empty(), events),
    ensures
        bytes_reported(s, Seq::empty(), events) == data_payloads(messages_taken(s, None, events)),
        forall|i: int|
            0 <= i < messages_taken(s, None, events).len() ==> is_whole(
                #[trigger] messages_taken(s, None, events)[i],
                OpCode::Data(Data::Binary),
                messages_taken(s, None, events)[i].payload,
            ),
{
    lemma_reported_bytes(s, None, Seq::empty(), events);
}

/// A frame is valid exactly if it has the shape that a frame from a server must
/// have; it does not matter what the connection is doing.
pub proof fn law_validation(
    conn: WebsocketConn,
    other: WebsocketConn,
    frame: Frame,
    result: Result<(), ProtocolError>,
    again: Result<(), ProtocolError>,
)
    requires
        call_ensures(WebsocketConn::validate_frame, (&conn, &frame), result),
        call_ensures(WebsocketConn::validate_frame, (&other, &frame), again),
    ensures
        result == again,
        result is Ok <==> is_sound(FrameView { header: frame.header, payload: frame.payload@ }),
        result == Err::<(), _>(ProtocolError::NonZeroReservedBits) <==> frame.header.rsv1
            || frame.header.rsv2 || frame.header.rsv3,
        frame.header.mask is None ==> result != Err::<(), _>(ProtocolError::MaskedFrameFromServer),
        result == Err::<(), _>(ProtocolError::FragmentedControlFrame) ==> !frame.header.is_final,
        result == Err::<(), _>(ProtocolError::ControlFrameTooBig) ==> frame.header.is_final
            && frame.payload@.len() > 125,
{
}

/// A data frame gives its whole payload, and the next frame continues its
/// message exactly if it is not final; one that has no place gives an error and
/// changes nothing; a control frame gives nothing and changes nothing.
pub proof fn law_data_frames_give_their_payload<E>(
    conn: &mut WebsocketConn,
    frame: Frame,
    result: Result<Option<Vec<u8>>, ConnError<E>>,
)
    requires
        call_ensures(WebsocketConn::handle_data_frame::<E>, (conn, frame), result),
    ensures
        ({
            let s = old(conn)@;
            let next = is_next(s, FrameView { header: frame.header, payload: frame.payload@ });
            match result {
                Ok(Some(payload)) => {
                    &&& next
                    &&& payload@ == frame.payload@
                    &&& final(conn)@ == (ConnState {
                        continuation_expected: !frame.header.is_final,
                        ..s
                    })
                },
                Ok(None) => frame.header.opcode is Control && final(conn)@ == s,
                Err(_) => frame.header.opcode is Data && !next && final(conn)@ == s,
            }
        }),
{
}

/// A control frame is answered by its kind alone, whatever it carries: a ping by
/// a pong with the same payload, a close by a close, both only while something
/// may be sent, a pong by nothing, and any other kind by an error.  Only a close
/// changes the connection: it closes both sides.
pub proof fn law_control_frames_are_answered<E>(
    conn: &mut WebsocketConn,
    frame: Frame,
    result: Result<Option<Frame>, ConnError<E>>,
)
    requires
        frame.header.opcode is Control,
        call_ensures(WebsocketConn::handle_control_frame::<E>, (conn, frame), result),
    ensures
        ({
            let s = old(conn)@;
            let silent = result is Ok && result->Ok_0 is None;
            let answered = |opcode: OpCode, payload: Seq<u8>|
                {
                    &&& result matches Ok(Some(reply))
                    &&& is_whole(
                        FrameView { header: reply.header, payload: reply.payload@ },
                        opcode,
                        payload,
                    )
                };
            match frame.header.opcode {
                OpCode::Control(Control::Ping) => {
                    &&& final(conn)@ == s
                    &&& if s.write_closed {
                        silent
                    } else {
                        answered(OpCode::Control(Control::Pong), frame.payload@)
                    }
                },
                OpCode::Control(Control::Close) => {
                    &&& final(conn)@ == (ConnState { read_closed: true, write_closed: true, ..s })
                    &&& if s.write_closed {
                        silent
                    } else {
                        answered(OpCode::Control(Control::Close), Seq::empty())
                    }
                },
                OpCode::Control(Control::Reserved(code)) => {
                    &&& final(conn)@ == s
                    &&& result matches Err(error)
                    &&& error == ConnError::<E>::Protocol(
                        ProtocolError::UnknownControlFrameType(code),
                    )
                },
                _ => silent && final(conn)@ == s,
            }
        }),
{
}

/// To take note of a flush or of a frame that was written touches nothing but
/// what is left to flush: success of a flush clears it, a frame that the socket
/// has taken sets it, and a failure is passed on and leaves it alone.
pub proof fn law_notes_of_the_socket<E>(
    flushing: &mut WebsocketConn,
    queueing: &mut WebsocketConn,
    outcome: Result<(), SocketError<E>>,
    flushed: Result<(), ConnError<E>>,
    queued: Result<(), ConnError<E>>,
)
    requires
        call_ensures(WebsocketConn::try_flush_socket::<E>, (flushing, outcome), flushed),
        call_ensures(WebsocketConn::frame_queued::<E>, (queueing, outcome), queued),
    ensures
        flushed == queued,
        flushed == match outcome {
            Err(SocketError::Failed(error)) => Err(ConnError::Socket(error)),
            _ => Ok(()),
        },
        final(flushing)@ == (ConnState {
            flush_pending: old(flushing)@.flush_pending && outcome is Err,
            ..old(flushing)@
        }),
        final(queueing)@ == (ConnState {
            flush_pending: old(queueing)@.flush_pending || flushed is Ok,
            ..old(queueing)@
        }),
{
}

} // verus!
