//! A WebSocket connection that carries a stream of bytes.
//!
//! Bytes travel in binary messages.  On the way in, the payloads of data frames
//! are handed to the reader in order; what the reader has no room for waits in a
//! buffer.  On the way out, each write becomes one frame.  Pings are answered
//! and a close is answered with a close, all while the stream is being read.
//!
//! [`WebsocketConn`] decides; it never touches the socket.  Each operation of
//! the stream is a method that returns the next thing to do.  Where that is to
//! be done on the socket, the driver does it and reports the outcome to the
//! method that the action names, until an action ends the operation.

use bytes::BytesMut;
use vstd::pervasive::unreached;
use vstd::prelude::*;
use vstd::slice::slice_to_vec;

use crate::buffer::{buffer_extend, buffer_len, buffer_split_to, bytes_in, new_buffer};
use crate::config::{tungstenite_defaults, WebSocketConfig};
use crate::error::{ConnError, ProtocolError};
use crate::frame::{
    close_frame, message_frame, pong_frame, unmasked, Control, Data, Frame, FrameView, OpCode,
};
use crate::socket::{as_polled, polling_view, Polled, SocketError};

verus! {

/// The longest payload that a control frame may have.
pub const MAX_CONTROL_PAYLOAD: usize = 125;

/// A WebSocket connection, but for its socket.
#[derive(Debug)]
pub struct WebsocketConn {
    read_buffer: BytesMut,
    flush_pending: bool,
    read_closed: bool,
    write_closed: bool,
    continuation_expected: bool,
    max_frame_size: Option<usize>,
}

/// The mathematical value of a [`WebsocketConn`].
#[verifier::ext_equal]
pub struct ConnState {
    /// The bytes that were received and wait for the reader.
    pub buffer: Seq<u8>,
    /// Whether frames were queued that may not have reached the peer.
    pub flush_pending: bool,
    /// Whether the peer will send nothing more.
    pub read_closed: bool,
    /// Whether nothing more may be sent.
    pub write_closed: bool,
    /// Whether a message is open: its last frame has not been received.
    pub continuation_expected: bool,
    /// The longest payload of a frame that is accepted.
    pub max_frame_size: Option<usize>,
}

impl View for WebsocketConn {
    type V = ConnState;

    closed spec fn view(&self) -> ConnState {
        ConnState {
            buffer: bytes_in(self.read_buffer),
            flush_pending: self.flush_pending,
            read_closed: self.read_closed,
            write_closed: self.write_closed,
            continuation_expected: self.continuation_expected,
            max_frame_size: self.max_frame_size,
        }
    }
}

/// The next thing to do for a read.
#[derive(Debug, PartialEq, Eq)]
pub enum ReadAction<E> {
    /// Hand these bytes to the reader; the read is done.  No bytes where some
    /// were asked for means that the stream has ended.
    Ready(Vec<u8>),
    /// The read has failed.
    Failed(ConnError<E>),
    /// The read has to wait.
    Pending,
    /// Flush the socket and report to [`WebsocketConn::read_flushed`].
    Flush,
    /// Read a frame, of no more than the given length where one is given, and
    /// report to [`WebsocketConn::frame_received`].
    ReadFrame(Option<usize>),
    /// Write this frame to the socket and report to
    /// [`WebsocketConn::reply_written`].
    Queue(Frame),
    /// Flush the socket and report to [`WebsocketConn::reply_flushed`].
    FlushReply,
}

/// The mathematical value of a [`ReadAction`].  Masks are left out of it: they
/// are drawn at random.
#[verifier::ext_equal]
pub enum ReadNext<E> {
    /// The read is done, with these bytes.
    Ready(Seq<u8>),
    /// The read has failed.
    Failed(ConnError<E>),
    /// The read has to wait.
    Pending,
    /// The socket is to be flushed before a frame is read.
    Flush,
    /// A frame is to be read.
    ReadFrame(Option<usize>),
    /// This frame is to be sent.
    Queue(FrameView),
    /// The socket is to be flushed after a frame was sent.
    FlushReply,
}

impl<E> View for ReadAction<E> {
    type V = ReadNext<E>;

    open spec fn view(&self) -> ReadNext<E> {
        match *self {
            ReadAction::Ready(bytes) => ReadNext::Ready(bytes@),
            ReadAction::Failed(error) => ReadNext::Failed(error),
            ReadAction::Pending => ReadNext::Pending,
            ReadAction::Flush => ReadNext::Flush,
            ReadAction::ReadFrame(limit) => ReadNext::ReadFrame(limit),
            ReadAction::Queue(frame) => ReadNext::Queue(unmasked(frame@)),
            ReadAction::FlushReply => ReadNext::FlushReply,
        }
    }
}

impl<E> ReadAction<E> {
    /// Whether a frame that is to be sent has a mask.
    pub open spec fn masks_its_frame(self) -> bool {
        self matches ReadAction::Queue(frame) ==> frame.header.mask is Some
    }
}

/// The next thing to do for a write.
#[derive(Debug, PartialEq, Eq)]
pub enum WriteAction<E> {
    /// So many bytes were taken; the write is done.
    Ready(usize),
    /// The write has failed.
    Failed(ConnError<E>),
    /// Flush the socket and report to [`WebsocketConn::write_flushed`].
    Flush,
    /// Write this frame to the socket and report to
    /// [`WebsocketConn::message_written`].
    Queue(Frame),
}

/// The mathematical value of a [`WriteAction`], without masks.
#[verifier::ext_equal]
pub enum WriteNext<E> {
    /// The write is done, with so many bytes.
    Ready(usize),
    /// The write has failed.
    Failed(ConnError<E>),
    /// The socket is to be flushed before the frame is sent.
    Flush,
    /// This frame is to be sent.
    Queue(FrameView),
}

impl<E> View for WriteAction<E> {
    type V = WriteNext<E>;

    open spec fn view(&self) -> WriteNext<E> {
        match *self {
            WriteAction::Ready(count) => WriteNext::Ready(count),
            WriteAction::Failed(error) => WriteNext::Failed(error),
            WriteAction::Flush => WriteNext::Flush,
            WriteAction::Queue(frame) => WriteNext::Queue(unmasked(frame@)),
        }
    }
}

impl<E> WriteAction<E> {
    /// Whether a frame that is to be sent has a mask.
    pub open spec fn masks_its_frame(self) -> bool {
        self matches WriteAction::Queue(frame) ==> frame.header.mask is Some
    }
}

/// The next thing to do for a flush or a shutdown.
#[derive(Debug, PartialEq, Eq)]
pub enum FlushAction<E> {
    /// The operation is done.
    Ready,
    /// The operation has failed.
    Failed(ConnError<E>),
    /// The operation has to wait.
    Pending,
    /// Flush the socket and report to [`WebsocketConn::poll_flush_socket`].
    Flush,
    /// Write this frame to the socket and report to
    /// [`WebsocketConn::close_written`].
    Queue(Frame),
}

/// The mathematical value of a [`FlushAction`], without masks.
#[verifier::ext_equal]
pub enum FlushNext<E> {
    /// The operation is done.
    Ready,
    /// The operation has failed.
    Failed(ConnError<E>),
    /// The operation has to wait.
    Pending,
    /// The socket is to be flushed.
    Flush,
    /// This frame is to be sent.
    Queue(FrameView),
}

impl<E> View for FlushAction<E> {
    type V = FlushNext<E>;

    open spec fn view(&self) -> FlushNext<E> {
        match *self {
            FlushAction::Ready => FlushNext::Ready,
            FlushAction::Failed(error) => FlushNext::Failed(error),
            FlushAction::Pending => FlushNext::Pending,
            FlushAction::Flush => FlushNext::Flush,
            FlushAction::Queue(frame) => FlushNext::Queue(unmasked(frame@)),
        }
    }
}

impl<E> FlushAction<E> {
    /// Whether a frame that is to be sent has a mask.
    pub open spec fn masks_its_frame(self) -> bool {
        self matches FlushAction::Queue(frame) ==> frame.header.mask is Some
    }
}

/// The smaller of two lengths.
pub open spec fn smaller(a: nat, b: nat) -> nat {
    if a <= b {
        a
    } else {
        b
    }
}

/// What is wrong with a frame on its own, whatever came before it.
pub open spec fn frame_fault(frame: FrameView) -> Option<ProtocolError> {
    if frame.has_reserved_bits() {
        Some(ProtocolError::NonZeroReservedBits)
    } else if frame.header.mask is Some {
        Some(ProtocolError::MaskedFrameFromServer)
    } else if frame.header.opcode is Control && !frame.header.is_final {
        Some(ProtocolError::FragmentedControlFrame)
    } else if frame.header.opcode is Control && frame.payload.len() > MAX_CONTROL_PAYLOAD {
        Some(ProtocolError::ControlFrameTooBig)
    } else {
        None
    }
}

/// What a flush of the socket means where the operation goes on without it.
pub open spec fn flush_effect<E>(s: ConnState, outcome: Result<(), SocketError<E>>) -> (
    ConnState,
    Result<(), ConnError<E>>,
) {
    match outcome {
        Ok(_) => (ConnState { flush_pending: false, ..s }, Ok(())),
        Err(SocketError::WouldBlock) => (s, Ok(())),
        Err(SocketError::Failed(error)) => (s, Err(ConnError::Socket(error))),
    }
}

/// What a flush of the socket means where the operation is that flush.
pub open spec fn flush_done<E>(s: ConnState, outcome: Result<(), SocketError<E>>) -> (
    ConnState,
    FlushNext<E>,
) {
    match polling_view(outcome) {
        Polled::Ready(Ok(_)) => (ConnState { flush_pending: false, ..s }, FlushNext::Ready),
        Polled::Ready(Err(error)) => (s, FlushNext::Failed(ConnError::Socket(error))),
        Polled::Pending => (s, FlushNext::Pending),
    }
}

/// What the writing of a frame to the socket means.  A frame that had to wait is
/// queued all the same and leaves with a later flush.
pub open spec fn written_effect<E>(s: ConnState, outcome: Result<(), SocketError<E>>) -> (
    ConnState,
    Result<(), ConnError<E>>,
) {
    match outcome {
        Ok(_) | Err(SocketError::WouldBlock) => (ConnState { flush_pending: true, ..s }, Ok(())),
        Err(SocketError::Failed(error)) => (s, Err(ConnError::Socket(error))),
    }
}

/// What a data frame means: the bytes in it, or what is wrong with it here.
pub open spec fn data_effect<E>(s: ConnState, frame: FrameView) -> (
    ConnState,
    Result<Option<Seq<u8>>, ConnError<E>>,
) {
    let open = ConnState { continuation_expected: !frame.header.is_final, ..s };
    match frame.header.opcode {
        OpCode::Data(Data::Binary) => if s.continuation_expected {
            (s, Err(ConnError::Protocol(ProtocolError::ExpectedFragment(Data::Binary))))
        } else {
            (open, Ok(Some(frame.payload)))
        },
        OpCode::Data(Data::Continue) => if s.continuation_expected {
            (open, Ok(Some(frame.payload)))
        } else {
            (s, Err(ConnError::Protocol(ProtocolError::UnexpectedContinueFrame)))
        },
        OpCode::Data(Data::Text) => (s, Err(ConnError::InvalidMessageType)),
        OpCode::Data(Data::Reserved(code)) => (
            s,
            Err(ConnError::Protocol(ProtocolError::UnknownDataFrameType(code))),
        ),
        OpCode::Control(_) => (s, Ok(None)),
    }
}

/// What a control frame means: the frame that answers it, if one does.
pub open spec fn control_effect<E>(s: ConnState, frame: FrameView) -> (
    ConnState,
    Result<Option<FrameView>, ConnError<E>>,
)
    recommends
        frame.header.opcode is Control,
{
    match frame.header.opcode {
        OpCode::Control(Control::Ping) => (
            s,
            Ok(
                if s.write_closed {
                    None
                } else {
                    Some(pong_frame(frame.payload))
                },
            ),
        ),
        OpCode::Control(Control::Close) => (
            ConnState { read_closed: true, write_closed: true, ..s },
            Ok(
                if s.write_closed {
                    None
                } else {
                    Some(close_frame())
                },
            ),
        ),
        OpCode::Control(Control::Reserved(code)) => (
            s,
            Err(ConnError::Protocol(ProtocolError::UnknownControlFrameType(code))),
        ),
        OpCode::Control(Control::Pong) | OpCode::Data(_) => (s, Ok(None)),
    }
}

/// How a read begins, and begins again after each frame that brought no bytes.
pub open spec fn read_effect<E>(s: ConnState, room: nat) -> (ConnState, ReadNext<E>) {
    if room == 0 {
        (s, ReadNext::Ready(Seq::empty()))
    } else if s.buffer.len() > 0 {
        let count = smaller(room, s.buffer.len()) as int;
        (
            ConnState { buffer: s.buffer.skip(count), ..s },
            ReadNext::Ready(s.buffer.take(count)),
        )
    } else if s.read_closed {
        (s, ReadNext::Ready(Seq::empty()))
    } else if s.flush_pending {
        (s, ReadNext::Flush)
    } else {
        (s, ReadNext::ReadFrame(s.max_frame_size))
    }
}

/// How a read goes on after the flush that comes before a frame is read.
pub open spec fn read_flushed_effect<E>(s: ConnState, outcome: Result<(), SocketError<E>>) -> (
    ConnState,
    ReadNext<E>,
) {
    let (after, result) = flush_effect(s, outcome);
    match result {
        Ok(_) => (after, ReadNext::ReadFrame(after.max_frame_size)),
        Err(error) => (after, ReadNext::Failed(error)),
    }
}

/// How a read goes on with a frame.
pub open spec fn frame_effect<E>(s: ConnState, room: nat, frame: FrameView) -> (
    ConnState,
    ReadNext<E>,
) {
    match frame_fault(frame) {
        Some(fault) => (s, ReadNext::Failed(ConnError::Protocol(fault))),
        None => if frame.header.opcode is Control {
            let (after, result) = control_effect::<E>(s, frame);
            match result {
                Ok(Some(reply)) => (after, ReadNext::Queue(reply)),
                Ok(None) => read_effect(after, room),
                Err(error) => (after, ReadNext::Failed(error)),
            }
        } else {
            let (after, result) = data_effect::<E>(s, frame);
            match result {
                Ok(Some(payload)) => if payload.len() == 0 {
                    read_effect(after, room)
                } else {
                    let count = smaller(room, payload.len()) as int;
                    (
                        ConnState { buffer: after.buffer + payload.skip(count), ..after },
                        ReadNext::Ready(payload.take(count)),
                    )
                },
                Ok(None) => read_effect(after, room),
                Err(error) => (after, ReadNext::Failed(error)),
            }
        },
    }
}

/// How a read goes on after a frame was asked for.  No frame means that the
/// peer's side of the connection has ended.
pub open spec fn received_effect<E>(
    s: ConnState,
    room: nat,
    outcome: Result<Option<FrameView>, SocketError<E>>,
) -> (ConnState, ReadNext<E>) {
    match polling_view(outcome) {
        Polled::Ready(Ok(Some(frame))) => frame_effect(s, room, frame),
        Polled::Ready(Ok(None)) => (
            ConnState { read_closed: true, ..s },
            ReadNext::Ready(Seq::empty()),
        ),
        Polled::Ready(Err(error)) => (s, ReadNext::Failed(ConnError::Socket(error))),
        Polled::Pending => (s, ReadNext::Pending),
    }
}

/// How a read goes on after an answer to a control frame was written.
pub open spec fn reply_written_effect<E>(s: ConnState, outcome: Result<(), SocketError<E>>) -> (
    ConnState,
    ReadNext<E>,
) {
    let (after, result) = written_effect(s, outcome);
    match result {
        Ok(_) => (after, ReadNext::FlushReply),
        Err(error) => (after, ReadNext::Failed(error)),
    }
}

/// How a read goes on after the flush that follows such an answer.
pub open spec fn reply_flushed_effect<E>(
    s: ConnState,
    room: nat,
    outcome: Result<(), SocketError<E>>,
) -> (ConnState, ReadNext<E>) {
    let (after, result) = flush_effect(s, outcome);
    match result {
        Ok(_) => read_effect(after, room),
        Err(error) => (after, ReadNext::Failed(error)),
    }
}

/// How a write of `data` begins.
pub open spec fn write_effect<E>(s: ConnState, data: Seq<u8>) -> WriteNext<E> {
    if data.len() == 0 {
        WriteNext::Ready(0)
    } else if s.write_closed {
        WriteNext::Failed(ConnError::Closed)
    } else if s.flush_pending {
        WriteNext::Flush
    } else {
        WriteNext::Queue(message_frame(data))
    }
}

/// How a write goes on after the flush that comes before its frame.
pub open spec fn write_flushed_effect<E>(
    s: ConnState,
    data: Seq<u8>,
    outcome: Result<(), SocketError<E>>,
) -> (ConnState, WriteNext<E>) {
    let (after, result) = flush_effect(s, outcome);
    match result {
        Ok(_) => (after, WriteNext::Queue(message_frame(data))),
        Err(error) => (after, WriteNext::Failed(error)),
    }
}

/// How a write of `count` bytes ends.
pub open spec fn message_written_effect<E>(
    s: ConnState,
    count: usize,
    outcome: Result<(), SocketError<E>>,
) -> (ConnState, WriteNext<E>) {
    let (after, result) = written_effect(s, outcome);
    match result {
        Ok(_) => (after, WriteNext::Ready(count)),
        Err(error) => (after, WriteNext::Failed(error)),
    }
}

/// How a flush begins.
pub open spec fn flush_start<E>(s: ConnState) -> FlushNext<E> {
    if s.flush_pending {
        FlushNext::Flush
    } else {
        FlushNext::Ready
    }
}

/// How a shutdown begins.
pub open spec fn shutdown_effect<E>(s: ConnState) -> (ConnState, FlushNext<E>) {
    if s.write_closed {
        (s, flush_start(s))
    } else {
        (ConnState { write_closed: true, ..s }, FlushNext::Queue(close_frame()))
    }
}

/// How a shutdown goes on after its close frame was written.
pub open spec fn close_written_effect<E>(s: ConnState, outcome: Result<(), SocketError<E>>) -> (
    ConnState,
    FlushNext<E>,
) {
    let (after, result) = written_effect(s, outcome);
    match result {
        Ok(_) => (after, flush_start(after)),
        Err(error) => (after, FlushNext::Failed(error)),
    }
}

/// What came of asking the socket for a frame, with the frame's mathematical
/// value.
pub open spec fn received_view<E>(outcome: Result<Option<Frame>, SocketError<E>>) -> Result<
    Option<FrameView>,
    SocketError<E>,
> {
    match outcome {
        Ok(Some(frame)) => Ok(Some(frame@)),
        Ok(None) => Ok(None),
        Err(error) => Err(error),
    }
}

/// The state of a connection whose handshake has just ended.
pub open spec fn fresh_state(config: WebSocketConfig) -> ConnState {
    ConnState {
        buffer: Seq::empty(),
        flush_pending: false,
        read_closed: false,
        write_closed: false,
        continuation_expected: false,
        max_frame_size: config.max_frame_size,
    }
}

impl WebsocketConn {
    /// The connection that a handshake has opened.  Without a configuration the
    /// defaults of `tungstenite` hold.
    ///
    /// `tail` is what the socket delivered behind the answer to the handshake.
    /// Where it is not empty it comes back, and is the beginning of what the
    /// frame codec has to read.
    pub fn client(tail: Vec<u8>, config: Option<WebSocketConfig>) -> (opened: (
        Self,
        Option<Vec<u8>>,
    ))
        ensures
            opened.0@ == fresh_state(
                match config {
                    Some(config) => config,
                    None => tungstenite_defaults(),
                },
            ),
            opened.1 == if tail@.len() == 0 {
                None
            } else {
                Some(tail)
            },
    {
        let config = match config {
            Some(config) => config,
            None => WebSocketConfig::default(),
        };
        Self::from_raw_stream(tail, config)
    }

    /// A connection over a stream of which `tail` has been read too far.
    pub fn from_raw_stream(tail: Vec<u8>, config: WebSocketConfig) -> (opened: (
        Self,
        Option<Vec<u8>>,
    ))
        ensures
            opened.0@ == fresh_state(config),
            opened.1 == if tail@.len() == 0 {
                None
            } else {
                Some(tail)
            },
    {
        let conn = WebsocketConn {
            read_buffer: new_buffer(),
            flush_pending: false,
            read_closed: false,
            write_closed: false,
            continuation_expected: false,
            max_frame_size: config.max_frame_size,
        };
        if tail.len() == 0 {
            (conn, None)
        } else {
            (conn, Some(tail))
        }
    }

    /// Takes note of a flush that the operation at hand does not wait for.
    pub fn try_flush_socket<E>(&mut self, outcome: Result<(), SocketError<E>>) -> (result: Result<
        (),
        ConnError<E>,
    >)
        ensures
            (final(self)@, result) == flush_effect(old(self)@, outcome),
    {
        match outcome {
            Ok(_) => {
                self.flush_pending = false;
                Ok(())
            },
            Err(SocketError::WouldBlock) => Ok(()),
            Err(SocketError::Failed(error)) => Err(ConnError::Socket(error)),
        }
    }

    /// Takes note of a flush that the operation at hand waits for.
    pub fn poll_flush_socket<E>(&mut self, outcome: Result<(), SocketError<E>>) -> (action:
        FlushAction<E>)
        ensures
            (final(self)@, action@) == flush_done(old(self)@, outcome),
    {
        match as_polled(outcome) {
            Polled::Ready(Ok(_)) => {
                self.flush_pending = false;
                FlushAction::Ready
            },
            Polled::Ready(Err(error)) => FlushAction::Failed(ConnError::Socket(error)),
            Polled::Pending => FlushAction::Pending,
        }
    }

    /// Takes note of a frame that was written to the socket.
    pub fn frame_queued<E>(&mut self, outcome: Result<(), SocketError<E>>) -> (result: Result<
        (),
        ConnError<E>,
    >)
        ensures
            (final(self)@, result) == written_effect(old(self)@, outcome),
    {
        match outcome {
            Ok(_) => {
                self.flush_pending = true;
                Ok(())
            },
            Err(SocketError::WouldBlock) => {
                self.flush_pending = true;
                Ok(())
            },
            Err(SocketError::Failed(error)) => Err(ConnError::Socket(error)),
        }
    }

    /// Whether a frame is one that a server may send, whatever came before it.
    pub fn validate_frame(&self, frame: &Frame) -> (result: Result<(), ProtocolError>)
        ensures
            result == match frame_fault(frame@) {
                Some(fault) => Err(fault),
                None => Ok(()),
            },
    {
        let header = &frame.header;
        if header.rsv1 || header.rsv2 || header.rsv3 {
            return Err(ProtocolError::NonZeroReservedBits);
        }
        if header.mask.is_some() {
            return Err(ProtocolError::MaskedFrameFromServer);
        }
        if let OpCode::Control(_) = header.opcode {
            if !header.is_final {
                return Err(ProtocolError::FragmentedControlFrame);
            }
            if frame.payload.len() > MAX_CONTROL_PAYLOAD {
                return Err(ProtocolError::ControlFrameTooBig);
            }
        }
        Ok(())
    }

    /// Takes a data frame: its payload belongs to the stream if the frame has
    /// its place in the sequence of messages.  A frame of another kind brings
    /// nothing.
    pub fn handle_data_frame<E>(&mut self, frame: Frame) -> (result: Result<
        Option<Vec<u8>>,
        ConnError<E>,
    >)
        ensures
            ({
                let (after, expected) = data_effect::<E>(old(self)@, frame@);
                &&& final(self)@ == after
                &&& match result {
                    Ok(Some(payload)) => expected == Ok::<_, ConnError<E>>(Some(payload@)),
                    Ok(None) => expected == Ok::<Option<Seq<u8>>, ConnError<E>>(None),
                    Err(error) => expected == Err::<Option<Seq<u8>>, _>(error),
                }
            }),
    {
        match frame.header.opcode {
            OpCode::Data(Data::Binary) => {
                if self.continuation_expected {
                    return Err(
                        ConnError::Protocol(ProtocolError::ExpectedFragment(Data::Binary)),
                    );
                }
                self.continuation_expected = !frame.header.is_final;
                Ok(Some(frame.payload))
            },
            OpCode::Data(Data::Continue) => {
                if !self.continuation_expected {
                    return Err(ConnError::Protocol(ProtocolError::UnexpectedContinueFrame));
                }
                self.continuation_expected = !frame.header.is_final;
                Ok(Some(frame.payload))
            },
            OpCode::Data(Data::Text) => Err(ConnError::InvalidMessageType),
            OpCode::Data(Data::Reserved(code)) => Err(
                ConnError::Protocol(ProtocolError::UnknownDataFrameType(code)),
            ),
            OpCode::Control(_) => Ok(None),
        }
    }

    /// Takes a control frame and gives the frame that answers it, if one does,
    /// before it is masked.
    pub fn handle_control_frame<E>(&mut self, frame: Frame) -> (result: Result<
        Option<Frame>,
        ConnError<E>,
    >)
        requires
            frame.header.opcode is Control,
        ensures
            ({
                let (after, expected) = control_effect::<E>(old(self)@, frame@);
                &&& final(self)@ == after
                &&& match result {
                    Ok(Some(reply)) => expected == Ok::<_, ConnError<E>>(Some(reply@)),
                    Ok(None) => expected == Ok::<Option<FrameView>, ConnError<E>>(None),
                    Err(error) => expected == Err::<Option<FrameView>, _>(error),
                }
            }),
    {
        match frame.header.opcode {
            OpCode::Control(Control::Ping) => {
                if self.write_closed {
                    Ok(None)
                } else {
                    Ok(Some(Frame::pong(frame.payload)))
                }
            },
            OpCode::Control(Control::Pong) => Ok(None),
            OpCode::Control(Control::Close) => {
                self.read_closed = true;
                if self.write_closed {
                    Ok(None)
                } else {
                    self.write_closed = true;
                    Ok(Some(Frame::close()))
                }
            },
            OpCode::Control(Control::Reserved(code)) => Err(
                ConnError::Protocol(ProtocolError::UnknownControlFrameType(code)),
            ),
            OpCode::Data(_) => unreached(),
        }
    }

    /// Begins a read of up to `room` bytes.
    pub fn poll_read<E>(&mut self, room: usize) -> (action: ReadAction<E>)
        ensures
            (final(self)@, action@) == read_effect::<E>(old(self)@, room as nat),
            action.masks_its_frame(),
    {
        if room == 0 {
            return ReadAction::Ready(Vec::new());
        }
        let held = buffer_len(&self.read_buffer);
        if held > 0 {
            let count = if room <= held {
                room
            } else {
                held
            };
            let bytes = buffer_split_to(&mut self.read_buffer, count);
            return ReadAction::Ready(bytes);
        }
        if self.read_closed {
            return ReadAction::Ready(Vec::new());
        }
        if self.flush_pending {
            ReadAction::Flush
        } else {
            ReadAction::ReadFrame(self.max_frame_size)
        }
    }

    /// Goes on with a read after [`ReadAction::Flush`].
    pub fn read_flushed<E>(&mut self, outcome: Result<(), SocketError<E>>) -> (action: ReadAction<
        E,
    >)
        ensures
            (final(self)@, action@) == read_flushed_effect(old(self)@, outcome),
            action.masks_its_frame(),
    {
        match self.try_flush_socket(outcome) {
            Ok(_) => ReadAction::ReadFrame(self.max_frame_size),
            Err(error) => ReadAction::Failed(error),
        }
    }

    /// Goes on with a read of up to `room` bytes after
    /// [`ReadAction::ReadFrame`], which is only asked for while no bytes wait.
    pub fn frame_received<E>(
        &mut self,
        room: usize,
        outcome: Result<Option<Frame>, SocketError<E>>,
    ) -> (action: ReadAction<E>)
        requires
            old(self)@.buffer.len() == 0,
        ensures
            (final(self)@, action@) == received_effect(
                old(self)@,
                room as nat,
                received_view(outcome),
            ),
            action.masks_its_frame(),
    {
        let frame = match as_polled(outcome) {
            Polled::Ready(Ok(Some(frame))) => frame,
            Polled::Ready(Ok(None)) => {
                self.read_closed = true;
                return ReadAction::Ready(Vec::new());
            },
            Polled::Ready(Err(error)) => return ReadAction::Failed(ConnError::Socket(error)),
            Polled::Pending => return ReadAction::Pending,
        };

        if let Err(fault) = self.validate_frame(&frame) {
            return ReadAction::Failed(ConnError::Protocol(fault));
        }

        match frame.header.opcode {
            OpCode::Control(_) => match self.handle_control_frame(frame) {
                Ok(Some(reply)) => ReadAction::Queue(reply.with_random_mask()),
                Ok(None) => self.poll_read(room),
                Err(error) => ReadAction::Failed(error),
            },
            OpCode::Data(_) => match self.handle_data_frame(frame) {
                Ok(Some(payload)) => {
                    if payload.len() == 0 {
                        return self.poll_read(room);
                    }
                    self.deliver(room, payload)
                },
                Ok(None) => self.poll_read(room),
                Err(error) => ReadAction::Failed(error),
            },
        }
    }

    /// Hands out as much of `payload` as there is room for and keeps the rest.
    fn deliver<E>(&mut self, room: usize, payload: Vec<u8>) -> (action: ReadAction<E>)
        requires
            old(self)@.buffer.len() == 0,
        ensures
            ({
                let count = smaller(room as nat, payload@.len()) as int;
                &&& final(self)@ == (ConnState {
                    buffer: old(self)@.buffer + payload@.skip(count),
                    ..old(self)@
                })
                &&& action@ == ReadNext::<E>::Ready(payload@.take(count))
                &&& action.masks_its_frame()
            }),
    {
        let mut head = payload;
        if room < head.len() {
            let rest = head.split_off(room);
            buffer_extend(&mut self.read_buffer, rest.as_slice());
        }
        ReadAction::Ready(head)
    }

    /// Goes on with a read after [`ReadAction::Queue`].
    pub fn reply_written<E>(&mut self, outcome: Result<(), SocketError<E>>) -> (action: ReadAction<
        E,
    >)
        ensures
            (final(self)@, action@) == reply_written_effect(old(self)@, outcome),
            action.masks_its_frame(),
    {
        match self.frame_queued(outcome) {
            Ok(_) => ReadAction::FlushReply,
            Err(error) => ReadAction::Failed(error),
        }
    }

    /// Goes on with a read of up to `room` bytes after
    /// [`ReadAction::FlushReply`].
    pub fn reply_flushed<E>(&mut self, room: usize, outcome: Result<(), SocketError<E>>) -> (action:
        ReadAction<E>)
        ensures
            (final(self)@, action@) == reply_flushed_effect(old(self)@, room as nat, outcome),
            action.masks_its_frame(),
    {
        match self.try_flush_socket(outcome) {
            Ok(_) => self.poll_read(room),
            Err(error) => ReadAction::Failed(error),
        }
    }

    /// Begins a write of `data`.
    pub fn poll_write<E>(&self, data: &[u8]) -> (action: WriteAction<E>)
        ensures
            action@ == write_effect::<E>(self@, data@),
            action.masks_its_frame(),
    {
        if data.len() == 0 {
            return WriteAction::Ready(0);
        }
        if self.write_closed {
            return WriteAction::Failed(ConnError::Closed);
        }
        if self.flush_pending {
            return WriteAction::Flush;
        }
        WriteAction::Queue(Self::message(data))
    }

    /// The frame that carries `data`, ready to be sent.
    fn message(data: &[u8]) -> (frame: Frame)
        ensures
            unmasked(frame@) == message_frame(data@),
            frame.header.mask is Some,
    {
        let frame = Frame::message(slice_to_vec(data), OpCode::Data(Data::Binary), true);
        frame.with_random_mask()
    }

    /// Goes on with a write of `data` after [`WriteAction::Flush`], which is
    /// only asked for while the connection may still be written to.
    pub fn write_flushed<E>(&mut self, data: &[u8], outcome: Result<(), SocketError<E>>) -> (action:
        WriteAction<E>)
        requires
            !old(self)@.write_closed,
        ensures
            (final(self)@, action@) == write_flushed_effect(old(self)@, data@, outcome),
            action.masks_its_frame(),
    {
        match self.try_flush_socket(outcome) {
            Ok(_) => WriteAction::Queue(Self::message(data)),
            Err(error) => WriteAction::Failed(error),
        }
    }

    /// Ends a write of `count` bytes after [`WriteAction::Queue`].
    pub fn message_written<E>(
        &mut self,
        count: usize,
        outcome: Result<(), SocketError<E>>,
    ) -> (action: WriteAction<E>)
        ensures
            (final(self)@, action@) == message_written_effect(old(self)@, count, outcome),
            action.masks_its_frame(),
    {
        match self.frame_queued(outcome) {
            Ok(_) => WriteAction::Ready(count),
            Err(error) => WriteAction::Failed(error),
        }
    }

    /// Begins a flush.
    pub fn poll_flush<E>(&self) -> (action: FlushAction<E>)
        ensures
            action@ == flush_start::<E>(self@),
            action.masks_its_frame(),
    {
        if self.flush_pending {
            FlushAction::Flush
        } else {
            FlushAction::Ready
        }
    }

    /// Begins a shutdown: nothing more may be written.
    pub fn poll_shutdown<E>(&mut self) -> (action: FlushAction<E>)
        ensures
            (final(self)@, action@) == shutdown_effect::<E>(old(self)@),
            action.masks_its_frame(),
    {
        if self.write_closed {
            self.poll_flush()
        } else {
            self.write_closed = true;
            FlushAction::Queue(Frame::close().with_random_mask())
        }
    }

    /// Goes on with a shutdown after [`FlushAction::Queue`].
    pub fn close_written<E>(&mut self, outcome: Result<(), SocketError<E>>) -> (action: FlushAction<
        E,
    >)
        ensures
            (final(self)@, action@) == close_written_effect(old(self)@, outcome),
            action.masks_its_frame(),
    {
        match self.frame_queued(outcome) {
            Ok(_) => self.poll_flush(),
            Err(error) => FlushAction::Failed(error),
        }
    }
}

} // verus!
