use clash_ws::config::WebSocketConfig;
use clash_ws::conn::{FlushAction, ReadAction, WebsocketConn, WriteAction};
use clash_ws::error::{ConnError, ProtocolError};
use clash_ws::frame::{Control, Data, Frame, FrameHeader, OpCode};
use clash_ws::socket::SocketError;

type Failure = &'static str;
type Read = ReadAction<Failure>;
type Write = WriteAction<Failure>;
type Flush = FlushAction<Failure>;

const LIMIT: Option<usize> = Some(16_777_216);

fn fresh() -> WebsocketConn {
    WebsocketConn::client(Vec::new(), None).0
}

fn frame(opcode: OpCode, is_final: bool, payload: &[u8]) -> Frame {
    Frame {
        header: FrameHeader { is_final, rsv1: false, rsv2: false, rsv3: false, opcode, mask: None },
        payload: payload.to_vec(),
    }
}

fn binary(payload: &[u8]) -> Frame {
    frame(OpCode::Data(Data::Binary), true, payload)
}

/// Begins a read and hands it the frame that it asks for.
fn receive(conn: &mut WebsocketConn, room: usize, frame: Frame) -> Read {
    assert_eq!(conn.poll_read::<Failure>(room), ReadAction::ReadFrame(LIMIT));
    conn.frame_received(room, Ok(Some(frame)))
}

fn refused(frame: Frame) -> ConnError<Failure> {
    match receive(&mut fresh(), 8, frame) {
        ReadAction::Failed(error) => error,
        other => panic!("{other:?}"),
    }
}

fn unmask(mut frame: Frame) -> Frame {
    assert!(frame.header.mask.is_some());
    frame.header.mask = None;
    frame
}

#[test]
fn a_fresh_connection_reads_frames_and_writes_at_once() {
    let mut conn = fresh();
    assert_eq!(conn.poll_read::<Failure>(1), ReadAction::ReadFrame(LIMIT));
    assert_eq!(conn.poll_flush::<Failure>(), FlushAction::Ready);
    match conn.poll_write::<Failure>(&[1, 2]) {
        WriteAction::Queue(frame) => assert_eq!(unmask(frame), binary(&[1, 2])),
        other => panic!("{other:?}"),
    }
}

#[test]
fn the_configured_frame_limit_is_handed_to_the_socket() {
    let mut config = WebSocketConfig::default();
    config.max_frame_size = Some(10);
    let (mut conn, _) = WebsocketConn::client(Vec::new(), Some(config));
    assert_eq!(conn.poll_read::<Failure>(1), ReadAction::ReadFrame(Some(10)));
    config.max_frame_size = None;
    let (mut conn, _) = WebsocketConn::from_raw_stream(Vec::new(), config);
    assert_eq!(conn.poll_read::<Failure>(1), ReadAction::ReadFrame(None));
}

#[test]
fn a_tail_comes_back_unless_it_is_empty() {
    assert_eq!(WebsocketConn::client(vec![1, 2], None).1, Some(vec![1, 2]));
    assert_eq!(WebsocketConn::client(Vec::new(), None).1, None);
}

#[test]
fn a_read_takes_what_it_has_room_for() {
    let mut conn = fresh();
    assert_eq!(receive(&mut conn, 3, binary(b"hello")), ReadAction::Ready(b"hel".to_vec()));
    assert_eq!(conn.poll_read::<Failure>(1), ReadAction::Ready(b"l".to_vec()));
    assert_eq!(conn.poll_read::<Failure>(9), ReadAction::Ready(b"o".to_vec()));
    assert_eq!(conn.poll_read::<Failure>(9), ReadAction::ReadFrame(LIMIT));
}

#[test]
fn a_read_without_room_does_nothing() {
    let mut conn = fresh();
    assert_eq!(conn.poll_read::<Failure>(0), ReadAction::Ready(Vec::new()));
    assert_eq!(receive(&mut conn, 1, binary(b"ab")), ReadAction::Ready(b"a".to_vec()));
    assert_eq!(conn.poll_read::<Failure>(0), ReadAction::Ready(Vec::new()));
    assert_eq!(conn.poll_read::<Failure>(5), ReadAction::Ready(b"b".to_vec()));
}

#[test]
fn empty_payloads_are_passed_over() {
    let mut conn = fresh();
    assert_eq!(receive(&mut conn, 4, binary(b"")), ReadAction::ReadFrame(LIMIT));
}

#[test]
fn fragments_make_up_one_stream() {
    let mut conn = fresh();
    let first = frame(OpCode::Data(Data::Binary), false, b"ab");
    assert_eq!(receive(&mut conn, 8, first), ReadAction::Ready(b"ab".to_vec()));
    let ping = frame(OpCode::Control(Control::Pong), true, b"");
    assert_eq!(receive(&mut conn, 8, ping), ReadAction::ReadFrame(LIMIT));
    let second = frame(OpCode::Data(Data::Continue), false, b"cd");
    assert_eq!(receive(&mut conn, 8, second), ReadAction::Ready(b"cd".to_vec()));
    let last = frame(OpCode::Data(Data::Continue), true, b"e");
    assert_eq!(receive(&mut conn, 8, last), ReadAction::Ready(b"e".to_vec()));
    assert_eq!(receive(&mut conn, 8, binary(b"f")), ReadAction::Ready(b"f".to_vec()));
}

#[test]
fn a_continuation_needs_an_open_message() {
    let stray = frame(OpCode::Data(Data::Continue), true, b"x");
    assert_eq!(refused(stray), ConnError::Protocol(ProtocolError::UnexpectedContinueFrame));
}

#[test]
fn an_open_message_needs_a_continuation() {
    let mut conn = fresh();
    let first = frame(OpCode::Data(Data::Binary), false, b"ab");
    assert_eq!(receive(&mut conn, 8, first), ReadAction::Ready(b"ab".to_vec()));
    assert_eq!(
        receive(&mut conn, 8, binary(b"x")),
        ReadAction::Failed(ConnError::Protocol(ProtocolError::ExpectedFragment(Data::Binary)))
    );
    let last = frame(OpCode::Data(Data::Continue), true, b"c");
    assert_eq!(receive(&mut conn, 8, last), ReadAction::Ready(b"c".to_vec()));
}

#[test]
fn text_and_reserved_data_are_refused() {
    let text = frame(OpCode::Data(Data::Text), true, b"x");
    let error = refused(text);
    assert_eq!(error, ConnError::InvalidMessageType);
    assert_eq!(error.message(), Some("ws invalid message type"));
    let reserved = frame(OpCode::Data(Data::Reserved(5)), true, b"x");
    let error = refused(reserved);
    assert_eq!(error, ConnError::Protocol(ProtocolError::UnknownDataFrameType(5)));
    assert_eq!(error.message(), None);
}

#[test]
fn reserved_bits_and_masks_are_refused() {
    for bit in 0..3 {
        let mut bad = binary(b"x");
        bad.header.rsv1 = bit == 0;
        bad.header.rsv2 = bit == 1;
        bad.header.rsv3 = bit == 2;
        assert_eq!(refused(bad), ConnError::Protocol(ProtocolError::NonZeroReservedBits));
    }
    let masked = binary(b"x").with_mask([0, 0, 0, 0]);
    assert_eq!(refused(masked), ConnError::Protocol(ProtocolError::MaskedFrameFromServer));
    let mut both = binary(b"x").with_mask([0, 0, 0, 0]);
    both.header.rsv1 = true;
    assert_eq!(refused(both), ConnError::Protocol(ProtocolError::NonZeroReservedBits));
}

#[test]
fn control_frames_are_short_and_whole() {
    let cut = frame(OpCode::Control(Control::Ping), false, b"");
    assert_eq!(refused(cut), ConnError::Protocol(ProtocolError::FragmentedControlFrame));
    let long = frame(OpCode::Control(Control::Ping), true, &[0; 126]);
    assert_eq!(refused(long), ConnError::Protocol(ProtocolError::ControlFrameTooBig));
    let fits = frame(OpCode::Control(Control::Ping), true, &[0; 125]);
    assert!(fresh().validate_frame(&fits).is_ok());
    let data = frame(OpCode::Data(Data::Binary), false, &[0; 126]);
    assert!(fresh().validate_frame(&data).is_ok());
    let reserved = frame(OpCode::Control(Control::Reserved(12)), true, b"");
    assert_eq!(refused(reserved), ConnError::Protocol(ProtocolError::UnknownControlFrameType(12)));
}

#[test]
fn a_ping_is_echoed() {
    let mut conn = fresh();
    match receive(&mut conn, 8, frame(OpCode::Control(Control::Ping), true, b"hey")) {
        ReadAction::Queue(reply) => assert_eq!(unmask(reply), Frame::pong(b"hey".to_vec())),
        other => panic!("{other:?}"),
    }
    assert_eq!(conn.reply_written::<Failure>(Ok(())), ReadAction::FlushReply);
    assert_eq!(conn.reply_flushed::<Failure>(8, Ok(())), ReadAction::ReadFrame(LIMIT));
}

#[test]
fn an_echo_that_has_to_wait_is_flushed_later() {
    let mut conn = fresh();
    let _ = receive(&mut conn, 8, frame(OpCode::Control(Control::Ping), true, b"hey"));
    let wait = Err(SocketError::WouldBlock);
    assert_eq!(conn.reply_written::<Failure>(wait), ReadAction::FlushReply);
    let wait = Err(SocketError::WouldBlock);
    assert_eq!(conn.reply_flushed::<Failure>(8, wait), ReadAction::Flush);
    let wait = Err(SocketError::WouldBlock);
    assert_eq!(conn.read_flushed::<Failure>(wait), ReadAction::ReadFrame(LIMIT));
    assert_eq!(
        conn.frame_received::<Failure>(8, Err(SocketError::WouldBlock)),
        ReadAction::Pending
    );
    assert_eq!(conn.poll_read::<Failure>(8), ReadAction::Flush);
    assert_eq!(conn.read_flushed::<Failure>(Ok(())), ReadAction::ReadFrame(LIMIT));
    assert_eq!(conn.poll_flush::<Failure>(), FlushAction::Ready);
}

#[test]
fn a_close_is_answered_and_ends_both_sides() {
    let mut conn = fresh();
    match receive(&mut conn, 8, frame(OpCode::Control(Control::Close), true, b"")) {
        ReadAction::Queue(reply) => assert_eq!(unmask(reply), Frame::close()),
        other => panic!("{other:?}"),
    }
    assert_eq!(conn.reply_written::<Failure>(Ok(())), ReadAction::FlushReply);
    assert_eq!(conn.reply_flushed::<Failure>(8, Ok(())), ReadAction::Ready(Vec::new()));
    assert_eq!(conn.poll_read::<Failure>(8), ReadAction::Ready(Vec::new()));
    assert_eq!(conn.poll_read::<Failure>(8), ReadAction::Ready(Vec::new()));
    assert_eq!(conn.poll_write::<Failure>(b"x"), WriteAction::Failed(ConnError::Closed));
    assert_eq!(conn.poll_shutdown::<Failure>(), FlushAction::Ready);
}

#[test]
fn nothing_is_sent_after_a_close() {
    let mut conn = fresh();
    match conn.poll_shutdown::<Failure>() {
        FlushAction::Queue(frame) => assert_eq!(unmask(frame), Frame::close()),
        other => panic!("{other:?}"),
    }
    assert_eq!(conn.close_written::<Failure>(Ok(())), FlushAction::Flush);
    assert_eq!(conn.poll_flush_socket::<Failure>(Ok(())), FlushAction::Ready);
    let ping = frame(OpCode::Control(Control::Ping), true, b"hey");
    assert_eq!(receive(&mut conn, 8, ping), ReadAction::ReadFrame(LIMIT));
    let close = frame(OpCode::Control(Control::Close), true, b"");
    assert_eq!(conn.frame_received::<Failure>(8, Ok(Some(close))), ReadAction::Ready(Vec::new()));
    let error = match conn.poll_write::<Failure>(b"x") {
        WriteAction::Failed(error) => error,
        other => panic!("{other:?}"),
    };
    assert_eq!(error, ConnError::Closed);
    assert_eq!(error.message(), Some("ws closed"));
    assert_eq!(conn.poll_write::<Failure>(b""), WriteAction::Ready(0));
    assert_eq!(conn.poll_shutdown::<Failure>(), FlushAction::Ready);
}

#[test]
fn the_end_of_the_socket_ends_the_stream() {
    let mut conn = fresh();
    assert_eq!(conn.poll_read::<Failure>(4), ReadAction::ReadFrame(LIMIT));
    assert_eq!(conn.frame_received::<Failure>(4, Ok(None)), ReadAction::Ready(Vec::new()));
    assert_eq!(conn.poll_read::<Failure>(4), ReadAction::Ready(Vec::new()));
    assert!(matches!(conn.poll_write::<Failure>(b"x"), WriteAction::Queue(_)));
}

#[test]
fn waiting_bytes_survive_the_end_of_the_stream() {
    let mut conn = fresh();
    assert_eq!(receive(&mut conn, 1, binary(b"ab")), ReadAction::Ready(b"a".to_vec()));
    assert!(matches!(conn.poll_shutdown::<Failure>(), FlushAction::Queue(_)));
    assert_eq!(conn.poll_read::<Failure>(4), ReadAction::Ready(b"b".to_vec()));
}

#[test]
fn socket_errors_end_an_operation() {
    let failed = || Err(SocketError::Failed("reset"));
    let error: fn() -> ConnError<Failure> = || ConnError::Socket("reset");
    assert_eq!(error().message(), None);
    let mut conn = fresh();
    assert_eq!(conn.read_flushed(failed()), Read::Failed(error()));
    assert_eq!(
        conn.frame_received::<Failure>(4, Err(SocketError::Failed("reset"))),
        Read::Failed(error())
    );
    assert_eq!(conn.reply_written(failed()), Read::Failed(error()));
    assert_eq!(conn.reply_flushed(4, failed()), Read::Failed(error()));
    assert_eq!(conn.write_flushed(b"x", failed()), Write::Failed(error()));
    assert_eq!(conn.message_written(1, failed()), Write::Failed(error()));
    assert_eq!(conn.poll_flush_socket(failed()), Flush::Failed(error()));
    assert_eq!(conn.close_written(failed()), Flush::Failed(error()));
    assert_eq!(conn.poll_flush::<Failure>(), FlushAction::Ready);
}

#[test]
fn a_write_flushes_what_came_before_it() {
    let mut conn = fresh();
    assert!(matches!(conn.poll_write::<Failure>(b"one"), WriteAction::Queue(_)));
    assert_eq!(conn.message_written::<Failure>(3, Ok(())), WriteAction::Ready(3));
    assert_eq!(conn.poll_write::<Failure>(b"two"), WriteAction::Flush);
    match conn.write_flushed::<Failure>(b"two", Err(SocketError::WouldBlock)) {
        WriteAction::Queue(frame) => assert_eq!(unmask(frame), binary(b"two")),
        other => panic!("{other:?}"),
    }
    assert_eq!(
        conn.message_written::<Failure>(3, Err(SocketError::WouldBlock)),
        WriteAction::Ready(3)
    );
    assert_eq!(conn.poll_flush::<Failure>(), FlushAction::Flush);
    assert_eq!(
        conn.poll_flush_socket::<Failure>(Err(SocketError::WouldBlock)),
        FlushAction::Pending
    );
    assert_eq!(conn.poll_flush_socket::<Failure>(Ok(())), FlushAction::Ready);
    assert_eq!(conn.poll_flush::<Failure>(), FlushAction::Ready);
}

#[test]
fn written_bytes_are_read_back() {
    let mut writer = fresh();
    let mut reader = fresh();
    let mut read = Vec::new();
    for data in [&b"first"[..], &b"second, and longer"[..], &b"x"[..]] {
        let action = match writer.poll_write::<Failure>(data) {
            WriteAction::Flush => writer.write_flushed::<Failure>(data, Ok(())),
            other => other,
        };
        let sent = match action {
            WriteAction::Queue(frame) => unmask(frame),
            other => panic!("{other:?}"),
        };
        assert_eq!(
            writer.message_written::<Failure>(data.len(), Ok(())),
            WriteAction::Ready(data.len())
        );
        let mut action = receive(&mut reader, 4, sent);
        while let ReadAction::Ready(bytes) = action {
            assert!(bytes.len() <= 4);
            read.extend_from_slice(&bytes);
            action = reader.poll_read::<Failure>(4);
        }
    }
    assert_eq!(read, b"firstsecond, and longerx".to_vec());
}

#[test]
fn data_and_control_frames_can_be_handled_alone() {
    let mut conn = fresh();
    let pong = frame(OpCode::Control(Control::Pong), true, b"");
    assert_eq!(conn.handle_data_frame::<Failure>(pong), Ok(None));
    assert_eq!(conn.handle_data_frame::<Failure>(binary(b"ab")), Ok(Some(b"ab".to_vec())));
    let ping = frame(OpCode::Control(Control::Ping), true, b"q");
    assert_eq!(conn.handle_control_frame::<Failure>(ping), Ok(Some(Frame::pong(b"q".to_vec()))));
    let pong = frame(OpCode::Control(Control::Pong), true, b"");
    assert_eq!(conn.handle_control_frame::<Failure>(pong), Ok(None));
}

#[test]
fn debug_shows_every_flag() {
    assert_eq!(
        format!("{:?}", fresh()),
        "WebsocketConn { read_buffer: b\"\", flush_pending: false, read_closed: false, \
         write_closed: false, continuation_expected: false, max_frame_size: Some(16777216) }"
    );
}

#[test]
fn frames_are_asked_for_only_while_no_bytes_wait() {
    let mut conn = fresh();
    assert_eq!(receive(&mut conn, 2, binary(&[1, 2, 3])), ReadAction::Ready(vec![1, 2]));
    assert_eq!(conn.poll_read::<Failure>(2), ReadAction::Ready(vec![3]));
    let ping = frame(OpCode::Control(Control::Ping), true, &[7]);
    assert!(matches!(receive(&mut conn, 2, ping), ReadAction::Queue(_)));
    assert_eq!(conn.reply_written::<Failure>(Ok(())), ReadAction::FlushReply);
    let waiting = conn.reply_flushed::<Failure>(2, Err(SocketError::WouldBlock));
    assert_eq!(waiting, ReadAction::Flush);
    assert_eq!(conn.read_flushed::<Failure>(Ok(())), ReadAction::ReadFrame(LIMIT));
    let next = conn.frame_received::<Failure>(2, Ok(Some(binary(&[4]))));
    assert_eq!(next, ReadAction::Ready(vec![4]));
}

#[test]
fn nothing_waits_behind_the_end_of_the_stream() {
    let mut conn = fresh();
    assert_eq!(receive(&mut conn, 1, binary(&[1, 2])), ReadAction::Ready(vec![1]));
    assert_eq!(conn.poll_read::<Failure>(1), ReadAction::Ready(vec![2]));
    let close = frame(OpCode::Control(Control::Close), true, &[]);
    assert!(matches!(receive(&mut conn, 1, close), ReadAction::Queue(_)));
    assert_eq!(conn.reply_written::<Failure>(Ok(())), ReadAction::FlushReply);
    assert_eq!(conn.reply_flushed::<Failure>(1, Ok(())), ReadAction::Ready(vec![]));
    assert_eq!(conn.poll_flush::<Failure>(), FlushAction::Ready);
    assert_eq!(conn.poll_shutdown::<Failure>(), FlushAction::Ready);
    for room in [0, 1, 9] {
        assert_eq!(conn.poll_read::<Failure>(room), ReadAction::Ready(vec![]));
    }
}
