use clash_ws::config::{default_ws_config, WebSocketConfig};
use clash_ws::socket::{as_blocking, as_polled, Polled, SocketError};
use tokio_tungstenite::tungstenite::protocol;

#[test]
fn transport_defaults_have_their_sizes() {
    let config = default_ws_config();
    assert_eq!(config.read_buffer_size, 65_536);
    assert_eq!(config.write_buffer_size, 8_192);
    assert_eq!(config.max_write_buffer_size, 1_048_576);
    assert_eq!(config.max_message_size, Some(67_108_864));
    assert_eq!(config.max_frame_size, Some(16_777_216));
    assert!(!config.accept_unmasked_frames);
}

#[test]
fn default_config_is_that_of_tungstenite() {
    let ours = WebSocketConfig::default();
    let theirs = protocol::WebSocketConfig::default();
    assert_eq!(ours.read_buffer_size, theirs.read_buffer_size);
    assert_eq!(ours.write_buffer_size, theirs.write_buffer_size);
    assert_eq!(ours.max_write_buffer_size, theirs.max_write_buffer_size);
    assert_eq!(ours.max_message_size, theirs.max_message_size);
    assert_eq!(ours.max_frame_size, theirs.max_frame_size);
    assert_eq!(ours.accept_unmasked_frames, theirs.accept_unmasked_frames);
    assert_eq!(ours.read_buffer_size, 131_072);
    assert_eq!(ours.max_write_buffer_size, usize::MAX);
    assert_eq!(ours.max_frame_size, Some(16_777_216));
}

#[test]
fn both_default_configs_are_valid() {
    for config in [default_ws_config(), WebSocketConfig::default()] {
        assert!(config.max_write_buffer_size > config.write_buffer_size);
    }
}

#[test]
fn waiting_becomes_an_error_and_back() {
    assert_eq!(as_blocking::<u8, &str>(Polled::Pending), Err(SocketError::WouldBlock));
    assert_eq!(as_blocking::<u8, &str>(Polled::Ready(Ok(7))), Ok(7));
    assert_eq!(
        as_blocking::<u8, &str>(Polled::Ready(Err("reset"))),
        Err(SocketError::Failed("reset"))
    );
    assert_eq!(as_polled::<u8, &str>(Err(SocketError::WouldBlock)), Polled::Pending);
    assert_eq!(as_polled::<u8, &str>(Ok(7)), Polled::Ready(Ok(7)));
    assert_eq!(
        as_polled::<u8, &str>(Err(SocketError::Failed("reset"))),
        Polled::Ready(Err("reset"))
    );
}
