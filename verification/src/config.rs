//! How a WebSocket connection is tuned.

use tokio_tungstenite::tungstenite::protocol;
use vstd::prelude::*;

verus! {

/// The read buffer of a connection that nobody configured.
pub const DEFAULT_WS_READ_BUFFER_SIZE: usize = 64 * 1024;

/// The write buffer of a connection that nobody configured.
pub const DEFAULT_WS_WRITE_BUFFER_SIZE: usize = 8 * 1024;

/// The limit to that write buffer.
pub const DEFAULT_WS_MAX_WRITE_BUFFER_SIZE: usize = 1024 * 1024;

/// The longest message that a connection accepts that nobody configured.
pub const DEFAULT_WS_MAX_MESSAGE_SIZE: usize = 64 * 1024 * 1024;

/// The longest frame that such a connection accepts.
pub const DEFAULT_WS_MAX_FRAME_SIZE: usize = 16 * 1024 * 1024;

/// How a WebSocket connection is tuned.
#[derive(Debug, Clone, Copy, PartialEq, Eq)]
pub struct WebSocketConfig {
    /// The capacity of the read buffer.
    pub read_buffer_size: usize,
    /// How full the write buffer gets before it is written out.
    pub write_buffer_size: usize,
    /// The limit to the write buffer.
    pub max_write_buffer_size: usize,
    /// The longest message that is accepted; `None` means any.
    pub max_message_size: Option<usize>,
    /// The longest payload of a frame that is accepted; `None` means any.
    pub max_frame_size: Option<usize>,
    /// Whether a server accepts frames without a mask.
    pub accept_unmasked_frames: bool,
}

/// The configuration that the crate `tungstenite` starts from.
pub open spec fn tungstenite_defaults() -> WebSocketConfig {
    WebSocketConfig {
        read_buffer_size: (128 * 1024) as usize,
        write_buffer_size: (128 * 1024) as usize,
        max_write_buffer_size: usize::MAX,
        max_message_size: Some((64 * 1024 * 1024) as usize),
        max_frame_size: Some((16 * 1024 * 1024) as usize),
        accept_unmasked_frames: false,
    }
}

/// The configuration of a connection that nobody configured.
pub open spec fn transport_defaults() -> WebSocketConfig {
    WebSocketConfig {
        read_buffer_size: DEFAULT_WS_READ_BUFFER_SIZE,
        write_buffer_size: DEFAULT_WS_WRITE_BUFFER_SIZE,
        max_write_buffer_size: DEFAULT_WS_MAX_WRITE_BUFFER_SIZE,
        max_message_size: Some(DEFAULT_WS_MAX_MESSAGE_SIZE),
        max_frame_size: Some(DEFAULT_WS_MAX_FRAME_SIZE),
        accept_unmasked_frames: false,
    }
}

impl WebSocketConfig {
    /// Whether a frame can be queued at all: `tungstenite` refuses a
    /// configuration whose write buffer may not outgrow the size at which it is
    /// written out.
    pub open spec fn valid(self) -> bool {
        self.max_write_buffer_size > self.write_buffer_size
    }
}

/// `WebSocketConfig::default` of the crate `tungstenite`, field by field, with
/// the values that its source gives.
#[verifier::external_body]
fn tungstenite_config() -> (config: WebSocketConfig)
    ensures
        config == tungstenite_defaults(),
{
    let config = protocol::WebSocketConfig::default();
    WebSocketConfig {
        read_buffer_size: config.read_buffer_size,
        write_buffer_size: config.write_buffer_size,
        max_write_buffer_size: config.max_write_buffer_size,
        max_message_size: config.max_message_size,
        max_frame_size: config.max_frame_size,
        accept_unmasked_frames: config.accept_unmasked_frames,
    }
}

impl Default for WebSocketConfig {
    fn default() -> (config: Self)
        ensures
            config == tungstenite_defaults(),
    {
        tungstenite_config()
    }
}

/// The configuration of a connection that nobody configured: smaller buffers
/// than `tungstenite` starts from, and a limit to the write buffer.
pub fn default_ws_config() -> (config: WebSocketConfig)
    ensures
        config == transport_defaults(),
{
    let mut config = WebSocketConfig::default();
    config.read_buffer_size = DEFAULT_WS_READ_BUFFER_SIZE;
    config.write_buffer_size = DEFAULT_WS_WRITE_BUFFER_SIZE;
    config.max_write_buffer_size = DEFAULT_WS_MAX_WRITE_BUFFER_SIZE;
    config.max_message_size = Some(DEFAULT_WS_MAX_MESSAGE_SIZE);
    config.max_frame_size = Some(DEFAULT_WS_MAX_FRAME_SIZE);
    config.accept_unmasked_frames = false;
    config
}

/// Both configurations that a connection can get without being given one are
/// valid, and both put the same limits on what the peer may send.
pub proof fn law_defaults_are_valid()
    ensures
        tungstenite_defaults().valid(),
        transport_defaults().valid(),
        transport_defaults().max_message_size == tungstenite_defaults().max_message_size,
        transport_defaults().max_frame_size == tungstenite_defaults().max_frame_size,
{
}

/// What a connection gets that nobody configured, in bytes.
pub proof fn law_default_sizes(config: WebSocketConfig)
    requires
        call_ensures(default_ws_config, (), config),
    ensures
        config.read_buffer_size == 65_536,
        config.write_buffer_size == 8_192,
        config.max_write_buffer_size == 1_048_576,
        config.max_message_size == Some(67_108_864usize),
        config.max_frame_size == Some(16_777_216usize),
        !config.accept_unmasked_frames,
{
}

} // verus!
