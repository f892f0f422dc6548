//! WebSocket frames as the connection sees them: a header and a payload.

use vstd::prelude::*;

verus! {

/// The kinds of data frame.
#[derive(Debug, Clone, Copy, PartialEq, Eq)]
pub enum Data {
    /// The next fragment of a message that an earlier frame began.
    Continue,
    /// The first fragment of a text message.
    Text,
    /// The first fragment of a binary message.
    Binary,
    /// An operation code that no revision of the protocol has given a meaning.
    Reserved(u8),
}

/// The kinds of control frame.
#[derive(Debug, Clone, Copy, PartialEq, Eq)]
pub enum Control {
    /// The peer is about to stop sending.
    Close,
    /// A question that asks for a pong.
    Ping,
    /// The answer to a ping.
    Pong,
    /// An operation code that no revision of the protocol has given a meaning.
    Reserved(u8),
}

/// What a frame is for.
#[derive(Debug, Clone, Copy, PartialEq, Eq)]
pub enum OpCode {
    /// The frame carries a part of a message.
    Data(Data),
    /// The frame concerns the connection itself.
    Control(Control),
}

/// Everything about a frame but its payload.
#[derive(Debug, Clone, Copy, PartialEq, Eq)]
pub struct FrameHeader {
    /// Whether this frame is the last one of its message.
    pub is_final: bool,
    /// The first reserved bit.
    pub rsv1: bool,
    /// The second reserved bit.
    pub rsv2: bool,
    /// The third reserved bit.
    pub rsv3: bool,
    /// What the frame is for.
    pub opcode: OpCode,
    /// The key that the payload is masked with on the wire, if it is.
    pub mask: Option<[u8; 4]>,
}

/// A frame, its payload in the clear.
#[derive(Debug, PartialEq, Eq)]
pub struct Frame {
    /// The header.
    pub header: FrameHeader,
    /// The payload.
    pub payload: Vec<u8>,
}

/// The mathematical value of a [`Frame`].
#[verifier::ext_equal]
pub struct FrameView {
    /// The header.
    pub header: FrameHeader,
    /// The bytes of the payload.
    pub payload: Seq<u8>,
}

impl View for Frame {
    type V = FrameView;

    open spec fn view(&self) -> FrameView {
        FrameView { header: self.header, payload: self.payload@ }
    }
}

/// The header of a frame that stands alone: final, without reserved bits and
/// without a mask.
pub open spec fn plain_header(opcode: OpCode) -> FrameHeader {
    FrameHeader { is_final: true, rsv1: false, rsv2: false, rsv3: false, opcode, mask: None }
}

/// The frame that carries `payload` as a whole binary message.
pub open spec fn message_frame(payload: Seq<u8>) -> FrameView {
    FrameView { header: plain_header(OpCode::Data(Data::Binary)), payload }
}

/// The frame that answers a ping whose payload was `payload`.
pub open spec fn pong_frame(payload: Seq<u8>) -> FrameView {
    FrameView { header: plain_header(OpCode::Control(Control::Pong)), payload }
}

/// The close frame that gives no reason.
pub open spec fn close_frame() -> FrameView {
    FrameView { header: plain_header(OpCode::Control(Control::Close)), payload: Seq::empty() }
}

/// `frame`, to be masked on the wire with `mask`.
pub open spec fn masked_with(frame: FrameView, mask: [u8; 4]) -> FrameView {
    FrameView {
        header: FrameHeader { mask: Some(mask), ..frame.header },
        payload: frame.payload,
    }
}

/// `frame` without its mask.
pub open spec fn unmasked(frame: FrameView) -> FrameView {
    FrameView { header: FrameHeader { mask: None, ..frame.header }, payload: frame.payload }
}

impl FrameView {
    /// Whether any of the three reserved bits is set.
    pub open spec fn has_reserved_bits(self) -> bool {
        self.header.rsv1 || self.header.rsv2 || self.header.rsv3
    }

    /// Whether this is a close frame.
    pub open spec fn is_close(self) -> bool {
        self.header.opcode == OpCode::Control(Control::Close)
    }

    /// Whether this is a data frame.
    pub open spec fn is_data(self) -> bool {
        self.header.opcode is Data
    }
}

/// The header of a frame that stands alone.
fn standalone(opcode: OpCode) -> (header: FrameHeader)
    ensures
        header == plain_header(opcode),
{
    FrameHeader { is_final: true, rsv1: false, rsv2: false, rsv3: false, opcode, mask: None }
}

impl Frame {
    /// A data frame that begins with no reserved bits and no mask.
    pub fn message(payload: Vec<u8>, opcode: OpCode, is_final: bool) -> (frame: Frame)
        requires
            opcode is Data,
        ensures
            frame@.payload == payload@,
            frame@.header == (FrameHeader { is_final, ..plain_header(opcode) }),
    {
        let mut header = standalone(opcode);
        header.is_final = is_final;
        Frame { header, payload }
    }

    /// The frame that answers a ping whose payload was `payload`.
    pub fn pong(payload: Vec<u8>) -> (frame: Frame)
        ensures
            frame@ == pong_frame(payload@),
    {
        Frame { header: standalone(OpCode::Control(Control::Pong)), payload }
    }

    /// The close frame that gives no reason.
    pub fn close() -> (frame: Frame)
        ensures
            frame@ == close_frame(),
    {
        Frame { header: standalone(OpCode::Control(Control::Close)), payload: Vec::new() }
    }

    /// This frame, to be masked on the wire with `mask`.
    pub fn with_mask(self, mask: [u8; 4]) -> (frame: Frame)
        ensures
            frame@ == masked_with(self@, mask),
    {
        let mut header = self.header;
        header.mask = Some(mask);
        Frame { header, payload: self.payload }
    }

    /// This frame, to be masked on the wire with a key drawn at random.
    ///
    /// A client masks every frame that it sends, each with a fresh key.
    pub fn with_random_mask(self) -> (frame: Frame)
        ensures
            exists|mask: [u8; 4]| frame@ == #[trigger] masked_with(self@, mask),
    {
        let mask = random_mask();
        self.with_mask(mask)
    }
}

/// A masking key from `rand::random`.  Any four bytes may come back, so nothing
/// is claimed of them.
#[verifier::external_body]
fn random_mask() -> (mask: [u8; 4]) {
    rand::random()
}

/// A new frame holds the payload that it was given and nothing else: no reserved
/// bit is set and it has no mask.  Pongs and closes are final; a close has no
/// payload.
pub proof fn law_new_frames_are_plain(
    payload: Vec<u8>,
    opcode: OpCode,
    is_final: bool,
    message: Frame,
    pong: Frame,
    close: Frame,
)
    requires
        call_ensures(Frame::message, (payload, opcode, is_final), message),
        call_ensures(Frame::pong, (payload,), pong),
        call_ensures(Frame::close, (), close),
    ensures
        message.payload@ == payload@,
        message.header.opcode == opcode,
        message.header.is_final == is_final,
        pong.payload@ == payload@,
        pong.header.opcode == OpCode::Control(Control::Pong),
        pong.header.is_final,
        close.payload@.len() == 0,
        close.header.opcode == OpCode::Control(Control::Close),
        close.header.is_final,
        forall|frame: Frame|
            frame == message || frame == pong || frame == close ==> {
                &&& !(#[trigger] frame.header).rsv1
                &&& !frame.header.rsv2
                &&& !frame.header.rsv3
                &&& frame.header.mask is None
            },
{
}

/// The frames that a connection speaks of are a whole binary message, a pong and
/// a close without a reason, all of them plain.
pub proof fn law_named_frames(payload: Seq<u8>)
    ensures
        message_frame(payload).payload == payload,
        message_frame(payload).header.opcode == OpCode::Data(Data::Binary),
        pong_frame(payload).payload == payload,
        pong_frame(payload).header.opcode == OpCode::Control(Control::Pong),
        close_frame().payload.len() == 0,
        close_frame().header.opcode == OpCode::Control(Control::Close),
        forall|frame: FrameView|
            frame == message_frame(payload) || frame == pong_frame(payload) || frame
                == close_frame() ==> {
                &&& (#[trigger] frame.header).is_final
                &&& !frame.header.rsv1
                &&& !frame.header.rsv2
                &&& !frame.header.rsv3
                &&& frame.header.mask is None
            },
{
}

/// A mask is the only thing that masking changes, and the only thing that is
/// left aside where masks are: two frames are the same without their masks
/// exactly if they differ in nothing else.
pub proof fn law_masking_changes_the_mask_alone(frame: Frame, mask: [u8; 4], masked: Frame)
    requires
        call_ensures(Frame::with_mask, (frame, mask), masked) || (call_ensures(
            Frame::with_random_mask,
            (frame,),
            masked,
        ) && masked.header.mask == Some(mask)),
    ensures
        masked.header.mask == Some(mask),
        masked.payload@ == frame.payload@,
        masked.header == (FrameHeader { mask: Some(mask), ..frame.header }),
        unmasked(masked@) == unmasked(frame@),
        unmasked(frame@).header == (FrameHeader { mask: None, ..frame.header }),
        unmasked(frame@).payload == frame.payload@,
{
}

/// A frame always gets a mask where one is drawn at random.
pub proof fn law_random_masks_are_there(frame: Frame, masked: Frame)
    requires
        call_ensures(Frame::with_random_mask, (frame,), masked),
    ensures
        masked.header.mask is Some,
{
}

} // verus!
