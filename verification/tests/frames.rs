use clash_ws::frame::{Control, Data, Frame, FrameHeader, OpCode};
use tokio_tungstenite::tungstenite::protocol::frame::coding;
use tokio_tungstenite::tungstenite::protocol::frame::Frame as WireFrame;

fn same_shape(ours: &Frame, theirs: &WireFrame) {
    assert_eq!(ours.header.is_final, theirs.header().is_final);
    assert_eq!(ours.header.rsv1, theirs.header().rsv1);
    assert_eq!(ours.header.rsv2, theirs.header().rsv2);
    assert_eq!(ours.header.rsv3, theirs.header().rsv3);
    assert_eq!(ours.header.mask, theirs.header().mask);
    assert_eq!(ours.payload.as_slice(), theirs.payload());
}

#[test]
fn frames_are_those_of_tungstenite() {
    let ours = Frame::message(vec![1, 2, 3], OpCode::Data(Data::Binary), true);
    let theirs =
        WireFrame::message(vec![1, 2, 3], coding::OpCode::Data(coding::Data::Binary), true);
    same_shape(&ours, &theirs);
    assert_eq!(ours.header.opcode, OpCode::Data(Data::Binary));
    assert_eq!(theirs.header().opcode, coding::OpCode::Data(coding::Data::Binary));

    let ours = Frame::message(vec![4], OpCode::Data(Data::Continue), false);
    let theirs =
        WireFrame::message(vec![4], coding::OpCode::Data(coding::Data::Continue), false);
    same_shape(&ours, &theirs);

    let ours = Frame::pong(vec![9, 9]);
    let theirs = WireFrame::pong(vec![9, 9]);
    same_shape(&ours, &theirs);
    assert_eq!(ours.header.opcode, OpCode::Control(Control::Pong));
    assert_eq!(theirs.header().opcode, coding::OpCode::Control(coding::Control::Pong));

    let ours = Frame::close();
    let theirs = WireFrame::close(None);
    same_shape(&ours, &theirs);
    assert_eq!(ours.header.opcode, OpCode::Control(Control::Close));
    assert_eq!(theirs.header().opcode, coding::OpCode::Control(coding::Control::Close));
}

#[test]
fn a_mask_changes_nothing_but_the_mask() {
    let frame = Frame::pong(vec![5, 6]).with_mask([1, 2, 3, 4]);
    assert_eq!(
        frame,
        Frame {
            header: FrameHeader {
                is_final: true,
                rsv1: false,
                rsv2: false,
                rsv3: false,
                opcode: OpCode::Control(Control::Pong),
                mask: Some([1, 2, 3, 4]),
            },
            payload: vec![5, 6],
        }
    );
}

#[test]
fn random_masks_differ() {
    let masks: Vec<_> = (0..16).map(|_| Frame::close().with_random_mask().header.mask).collect();
    assert!(masks.iter().all(|mask| mask.is_some()));
    assert!(masks.iter().any(|mask| *mask != masks[0]));
}
