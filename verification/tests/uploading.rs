use ch57x_keyboard_tool::layout::{
    Binding, KeyAction, Keystroke, Layer, LayoutDocument, LayoutShape, Modifiers,
};
use ch57x_keyboard_tool::protocol::{
    UploadError, UploadSession, ACK_OK, CMD_BIND, CMD_COMMIT, FRAME_LEN, REPORT_ID, TARGET_KEY,
};
use ch57x_keyboard_tool::render::render;

fn plain(code: u8) -> KeyAction {
    KeyAction::Stroke(Keystroke {
        code,
        mods: Modifiers { ctrl: true, shift: false, alt: false, meta: false },
    })
}

fn small_doc() -> LayoutDocument {
    let shape = LayoutShape { rows: 1, columns: 2, knobs: 0 };
    let layer = Layer {
        bindings: vec![Binding { row: 0, column: 1, action: plain(5) }],
        knobs: vec![],
    };
    LayoutDocument { shape, layers: vec![layer] }
}

#[test]
fn session_walks_to_success() {
    let doc = small_doc();
    let layers = render(&doc).unwrap();
    let mut session = UploadSession::begin(&layers, &doc.shape);
    // one frame per key, no knobs, plus the commit frame
    assert_eq!(session.frames.len(), 3);
    let mut written = 0;
    while let Some(frame) = session.next_frame() {
        assert_eq!(frame.bytes.len(), FRAME_LEN);
        session.frame_written();
        written += 1;
    }
    assert_eq!(written, 3);
    session.ack_received(ACK_OK);
    assert_eq!(session.outcome, Some(Ok(())));
}

#[test]
fn frame_bytes_follow_the_encoding_contract() {
    let doc = small_doc();
    let layers = render(&doc).unwrap();
    let session = UploadSession::begin(&layers, &doc.shape);
    let frame = &session.frames[1];
    let b = &frame.bytes;
    assert_eq!(b.len(), FRAME_LEN);
    assert_eq!(b[0], REPORT_ID);
    assert_eq!(b[1], CMD_BIND);
    assert_eq!(b[2], 0); // layer index
    assert_eq!(b[3], TARGET_KEY);
    assert_eq!(b[4], 1); // position (0,1) in row-major order
    assert_eq!(b[5], 0); // slot
    assert_eq!(b[6], 1); // single-keystroke tag
    assert_eq!(b[7], 1); // one step
    assert_eq!(b[8], 1); // ctrl bit
    assert_eq!(b[9], 5); // key code
    for i in 10..64 {
        assert_eq!(b[i], 0);
    }
    let mut checksum = 0u8;
    for i in 0..64 {
        checksum ^= b[i];
    }
    assert_eq!(b[64], checksum);
}

#[test]
fn commit_frame_comes_last() {
    let doc = small_doc();
    let layers = render(&doc).unwrap();
    let session = UploadSession::begin(&layers, &doc.shape);
    let commit = &session.frames[session.frames.len() - 1];
    assert_eq!(commit.bytes[0], REPORT_ID);
    assert_eq!(commit.bytes[1], CMD_COMMIT);
}

#[test]
fn transport_failure_blocks_the_commit() {
    let doc = small_doc();
    let layers = render(&doc).unwrap();
    let mut session = UploadSession::begin(&layers, &doc.shape);
    // first frame goes out, the second write fails
    assert!(session.next_frame().is_some());
    session.frame_written();
    assert!(session.next_frame().is_some());
    session.write_failed();
    assert_eq!(
        session.outcome,
        Some(Err(UploadError::TransportError { frames_written: 1 }))
    );
    // the stream is stuck: no further frame, so the commit is never handed out
    assert!(session.next_frame().is_none());
    assert_eq!(session.written, 1);
}

#[test]
fn wrong_acknowledgement_is_a_protocol_error() {
    let doc = small_doc();
    let layers = render(&doc).unwrap();
    let mut session = UploadSession::begin(&layers, &doc.shape);
    while let Some(_frame) = session.next_frame() {
        session.frame_written();
    }
    session.ack_received(0x00);
    assert_eq!(session.outcome, Some(Err(UploadError::AcknowledgementMismatch)));
}

#[test]
fn missing_acknowledgement_is_a_protocol_error() {
    let doc = small_doc();
    let layers = render(&doc).unwrap();
    let mut session = UploadSession::begin(&layers, &doc.shape);
    while let Some(_frame) = session.next_frame() {
        session.frame_written();
    }
    session.ack_missing();
    assert_eq!(session.outcome, Some(Err(UploadError::AcknowledgementMismatch)));
}

#[test]
fn knob_layers_add_three_frames_per_knob() {
    let shape = LayoutShape { rows: 1, columns: 1, knobs: 2 };
    let layer = Layer {
        bindings: vec![],
        knobs: vec![
            ch57x_keyboard_tool::layout::KnobAction {
                rotate_left: KeyAction::NoOp,
                rotate_right: KeyAction::NoOp,
                press: KeyAction::NoOp,
            },
            ch57x_keyboard_tool::layout::KnobAction {
                rotate_left: KeyAction::NoOp,
                rotate_right: KeyAction::NoOp,
                press: KeyAction::NoOp,
            },
        ],
    };
    let doc = LayoutDocument { shape, layers: vec![layer] };
    let layers = render(&doc).unwrap();
    let session = UploadSession::begin(&layers, &doc.shape);
    // 1 key frame + 6 knob frames + 1 commit frame
    assert_eq!(session.frames.len(), 8);
}
