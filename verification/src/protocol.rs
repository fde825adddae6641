//! The upload protocol: serialising rendered layers into the fixed-size
//! command frames the firmware accepts, and the per-session state machine
//! that hands frames to the transport, tracks failures, and checks the
//! device's acknowledgement.
//!
//! The byte-level layout is the one fixed encoding contract between this
//! engine and the device family: one 65-byte frame per key position or knob
//! slot, a report identifier and addressing header, two bytes per keystroke,
//! zero padding, and a trailing XOR checksum; one commit frame closes the
//! stream.

use vstd::prelude::*;

use crate::layout::{Keystroke, LayoutShape, Modifiers};
use crate::render::{RenderedAction, RenderedKnob, RenderedLayer};

verus! {

/// Total size of one command frame, checksum byte included.
pub const FRAME_LEN: usize = 65;

/// HID report identifier of every programming frame.
pub const REPORT_ID: u8 = 0x03;

/// Command byte of a frame that binds one key position or knob slot.
pub const CMD_BIND: u8 = 0x01;

/// Command byte of the final frame that asks the firmware to persist the
/// newly written layer table.
pub const CMD_COMMIT: u8 = 0xAA;

/// The acknowledgement byte the firmware answers after a commit.
pub const ACK_OK: u8 = 0x55;

/// Frame target byte for a key position.
pub const TARGET_KEY: u8 = 0x00;

/// Frame target byte for a knob slot.
pub const TARGET_KNOB: u8 = 0x01;

/// The modifier bitmask of one keystroke: ctrl, shift, alt, meta from the
/// lowest bit up.
pub open spec fn mods_byte(m: Modifiers) -> u8 {
    ((if m.ctrl {
        1int
    } else {
        0int
    }) + (if m.shift {
        2int
    } else {
        0int
    }) + (if m.alt {
        4int
    } else {
        0int
    }) + (if m.meta {
        8int
    } else {
        0int
    })) as u8
}

/// The action tag byte: 0 no-op, 1 single keystroke, 2 macro sequence.
pub open spec fn action_tag(a: RenderedAction) -> u8 {
    match a {
        RenderedAction::NoOp => 0,
        RenderedAction::Stroke(_) => 1,
        RenderedAction::Macro(_) => 2,
    }
}

/// The payload of a keystroke sequence: two bytes per step, modifier mask
/// then key code.
pub open spec fn steps_bytes(s: Seq<Keystroke>) -> Seq<u8>
    decreases s.len(),
{
    if s.len() == 0 {
        Seq::empty()
    } else {
        steps_bytes(s.drop_last()) + seq![mods_byte(s.last().mods), s.last().code]
    }
}

/// The payload is two bytes per keystroke.
pub proof fn lemma_steps_bytes_len(s: Seq<Keystroke>)
    ensures
        steps_bytes(s).len() == 2 * s.len(),
    decreases s.len(),
{
    if s.len() > 0 {
        lemma_steps_bytes_len(s.drop_last());
    }
}

/// `n` zero bytes.
pub open spec fn zeros(n: nat) -> Seq<u8> {
    Seq::new(n, |i: int| 0u8)
}

/// The XOR of all bytes of `s`.
pub open spec fn xor_bytes(s: Seq<u8>) -> u8
    decreases s.len(),
{
    if s.len() == 0 {
        0
    } else {
        xor_bytes(s.drop_last()) ^ s.last()
    }
}

/// The 64-byte body of a binding frame: header, keystroke payload, padding.
pub open spec fn frame_body(layer: u8, target: u8, pos: u8, slot: u8, a: RenderedAction) -> Seq<
    u8,
> {
    seq![
        REPORT_ID,
        CMD_BIND,
        layer,
        target,
        pos,
        slot,
        action_tag(a),
        a.steps().len() as u8,
    ] + steps_bytes(a.steps()) + zeros((56 - 2 * a.steps().len()) as nat)
}

/// A complete binding frame: its body plus the checksum byte.
pub open spec fn frame_bytes(layer: u8, target: u8, pos: u8, slot: u8, a: RenderedAction) -> Seq<
    u8,
> {
    frame_body(layer, target, pos, slot, a).push(xor_bytes(frame_body(layer, target, pos, slot, a)))
}

/// The 64-byte body of the commit frame.
pub open spec fn commit_body() -> Seq<u8> {
    seq![REPORT_ID, CMD_COMMIT] + zeros(62)
}

/// The complete commit frame: its body plus the checksum byte.
pub open spec fn commit_bytes() -> Seq<u8> {
    commit_body().push(xor_bytes(commit_body()))
}

/// One fixed-size command frame, ready to write to the device.
#[derive(PartialEq, Eq, Debug)]
pub struct Frame {
    pub bytes: Vec<u8>,
}

impl Frame {
    pub open spec fn wf(self) -> bool {
        self.bytes@.len() == FRAME_LEN
    }
}

/// The modifier bitmask of one keystroke.
fn mods_byte_exec(m: Modifiers) -> (b: u8)
    ensures
        b == mods_byte(m),
{
    let mut b: u8 = 0;
    if m.ctrl {
        b = b + 1;
    }
    if m.shift {
        b = b + 2;
    }
    if m.alt {
        b = b + 4;
    }
    if m.meta {
        b = b + 8;
    }
    b
}

/// Appends one keystroke's two payload bytes.
fn push_step(v: &mut Vec<u8>, k: Keystroke)
    ensures
        final(v)@ == old(v)@ + seq![mods_byte(k.mods), k.code],
{
    let b = mods_byte_exec(k.mods);
    v.push(b);
    v.push(k.code);
    proof {
        assert(v@ =~= old(v)@ + seq![mods_byte(k.mods), k.code]);
    }
}

/// Encodes one binding frame for a key position or a knob slot.
fn encode_frame(layer: u8, target: u8, pos: u8, slot: u8, a: &RenderedAction) -> (f: Frame)
    requires
        a.wf(),
    ensures
        f.wf(),
        f.bytes@ == frame_bytes(layer, target, pos, slot, *a),
{
    let ghost steps = a.steps();
    proof {
        assert(steps.len() <= 5);
        lemma_steps_bytes_len(steps);
    }
    let (tag, nsteps): (u8, u8) = match a {
        RenderedAction::NoOp => (0, 0),
        RenderedAction::Stroke(_) => (1, 1),
        RenderedAction::Macro(m) => (2, m.len),
    };
    let mut v: Vec<u8> = Vec::new();
    v.push(REPORT_ID);
    v.push(CMD_BIND);
    v.push(layer);
    v.push(target);
    v.push(pos);
    v.push(slot);
    v.push(tag);
    v.push(nsteps);
    let ghost header = seq![
        REPORT_ID,
        CMD_BIND,
        layer,
        target,
        pos,
        slot,
        action_tag(*a),
        steps.len() as u8,
    ];
    proof {
        assert(v@ =~= header);
    }
    match a {
        RenderedAction::NoOp => {
            proof {
                assert(v@ =~= header + steps_bytes(steps));
            }
        },
        RenderedAction::Stroke(k) => {
            push_step(&mut v, *k);
            proof {
                assert(steps.drop_last() =~= Seq::<Keystroke>::empty());
                assert(steps.last() == *k);
                assert(v@ =~= header + steps_bytes(steps));
            }
        },
        RenderedAction::Macro(m) => {
            let mut i: usize = 0;
            while i < m.len as usize
                invariant
                    *a == RenderedAction::Macro(*m),
                    a.wf(),
                    steps == a.steps(),
                    i <= m.len as int,
                    m.len <= 5,
                    v@ == header + steps_bytes(steps.take(i as int)),
                decreases m.len as int - i,
            {
                let k = m.buf[i];
                push_step(&mut v, k);
                proof {
                    assert(steps.take(i + 1).drop_last() =~= steps.take(i as int));
                    assert(steps.take(i + 1).last() == m.buf@[i as int]);
                    assert(v@ =~= header + steps_bytes(steps.take(i + 1)));
                }
                i = i + 1;
            }
            proof {
                assert(steps.take(steps.len() as int) =~= steps);
            }
        },
    }
    proof {
        assert(v@ == header + steps_bytes(steps));
        assert(v@.len() == 8 + 2 * steps.len());
        assert(v@ =~= header + steps_bytes(steps) + zeros(0));
    }
    while v.len() < 64
        invariant
            header.len() == 8,
            steps.len() <= 5,
            steps_bytes(steps).len() == 2 * steps.len(),
            8 + 2 * steps.len() <= v@.len() <= 64,
            v@ == header + steps_bytes(steps) + zeros((v@.len() - 8 - 2 * steps.len()) as nat),
        decreases 64 - v@.len(),
    {
        v.push(0);
        proof {
            assert(v@ =~= header + steps_bytes(steps) + zeros(
                (v@.len() - 8 - 2 * steps.len()) as nat,
            ));
        }
    }
    proof {
        assert(v@ == frame_body(layer, target, pos, slot, *a));
    }
    let ghost body = v@;
    let mut acc: u8 = 0;
    let mut i: usize = 0;
    while i < 64
        invariant
            v@ == body,
            body.len() == 64,
            i <= 64,
            acc == xor_bytes(body.take(i as int)),
        decreases 64 - i,
    {
        acc = acc ^ v[i];
        proof {
            assert(body.take(i + 1).drop_last() =~= body.take(i as int));
            assert(body.take(i + 1).last() == body[i as int]);
        }
        i = i + 1;
    }
    proof {
        assert(body.take(64) =~= body);
    }
    v.push(acc);
    Frame { bytes: v }
}

/// Encodes the commit frame that asks the firmware to persist the layer
/// table.
fn encode_commit() -> (f: Frame)
    ensures
        f.wf(),
        f.bytes@ == commit_bytes(),
{
    let mut v: Vec<u8> = Vec::new();
    v.push(REPORT_ID);
    v.push(CMD_COMMIT);
    proof {
        assert(v@ =~= seq![REPORT_ID, CMD_COMMIT] + zeros(0));
    }
    while v.len() < 64
        invariant
            2 <= v@.len() <= 64,
            v@ == seq![REPORT_ID, CMD_COMMIT] + zeros((v@.len() - 2) as nat),
        decreases 64 - v@.len(),
    {
        v.push(0);
        proof {
            assert(v@ =~= seq![REPORT_ID, CMD_COMMIT] + zeros((v@.len() - 2) as nat));
        }
    }
    proof {
        assert(v@ == commit_body());
    }
    let ghost body = v@;
    let mut acc: u8 = 0;
    let mut i: usize = 0;
    while i < 64
        invariant
            v@ == body,
            body.len() == 64,
            i <= 64,
            acc == xor_bytes(body.take(i as int)),
        decreases 64 - i,
    {
        acc = acc ^ v[i];
        proof {
            assert(body.take(i + 1).drop_last() =~= body.take(i as int));
            assert(body.take(i + 1).last() == body[i as int]);
        }
        i = i + 1;
    }
    proof {
        assert(body.take(64) =~= body);
    }
    v.push(acc);
    Frame { bytes: v }
}

/// How many frames one layer takes: one per key position, three per knob.
pub open spec fn frames_per_layer(s: LayoutShape) -> int {
    s.buttons() + 3 * s.knobs
}

/// The bytes of frame `f` of a layer's stream: key frames in row-major
/// order, then the three slot frames of each knob.
pub open spec fn layer_frame_bytes(rl: RenderedLayer, idx: u8, s: LayoutShape, f: int) -> Seq<u8> {
    if f < s.buttons() {
        frame_bytes(idx, TARGET_KEY, f as u8, 0, rl.keys@[f])
    } else {
        frame_bytes(
            idx,
            TARGET_KNOB,
            ((f - s.buttons()) / 3) as u8,
            ((f - s.buttons()) % 3) as u8,
            rl.knobs@[(f - s.buttons()) / 3].slot((f - s.buttons()) % 3),
        )
    }
}

/// Encodes every frame of one rendered layer, in transmission order.
fn encode_layer(rl: &RenderedLayer, idx: u8, s: &LayoutShape) -> (r: Vec<Frame>)
    requires
        s.wf(),
        rl.wf(*s),
    ensures
        r@.len() == frames_per_layer(*s),
        forall|f: int|
            0 <= f < r@.len() ==> (#[trigger] r@[f]).wf() && r@[f].bytes@ == layer_frame_bytes(
                *rl,
                idx,
                *s,
                f,
            ),
{
    let mut r: Vec<Frame> = Vec::new();
    let mut p: usize = 0;
    while p < rl.keys.len()
        invariant
            s.wf(),
            rl.wf(*s),
            p <= rl.keys@.len(),
            r@.len() == p,
            forall|f: int|
                0 <= f < p ==> (#[trigger] r@[f]).wf() && r@[f].bytes@ == layer_frame_bytes(
                    *rl,
                    idx,
                    *s,
                    f,
                ),
        decreases rl.keys@.len() - p,
    {
        let fr = encode_frame(idx, TARGET_KEY, p as u8, 0, &rl.keys[p]);
        r.push(fr);
        p = p + 1;
    }
    let mut k: usize = 0;
    while k < rl.knobs.len()
        invariant
            s.wf(),
            rl.wf(*s),
            k <= rl.knobs@.len(),
            r@.len() == s.buttons() + 3 * k,
            forall|f: int|
                0 <= f < r@.len() ==> (#[trigger] r@[f]).wf() && r@[f].bytes@ == layer_frame_bytes(
                    *rl,
                    idx,
                    *s,
                    f,
                ),
        decreases rl.knobs@.len() - k,
    {
        let kb = &rl.knobs[k];
        let f0 = encode_frame(idx, TARGET_KNOB, k as u8, 0, &kb.rotate_left);
        r.push(f0);
        let f1 = encode_frame(idx, TARGET_KNOB, k as u8, 1, &kb.rotate_right);
        r.push(f1);
        let f2 = encode_frame(idx, TARGET_KNOB, k as u8, 2, &kb.press);
        r.push(f2);
        proof {
            assert((3 * (k as int) + 0) / 3 == k as int && (3 * (k as int) + 0) % 3 == 0 && (3 * (
            k as int) + 1) / 3 == k as int && (3 * (k as int) + 1) % 3 == 1 && (3 * (k as int) + 2)
                / 3 == k as int && (3 * (k as int) + 2) % 3 == 2) by (nonlinear_arith)
                requires
                    0 <= k as int,
            {}
        }
        k = k + 1;
    }
    r
}

/// Why an upload session failed.
#[derive(Clone, Copy, PartialEq, Eq, Structural, Debug)]
pub enum UploadError {
    /// The transport reported a write failure; `frames_written` is the index
    /// of the first frame that was not written, equal to the number of frames
    /// successfully written before the failure.
    TransportError { frames_written: usize },
    /// The device's acknowledgement was absent or not the expected byte.
    AcknowledgementMismatch,
}

/// One upload session: the full frame stream (the commit frame last), how
/// many frames the transport has confirmed written, and the outcome once the
/// session has finished.
///
/// The surrounding application drives the session: it asks `next_frame` for
/// the frame to write, reports `frame_written` or `write_failed`, and after
/// the last frame reports the acknowledgement byte it read.  Every mutation
/// requires the session still to be in the matching phase, so once a failure
/// is recorded the stream is stuck: no further frame, in particular never the
/// commit frame, can be handed out.
#[derive(PartialEq, Eq, Debug)]
pub struct UploadSession {
    pub frames: Vec<Frame>,
    pub written: usize,
    pub outcome: Option<Result<(), UploadError>>,
}

impl UploadSession {
    /// Session invariant: the counter stays within the stream, and the
    /// outcome agrees with it.
    pub open spec fn inv(self) -> bool {
        &&& self.frames@.len() >= 1
        &&& forall|f: int| 0 <= f < self.frames@.len() ==> (#[trigger] self.frames@[f]).wf()
        &&& self.written <= self.frames@.len()
        &&& match self.outcome {
            None => true,
            Some(r) => match r {
                Ok(u) => self.written == self.frames@.len(),
                Err(e) => match e {
                    UploadError::TransportError { frames_written } => frames_written == self.written
                        && self.written < self.frames@.len(),
                    UploadError::AcknowledgementMismatch => self.written == self.frames@.len(),
                },
            },
        }
    }

    /// Index of the commit frame: the last of the stream.
    pub open spec fn commit_index(self) -> int {
        self.frames@.len() - 1
    }

    /// Whether the commit frame has been written to the transport.
    pub open spec fn commit_written(self) -> bool {
        self.written > self.commit_index()
    }

    /// Whether the session still hands out frames.
    pub open spec fn can_write(self) -> bool {
        self.outcome is None && self.written < self.frames@.len()
    }

    /// Whether every frame is written and the acknowledgement is awaited.
    pub open spec fn awaiting_ack(self) -> bool {
        self.outcome is None && self.written == self.frames@.len()
    }

    /// Opens a session for the rendered layers: their frames in layer order,
    /// the commit frame last, nothing written yet.
    pub fn begin(layers: &Vec<RenderedLayer>, s: &LayoutShape) -> (u: UploadSession)
        requires
            s.wf(),
            1 <= layers@.len() <= 255,
            forall|i: int| 0 <= i < layers@.len() ==> (#[trigger] layers@[i]).wf(*s),
        ensures
            u.inv(),
            u.written == 0,
            u.outcome is None,
            u.frames@.len() == layers@.len() * frames_per_layer(*s) + 1,
            forall|m: int, j: int|
                0 <= m < layers@.len() && 0 <= j < frames_per_layer(*s) ==> (#[trigger] u.frames@[m
                    * frames_per_layer(*s) + j]).bytes@ == layer_frame_bytes(
                    layers@[m],
                    m as u8,
                    *s,
                    j,
                ),
            u.frames@[u.commit_index()].bytes@ == commit_bytes(),
    {
        let frames = build_frames(layers, s);
        UploadSession { frames, written: 0, outcome: None }
    }

    /// The frame to write next, or nothing once the stream is done or stuck.
    pub fn next_frame(&self) -> (r: Option<&Frame>)
        ensures
            match r {
                Some(f) => self.can_write() && *f == self.frames@[self.written as int],
                None => !self.can_write(),
            },
    {
        if self.outcome.is_some() {
            None
        } else if self.written < self.frames.len() {
            Some(&self.frames[self.written])
        } else {
            None
        }
    }

    /// The transport confirmed the pending frame as written.
    pub fn frame_written(&mut self)
        requires
            old(self).inv(),
            old(self).can_write(),
        ensures
            final(self).inv(),
            final(self).frames == old(self).frames,
            final(self).written == old(self).written + 1,
            final(self).outcome is None,
    {
        let n: usize = self.frames.len();
        proof {
            assert(self.written < n);
        }
        self.written = self.written + 1;
    }

    /// The transport failed to write the pending frame: the session aborts
    /// with the count of frames that were written, and the commit step is
    /// never reached.
    pub fn write_failed(&mut self)
        requires
            old(self).inv(),
            old(self).can_write(),
        ensures
            final(self).inv(),
            final(self).frames == old(self).frames,
            final(self).written == old(self).written,
            final(self).outcome == Some(Err::<(), UploadError>(UploadError::TransportError {
                frames_written: old(self).written,
            })),
            !final(self).commit_written(),
    {
        self.outcome = Some(Err(UploadError::TransportError { frames_written: self.written }));
    }

    /// The acknowledgement byte arrived: the expected byte finishes the
    /// session successfully, any other byte is a protocol error.
    pub fn ack_received(&mut self, code: u8)
        requires
            old(self).inv(),
            old(self).awaiting_ack(),
        ensures
            final(self).inv(),
            final(self).frames == old(self).frames,
            final(self).written == old(self).written,
            final(self).outcome == Some(
                if code == ACK_OK {
                    Ok::<(), UploadError>(())
                } else {
                    Err::<(), UploadError>(UploadError::AcknowledgementMismatch)
                },
            ),
    {
        if code == ACK_OK {
            self.outcome = Some(Ok(()));
        } else {
            self.outcome = Some(Err(UploadError::AcknowledgementMismatch));
        }
    }

    /// No acknowledgement could be read: a protocol error, not silently
    /// ignored.
    pub fn ack_missing(&mut self)
        requires
            old(self).inv(),
            old(self).awaiting_ack(),
        ensures
            final(self).inv(),
            final(self).frames == old(self).frames,
            final(self).written == old(self).written,
            final(self).outcome == Some(Err::<(), UploadError>(
                UploadError::AcknowledgementMismatch,
            )),
    {
        self.outcome = Some(Err(UploadError::AcknowledgementMismatch));
    }
}

/// A transport failure always strikes before the commit step completes: a
/// session that recorded one never counts the commit frame as written, and
/// hands out no further frame — the commit command cannot be sent any more.
pub proof fn lemma_failure_prevents_commit(u: UploadSession)
    requires
        u.inv(),
        u.outcome matches Some(r) && r matches Err(e) && e matches UploadError::TransportError {
            ..
        },
    ensures
        !u.commit_written(),
        !u.can_write(),
        u.written <= u.commit_index(),
{
}

/// Builds the complete frame stream for the rendered layers: each layer's
/// frames in layer order, the commit frame last.
fn build_frames(layers: &Vec<RenderedLayer>, s: &LayoutShape) -> (r: Vec<Frame>)
    requires
        s.wf(),
        1 <= layers@.len() <= 255,
        forall|i: int| 0 <= i < layers@.len() ==> (#[trigger] layers@[i]).wf(*s),
    ensures
        r@.len() == layers@.len() * frames_per_layer(*s) + 1,
        forall|m: int, j: int|
            0 <= m < layers@.len() && 0 <= j < frames_per_layer(*s) ==> (#[trigger] r@[m
                * frames_per_layer(*s) + j]).bytes@ == layer_frame_bytes(layers@[m], m as u8, *s, j),
        r@[r@.len() - 1].bytes@ == commit_bytes(),
        forall|f: int| 0 <= f < r@.len() ==> (#[trigger] r@[f]).wf(),
{
    let ghost fpl = frames_per_layer(*s);
    let mut r: Vec<Frame> = Vec::new();
    let mut i: usize = 0;
    while i < layers.len()
        invariant
            s.wf(),
            1 <= layers@.len() <= 255,
            forall|m: int| 0 <= m < layers@.len() ==> (#[trigger] layers@[m]).wf(*s),
            fpl == frames_per_layer(*s),
            i <= layers@.len(),
            r@.len() == i * fpl,
            forall|m: int, j: int|
                0 <= m < i && 0 <= j < fpl ==> (#[trigger] r@[m * fpl + j]).bytes@
                    == layer_frame_bytes(layers@[m], m as u8, *s, j),
            forall|f: int| 0 <= f < r@.len() ==> (#[trigger] r@[f]).wf(),
        decreases layers@.len() - i,
    {
        let mut enc = encode_layer(&layers[i], i as u8, s);
        let ghost old_r = r@;
        let ghost enc0 = enc@;
        r.append(&mut enc);
        proof {
            assert((i + 1) * fpl == i * fpl + fpl) by (nonlinear_arith);
            assert forall|m: int, j: int|
                0 <= m < i + 1 && 0 <= j < fpl implies (#[trigger] r@[m * fpl + j]).bytes@
                == layer_frame_bytes(layers@[m], m as u8, *s, j) by {
                if m < i {
                    assert(m * fpl + j < i * fpl && 0 <= m * fpl + j) by (nonlinear_arith)
                        requires
                            0 <= m < i,
                            0 <= j < fpl,
                    {}
                    assert(r@[m * fpl + j] == old_r[m * fpl + j]);
                } else {
                    assert(m * fpl + j == i * fpl + j);
                    assert(r@[i * fpl + j] == enc0[j]);
                }
            }
        }
        i = i + 1;
    }
    let commit = encode_commit();
    let ghost old_r = r@;
    r.push(commit);
    proof {
        assert forall|m: int, j: int|
            0 <= m < layers@.len() && 0 <= j < fpl implies (#[trigger] r@[m * fpl + j]).bytes@
            == layer_frame_bytes(layers@[m], m as u8, *s, j) by {
            assert(m * fpl + j < old_r.len() && 0 <= m * fpl + j) by (nonlinear_arith)
                requires
                    0 <= m < layers@.len(),
                    0 <= j < fpl,
                    old_r.len() == layers@.len() * fpl,
            {}
            assert(r@[m * fpl + j] == old_r[m * fpl + j]);
        }
    }
    r
}

} // verus!
