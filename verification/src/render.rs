//! Layer rendering: expanding a validated document into the concrete,
//! dense per-layer tables the upload protocol transmits, filling no-op
//! defaults for unbound positions and enforcing firmware encoding limits.

use vstd::prelude::*;

use crate::layout::lemma_index_surjective;
use crate::layout::{Binding, KeyAction, Keystroke, KnobAction, Layer, LayoutDocument, LayoutShape, Modifiers, MAX_MACRO_STEPS};

verus! {

/// Why a document could not be rendered.  The caller must fix the input;
/// rendering is never retried.
#[derive(Clone, Copy, PartialEq, Eq, Structural, Debug)]
pub enum RenderError {
    /// A macro sequence is longer than the firmware accepts.
    MacroTooLong,
    /// A keystroke requests a modifier chord the firmware cannot encode.
    UnsupportedModifierCombination,
}

/// The keystroke a rendered no-op pad slot carries: key code 0, no modifiers.
pub open spec fn blank_keystroke() -> Keystroke {
    Keystroke { code: 0, mods: Modifiers { ctrl: false, shift: false, alt: false, meta: false } }
}

/// A macro sequence in the bounded form the firmware stores: up to
/// `MAX_MACRO_STEPS` keystrokes, padded with blank keystrokes.
#[derive(Clone, Copy, PartialEq, Eq, Debug)]
pub struct MacroSteps {
    pub buf: [Keystroke; 5],
    pub len: u8,
}

impl MacroSteps {
    /// The keystrokes this macro plays, in order.
    pub open spec fn steps(self) -> Seq<Keystroke> {
        self.buf@.take(self.len as int)
    }

    /// Within the firmware limit, and canonically padded.
    pub open spec fn wf(self) -> bool {
        &&& self.len <= MAX_MACRO_STEPS
        &&& forall|i: int| self.len <= i < 5 ==> self.buf@[i] == blank_keystroke()
    }
}

/// A key or knob-slot action in rendered form, ready for frame encoding.
#[derive(Clone, Copy, PartialEq, Eq, Debug)]
pub enum RenderedAction {
    NoOp,
    Stroke(Keystroke),
    Macro(MacroSteps),
}

impl RenderedAction {
    /// The keystrokes this action plays, in order.
    pub open spec fn steps(self) -> Seq<Keystroke> {
        match self {
            RenderedAction::NoOp => Seq::empty(),
            RenderedAction::Stroke(k) => seq![k],
            RenderedAction::Macro(m) => m.steps(),
        }
    }

    pub open spec fn wf(self) -> bool {
        self matches RenderedAction::Macro(m) ==> m.wf()
    }
}

/// The three rendered slots of one knob.
#[derive(Clone, Copy, PartialEq, Eq, Debug)]
pub struct RenderedKnob {
    pub rotate_left: RenderedAction,
    pub rotate_right: RenderedAction,
    pub press: RenderedAction,
}

impl RenderedKnob {
    /// The rendered action in slot `s`: 0 is rotate-left, 1 is rotate-right,
    /// 2 is press.
    pub open spec fn slot(self, s: int) -> RenderedAction {
        if s == 0 {
            self.rotate_left
        } else if s == 1 {
            self.rotate_right
        } else {
            self.press
        }
    }

    pub open spec fn wf(self) -> bool {
        self.rotate_left.wf() && self.rotate_right.wf() && self.press.wf()
    }
}

/// One rendered layer: a dense row-major table of key actions and one
/// rendered action triple per knob.
#[derive(PartialEq, Eq, Debug)]
pub struct RenderedLayer {
    pub keys: Vec<RenderedAction>,
    pub knobs: Vec<RenderedKnob>,
}

impl RenderedLayer {
    pub open spec fn wf(self, s: LayoutShape) -> bool {
        &&& self.keys@.len() == s.buttons()
        &&& forall|p: int| 0 <= p < self.keys@.len() ==> (#[trigger] self.keys@[p]).wf()
        &&& self.knobs@.len() == s.knobs
        &&& forall|i: int| 0 <= i < self.knobs@.len() ==> (#[trigger] self.knobs@[i]).wf()
    }
}

/// Whether `r` is the rendered form of the document action `a`: the same
/// variant, the same keystrokes, and canonical padding.
pub open spec fn renders(a: KeyAction, r: RenderedAction) -> bool {
    match a {
        KeyAction::NoOp => r == RenderedAction::NoOp,
        KeyAction::Stroke(k) => r == RenderedAction::Stroke(k),
        KeyAction::Macro(v) => r matches RenderedAction::Macro(m) && m.wf() && m.len == v@.len()
            && m.steps() == v@,
    }
}

/// Whether `r` renders the knob `k`, slot by slot.
pub open spec fn renders_knob(k: KnobAction, r: RenderedKnob) -> bool {
    &&& renders(k.rotate_left, r.rotate_left)
    &&& renders(k.rotate_right, r.rotate_right)
    &&& renders(k.press, r.press)
}

/// The rendered form of an action is unique.
pub proof fn lemma_renders_unique(a: KeyAction, r1: RenderedAction, r2: RenderedAction)
    requires
        renders(a, r1),
        renders(a, r2),
    ensures
        r1 == r2,
{
    match a {
        KeyAction::Macro(v) => {
            let m1 = r1->Macro_0;
            let m2 = r2->Macro_0;
            assert forall|i: int| 0 <= i < 5 implies m1.buf@[i] == m2.buf@[i] by {
                if i < m1.len {
                    assert(m1.steps()[i] == m1.buf@[i]);
                    assert(m2.steps()[i] == m2.buf@[i]);
                }
            }
            assert(m1.buf@ =~= m2.buf@);
            assert(m1.buf =~= m2.buf);
        },
        _ => {},
    }
}

/// The rendered form of a knob is unique.
pub proof fn lemma_renders_knob_unique(k: KnobAction, r1: RenderedKnob, r2: RenderedKnob)
    requires
        renders_knob(k, r1),
        renders_knob(k, r2),
    ensures
        r1 == r2,
{
    lemma_renders_unique(k.rotate_left, r1.rotate_left, r2.rotate_left);
    lemma_renders_unique(k.rotate_right, r1.rotate_right, r2.rotate_right);
    lemma_renders_unique(k.press, r1.press, r2.press);
}

/// The action a rendered layer holds at `(row, col)`: the action of the first
/// binding for that position, or a no-op when none binds it.
pub open spec fn fill_at(bs: Seq<Binding>, row: int, col: int) -> KeyAction
    decreases bs.len(),
{
    if bs.len() == 0 {
        KeyAction::NoOp
    } else if bs[0].row == row && bs[0].column == col {
        bs[0].action
    } else {
        fill_at(bs.drop_first(), row, col)
    }
}

/// The render check of one action: the length limit first, then the modifier
/// chords.
pub open spec fn check_action(a: KeyAction) -> Result<(), RenderError> {
    if !a.macro_fits() {
        Err(RenderError::MacroTooLong)
    } else if !a.mods_ok() {
        Err(RenderError::UnsupportedModifierCombination)
    } else {
        Ok(())
    }
}

/// The render check of one knob: its slots in order.
pub open spec fn check_knob(k: KnobAction) -> Result<(), RenderError> {
    if check_action(k.rotate_left) is Err {
        check_action(k.rotate_left)
    } else if check_action(k.rotate_right) is Err {
        check_action(k.rotate_right)
    } else {
        check_action(k.press)
    }
}

/// The render check of a layer's bindings, in declaration order.
pub open spec fn check_bindings(bs: Seq<Binding>) -> Result<(), RenderError>
    decreases bs.len(),
{
    if bs.len() == 0 {
        Ok(())
    } else if check_action(bs[0].action) is Err {
        check_action(bs[0].action)
    } else {
        check_bindings(bs.drop_first())
    }
}

/// The render check of a layer's knobs, in index order.
pub open spec fn check_knobs(ks: Seq<KnobAction>) -> Result<(), RenderError>
    decreases ks.len(),
{
    if ks.len() == 0 {
        Ok(())
    } else if check_knob(ks[0]) is Err {
        check_knob(ks[0])
    } else {
        check_knobs(ks.drop_first())
    }
}

/// The render check of one layer: bindings before knobs.
pub open spec fn check_layer_actions(l: Layer) -> Result<(), RenderError> {
    if check_bindings(l.bindings@) is Err {
        check_bindings(l.bindings@)
    } else {
        check_knobs(l.knobs@)
    }
}

/// The render check of the whole document: layers in declaration order.
pub open spec fn check_doc_actions(ls: Seq<Layer>) -> Result<(), RenderError>
    decreases ls.len(),
{
    if ls.len() == 0 {
        Ok(())
    } else if check_layer_actions(ls[0]) is Err {
        check_layer_actions(ls[0])
    } else {
        check_doc_actions(ls.drop_first())
    }
}

/// Whether `rl` is the rendered form of layer `l` under shape `s`.
pub open spec fn layer_renders(l: Layer, rl: RenderedLayer, s: LayoutShape) -> bool {
    &&& rl.keys@.len() == s.buttons()
    &&& forall|row: int, col: int|
        s.in_range(row, col) ==> renders(
            fill_at(l.bindings@, row, col),
            #[trigger] rl.keys@[s.index_of(row, col)],
        )
    &&& rl.knobs@.len() == l.knobs@.len()
    &&& forall|i: int| 0 <= i < l.knobs@.len() ==> renders_knob(l.knobs@[i], #[trigger] rl.knobs@[i])
}

/// Whether `out` is the rendered form of the whole document.
pub open spec fn doc_renders(doc: LayoutDocument, out: Seq<RenderedLayer>) -> bool {
    &&& out.len() == doc.layers@.len()
    &&& forall|i: int|
        0 <= i < out.len() ==> layer_renders(doc.layers@[i], #[trigger] out[i], doc.shape)
}

/// Rendering is deterministic: any two rendered forms of the same document
/// agree layer by layer, key table and knob table alike, no-op filling
/// included.
pub proof fn lemma_render_deterministic(
    doc: LayoutDocument,
    v1: Seq<RenderedLayer>,
    v2: Seq<RenderedLayer>,
)
    requires
        doc.shape.wf(),
        doc_renders(doc, v1),
        doc_renders(doc, v2),
    ensures
        v1.len() == v2.len(),
        forall|i: int|
            0 <= i < v1.len() ==> (#[trigger] v1[i]).keys@ == v2[i].keys@ && v1[i].knobs@
                == v2[i].knobs@,
{
    assert forall|i: int|
        0 <= i < v1.len() implies (#[trigger] v1[i]).keys@ == v2[i].keys@ && v1[i].knobs@
        == v2[i].knobs@ by {
        let l = doc.layers@[i];
        let s = doc.shape;
        assert forall|p: int| 0 <= p < v1[i].keys@.len() implies v1[i].keys@[p] == v2[i].keys@[p] by {
            lemma_index_surjective(s, p);
            let row = p / s.columns as int;
            let col = p % s.columns as int;
            lemma_renders_unique(fill_at(l.bindings@, row, col), v1[i].keys@[p], v2[i].keys@[p]);
        }
        assert(v1[i].keys@ =~= v2[i].keys@);
        assert forall|k: int| 0 <= k < v1[i].knobs@.len() implies v1[i].knobs@[k]
            == v2[i].knobs@[k] by {
            lemma_renders_knob_unique(l.knobs@[k], v1[i].knobs@[k], v2[i].knobs@[k]);
        }
        assert(v1[i].knobs@ =~= v2[i].knobs@);
    }
}

/// Looking past a prefix of bindings that do not touch `(row, col)` does not
/// change the filled action.
proof fn lemma_fill_at_skip(bs: Seq<Binding>, row: int, col: int, j: int)
    requires
        0 <= j <= bs.len(),
        forall|m: int| 0 <= m < j ==> !((#[trigger] bs[m]).row == row && bs[m].column == col),
    ensures
        fill_at(bs, row, col) == fill_at(bs.skip(j), row, col),
    decreases j,
{
    if j > 0 {
        lemma_fill_at_skip(bs, row, col, j - 1);
        assert(bs.skip(j - 1)[0] == bs[j - 1]);
        assert(bs.skip(j - 1).drop_first() =~= bs.skip(j));
    } else {
        assert(bs.skip(0) =~= bs);
    }
}

/// Checking bindings past an accepted prefix is checking the whole sequence.
proof fn lemma_check_bindings_skip(bs: Seq<Binding>, j: int)
    requires
        0 <= j <= bs.len(),
        forall|m: int| 0 <= m < j ==> check_action((#[trigger] bs[m]).action) is Ok,
    ensures
        check_bindings(bs) == check_bindings(bs.skip(j)),
    decreases j,
{
    if j > 0 {
        lemma_check_bindings_skip(bs, j - 1);
        assert(bs.skip(j - 1)[0] == bs[j - 1]);
        assert(bs.skip(j - 1).drop_first() =~= bs.skip(j));
    } else {
        assert(bs.skip(0) =~= bs);
    }
}

/// Checking knobs past an accepted prefix is checking the whole sequence.
proof fn lemma_check_knobs_skip(ks: Seq<KnobAction>, j: int)
    requires
        0 <= j <= ks.len(),
        forall|m: int| 0 <= m < j ==> check_knob(#[trigger] ks[m]) is Ok,
    ensures
        check_knobs(ks) == check_knobs(ks.skip(j)),
    decreases j,
{
    if j > 0 {
        lemma_check_knobs_skip(ks, j - 1);
        assert(ks.skip(j - 1)[0] == ks[j - 1]);
        assert(ks.skip(j - 1).drop_first() =~= ks.skip(j));
    } else {
        assert(ks.skip(0) =~= ks);
    }
}

/// Checking layers past an accepted prefix is checking the whole sequence.
proof fn lemma_check_doc_skip(ls: Seq<Layer>, j: int)
    requires
        0 <= j <= ls.len(),
        forall|m: int| 0 <= m < j ==> check_layer_actions(#[trigger] ls[m]) is Ok,
    ensures
        check_doc_actions(ls) == check_doc_actions(ls.skip(j)),
    decreases j,
{
    if j > 0 {
        lemma_check_doc_skip(ls, j - 1);
        assert(ls.skip(j - 1)[0] == ls[j - 1]);
        assert(ls.skip(j - 1).drop_first() =~= ls.skip(j));
    } else {
        assert(ls.skip(0) =~= ls);
    }
}

/// An accepted binding sequence has every action accepted.
proof fn lemma_check_bindings_all(bs: Seq<Binding>)
    requires
        check_bindings(bs) is Ok,
    ensures
        forall|m: int| 0 <= m < bs.len() ==> check_action((#[trigger] bs[m]).action) is Ok,
    decreases bs.len(),
{
    if bs.len() > 0 {
        lemma_check_bindings_all(bs.drop_first());
        assert forall|m: int| 0 <= m < bs.len() implies check_action(
            (#[trigger] bs[m]).action,
        ) is Ok by {
            if m > 0 {
                assert(bs.drop_first()[m - 1] == bs[m]);
            }
        }
    }
}

/// An accepted knob sequence has every knob accepted.
proof fn lemma_check_knobs_all(ks: Seq<KnobAction>)
    requires
        check_knobs(ks) is Ok,
    ensures
        forall|m: int| 0 <= m < ks.len() ==> check_knob(#[trigger] ks[m]) is Ok,
    decreases ks.len(),
{
    if ks.len() > 0 {
        lemma_check_knobs_all(ks.drop_first());
        assert forall|m: int| 0 <= m < ks.len() implies check_knob(#[trigger] ks[m]) is Ok by {
            if m > 0 {
                assert(ks.drop_first()[m - 1] == ks[m]);
            }
        }
    }
}

/// Checks one action against the firmware limits: macro length first, then
/// each keystroke's modifier chord in order.
fn check_action_exec(a: &KeyAction) -> (r: Option<RenderError>)
    ensures
        match r {
            None => check_action(*a) is Ok,
            Some(e) => check_action(*a) == Err::<(), RenderError>(e),
        },
{
    match a {
        KeyAction::NoOp => None,
        KeyAction::Stroke(k) => {
            if k.mods.alt && k.mods.meta {
                proof {
                    assert((*a).steps()[0] == *k);
                    assert(!(*a).mods_ok());
                }
                Some(RenderError::UnsupportedModifierCombination)
            } else {
                proof {
                    assert forall|i: int|
                        0 <= i < (*a).steps().len() implies (#[trigger] (*a).steps()[i]).mods.encodable() by {
                        assert((*a).steps()[i] == *k);
                    }
                }
                None
            }
        },
        KeyAction::Macro(v) => {
            if v.len() > MAX_MACRO_STEPS {
                return Some(RenderError::MacroTooLong);
            }
            let mut i: usize = 0;
            while i < v.len()
                invariant
                    *a == KeyAction::Macro(*v),
                    i <= v@.len(),
                    v@.len() <= MAX_MACRO_STEPS,
                    forall|m: int| 0 <= m < i ==> (#[trigger] v@[m]).mods.encodable(),
                decreases v@.len() - i,
            {
                let k = &v[i];
                if k.mods.alt && k.mods.meta {
                    proof {
                        assert((*a).steps()[i as int] == v@[i as int]);
                        assert(!(*a).mods_ok());
                    }
                    return Some(RenderError::UnsupportedModifierCombination);
                }
                i = i + 1;
            }
            proof {
                assert forall|m: int|
                    0 <= m < (*a).steps().len() implies (#[trigger] (*a).steps()[m]).mods.encodable() by {
                    assert((*a).steps()[m] == v@[m]);
                }
            }
            None
        },
    }
}

/// Checks one knob's three slots in order.
fn check_knob_exec(k: &KnobAction) -> (r: Option<RenderError>)
    ensures
        match r {
            None => check_knob(*k) is Ok,
            Some(e) => check_knob(*k) == Err::<(), RenderError>(e),
        },
{
    if let Some(e) = check_action_exec(&k.rotate_left) {
        return Some(e);
    }
    if let Some(e) = check_action_exec(&k.rotate_right) {
        return Some(e);
    }
    check_action_exec(&k.press)
}

/// Checks one layer: bindings in declaration order, then knobs in index
/// order.
fn check_layer_exec(l: &Layer) -> (r: Option<RenderError>)
    ensures
        match r {
            None => check_layer_actions(*l) is Ok,
            Some(e) => check_layer_actions(*l) == Err::<(), RenderError>(e),
        },
{
    let mut j: usize = 0;
    while j < l.bindings.len()
        invariant
            j <= l.bindings@.len(),
            forall|m: int| 0 <= m < j ==> check_action((#[trigger] l.bindings@[m]).action) is Ok,
        decreases l.bindings@.len() - j,
    {
        if let Some(e) = check_action_exec(&l.bindings[j].action) {
            proof {
                lemma_check_bindings_skip(l.bindings@, j as int);
                assert(l.bindings@.skip(j as int)[0] == l.bindings@[j as int]);
            }
            return Some(e);
        }
        j = j + 1;
    }
    proof {
        lemma_check_bindings_skip(l.bindings@, l.bindings@.len() as int);
        assert(l.bindings@.skip(l.bindings@.len() as int) =~= Seq::<Binding>::empty());
    }
    let mut j: usize = 0;
    while j < l.knobs.len()
        invariant
            j <= l.knobs@.len(),
            check_bindings(l.bindings@) is Ok,
            forall|m: int| 0 <= m < j ==> check_knob(#[trigger] l.knobs@[m]) is Ok,
        decreases l.knobs@.len() - j,
    {
        if let Some(e) = check_knob_exec(&l.knobs[j]) {
            proof {
                lemma_check_knobs_skip(l.knobs@, j as int);
                assert(l.knobs@.skip(j as int)[0] == l.knobs@[j as int]);
            }
            return Some(e);
        }
        j = j + 1;
    }
    proof {
        lemma_check_knobs_skip(l.knobs@, l.knobs@.len() as int);
        assert(l.knobs@.skip(l.knobs@.len() as int) =~= Seq::<KnobAction>::empty());
    }
    None
}

/// Renders one accepted action into its bounded firmware form.
fn render_action(a: &KeyAction) -> (r: RenderedAction)
    requires
        check_action(*a) is Ok,
    ensures
        renders(*a, r),
{
    match a {
        KeyAction::NoOp => RenderedAction::NoOp,
        KeyAction::Stroke(k) => RenderedAction::Stroke(*k),
        KeyAction::Macro(v) => {
            let blank = Keystroke {
                code: 0,
                mods: Modifiers { ctrl: false, shift: false, alt: false, meta: false },
            };
            let mut buf: [Keystroke; 5] = [blank; 5];
            let mut i: usize = 0;
            proof {
                assert(*a == KeyAction::Macro(*v));
                assert((*a).macro_fits());
            }
            while i < v.len()
                invariant
                    *a == KeyAction::Macro(*v),
                    i <= v@.len(),
                    v@.len() <= MAX_MACRO_STEPS,
                    buf@.len() == 5,
                    forall|m: int| 0 <= m < i ==> buf@[m] == v@[m],
                    forall|m: int| i <= m < 5 ==> buf@[m] == blank_keystroke(),
                decreases v@.len() - i,
            {
                buf[i] = v[i];
                i = i + 1;
            }
            let m = MacroSteps { buf, len: i as u8 };
            proof {
                assert(m.steps() =~= v@);
            }
            RenderedAction::Macro(m)
        },
    }
}

/// Renders one accepted knob, slot by slot.
fn render_knob(k: &KnobAction) -> (r: RenderedKnob)
    requires
        check_knob(*k) is Ok,
    ensures
        renders_knob(*k, r),
{
    RenderedKnob {
        rotate_left: render_action(&k.rotate_left),
        rotate_right: render_action(&k.rotate_right),
        press: render_action(&k.press),
    }
}

/// Renders the action at `(row, col)`: the first binding for that position,
/// or a no-op when none binds it.
fn render_position(l: &Layer, row: u8, col: u8) -> (r: RenderedAction)
    requires
        check_bindings(l.bindings@) is Ok,
    ensures
        renders(fill_at(l.bindings@, row as int, col as int), r),
{
    let mut j: usize = 0;
    while j < l.bindings.len()
        invariant
            j <= l.bindings@.len(),
            check_bindings(l.bindings@) is Ok,
            forall|m: int|
                0 <= m < j ==> !((#[trigger] l.bindings@[m]).row == row && l.bindings@[m].column
                    == col),
        decreases l.bindings@.len() - j,
    {
        let b = &l.bindings[j];
        if b.row == row && b.column == col {
            proof {
                lemma_fill_at_skip(l.bindings@, row as int, col as int, j as int);
                assert(l.bindings@.skip(j as int)[0] == l.bindings@[j as int]);
                lemma_check_bindings_all(l.bindings@);
            }
            return render_action(&b.action);
        }
        j = j + 1;
    }
    proof {
        lemma_fill_at_skip(l.bindings@, row as int, col as int, l.bindings@.len() as int);
        assert(l.bindings@.skip(l.bindings@.len() as int) =~= Seq::<Binding>::empty());
    }
    RenderedAction::NoOp
}

/// Positions earlier in row-major order have smaller key indices.
proof fn lemma_index_lex(s: LayoutShape, r0: int, c0: int, r1: int, c1: int)
    requires
        s.in_range(r0, c0),
        s.in_range(r1, c1),
        r0 < r1 || (r0 == r1 && c0 < c1),
    ensures
        s.index_of(r0, c0) < s.index_of(r1, c1),
{
    assert(r0 * s.columns + c0 < r1 * s.columns + c1) by (nonlinear_arith)
        requires
            0 <= c0 < s.columns,
            0 <= c1 < s.columns,
            0 <= r0,
            0 <= r1,
            r0 < r1 || (r0 == r1 && c0 < c1),
    {}
}

/// Renders one layer into its dense table.
fn render_layer(l: &Layer, s: &LayoutShape) -> (rl: RenderedLayer)
    requires
        s.wf(),
        l.wf(*s),
        check_layer_actions(*l) is Ok,
    ensures
        layer_renders(*l, rl, *s),
        rl.wf(*s),
{
    proof {
        lemma_check_knobs_all(l.knobs@);
    }
    let mut keys: Vec<RenderedAction> = Vec::new();
    let mut row: u8 = 0;
    while row < s.rows
        invariant
            s.wf(),
            l.wf(*s),
            check_bindings(l.bindings@) is Ok,
            row <= s.rows,
            keys@.len() == row as int * s.columns as int,
            forall|r0: int, c0: int|
                s.in_range(r0, c0) && r0 < row ==> renders(
                    fill_at(l.bindings@, r0, c0),
                    #[trigger] keys@[s.index_of(r0, c0)],
                ),
        decreases s.rows - row,
    {
        let mut col: u8 = 0;
        while col < s.columns
            invariant
                s.wf(),
                l.wf(*s),
                check_bindings(l.bindings@) is Ok,
                row < s.rows,
                col <= s.columns,
                keys@.len() == row as int * s.columns as int + col as int,
                forall|r0: int, c0: int|
                    s.in_range(r0, c0) && (r0 < row || (r0 == row && c0 < col)) ==> renders(
                        fill_at(l.bindings@, r0, c0),
                        #[trigger] keys@[s.index_of(r0, c0)],
                    ),
            decreases s.columns - col,
        {
            let a = render_position(l, row, col);
            keys.push(a);
            proof {
                assert forall|r0: int, c0: int|
                    s.in_range(r0, c0) && (r0 < row || (r0 == row && c0 < col + 1)) implies renders(
                        fill_at(l.bindings@, r0, c0),
                        #[trigger] keys@[s.index_of(r0, c0)],
                    ) by {
                    if r0 == row && c0 == col {
                        assert(s.index_of(r0, c0) == keys@.len() - 1);
                    } else {
                        lemma_index_lex(*s, r0, c0, row as int, col as int);
                    }
                }
            }
            col = col + 1;
        }
        proof {
            assert(row as int * s.columns as int + s.columns as int == (row as int + 1)
                * s.columns as int) by (nonlinear_arith);
        }
        row = row + 1;
    }
    proof {
        assert(keys@.len() == s.buttons()) by (nonlinear_arith)
            requires
                keys@.len() == s.rows as int * s.columns as int,
                s.buttons() == s.rows as int * s.columns as int,
        {}
        assert forall|r0: int, c0: int| s.in_range(r0, c0) implies renders(
            fill_at(l.bindings@, r0, c0),
            #[trigger] keys@[s.index_of(r0, c0)],
        ) by {}
        assert forall|p: int| 0 <= p < keys@.len() implies (#[trigger] keys@[p]).wf() by {
            lemma_index_surjective(*s, p);
            let r0 = p / s.columns as int;
            let c0 = p % s.columns as int;
            assert(renders(fill_at(l.bindings@, r0, c0), keys@[p]));
        }
    }
    let mut knobs: Vec<RenderedKnob> = Vec::new();
    let mut k: usize = 0;
    while k < l.knobs.len()
        invariant
            k <= l.knobs@.len(),
            forall|m: int| 0 <= m < l.knobs@.len() ==> check_knob(#[trigger] l.knobs@[m]) is Ok,
            knobs@.len() == k,
            forall|m: int|
                0 <= m < k ==> renders_knob(l.knobs@[m], #[trigger] knobs@[m]) && (
                #[trigger] knobs@[m]).wf(),
        decreases l.knobs@.len() - k,
    {
        let rk = render_knob(&l.knobs[k]);
        proof {
            assert(renders_knob(l.knobs@[k as int], rk));
            assert(rk.wf());
        }
        knobs.push(rk);
        k = k + 1;
    }
    RenderedLayer { keys, knobs }
}

/// Expands a validated document into its rendered layers, in declaration
/// order, filling a no-op for every unbound position.  Deterministic and free
/// of side effects: the result is pinned by `doc_renders`, so the same
/// document always renders to the same layer sequence.
pub fn render(doc: &LayoutDocument) -> (r: Result<Vec<RenderedLayer>, RenderError>)
    requires
        doc.wf(),
    ensures
        match r {
            Ok(v) => check_doc_actions(doc.layers@) is Ok && doc_renders(*doc, v@) && forall|i: int|
                0 <= i < v@.len() ==> (#[trigger] v@[i]).wf(doc.shape),
            Err(e) => check_doc_actions(doc.layers@) == Err::<(), RenderError>(e),
        },
{
    let mut i: usize = 0;
    while i < doc.layers.len()
        invariant
            i <= doc.layers@.len(),
            forall|m: int| 0 <= m < i ==> check_layer_actions(#[trigger] doc.layers@[m]) is Ok,
        decreases doc.layers@.len() - i,
    {
        if let Some(e) = check_layer_exec(&doc.layers[i]) {
            proof {
                lemma_check_doc_skip(doc.layers@, i as int);
                assert(doc.layers@.skip(i as int)[0] == doc.layers@[i as int]);
            }
            return Err(e);
        }
        i = i + 1;
    }
    proof {
        lemma_check_doc_skip(doc.layers@, doc.layers@.len() as int);
        assert(doc.layers@.skip(doc.layers@.len() as int) =~= Seq::<Layer>::empty());
    }
    let mut out: Vec<RenderedLayer> = Vec::new();
    let mut li: usize = 0;
    while li < doc.layers.len()
        invariant
            doc.wf(),
            li <= doc.layers@.len(),
            forall|m: int| 0 <= m < doc.layers@.len() ==> check_layer_actions(
                #[trigger] doc.layers@[m],
            ) is Ok,
            out@.len() == li,
            forall|m: int|
                0 <= m < li ==> layer_renders(doc.layers@[m], #[trigger] out@[m], doc.shape) && (
                #[trigger] out@[m]).wf(doc.shape),
        decreases doc.layers@.len() - li,
    {
        let rl = render_layer(&doc.layers[li], &doc.shape);
        out.push(rl);
        li = li + 1;
    }
    Ok(out)
}

} // verus!
