//! In-memory model of a device layout: its physical shape and the per-layer
//! actions bound to keys and knobs.

use vstd::prelude::*;

verus! {

/// Greatest number of keystrokes the firmware accepts in one macro sequence.
pub const MAX_MACRO_STEPS: usize = 5;

/// Greatest number of rotary knobs any supported model carries.
pub const MAX_KNOBS: u8 = 2;

/// Physical shape of a keypad model: key grid dimensions and knob count.
#[derive(Clone, Copy, PartialEq, Eq, Structural, Debug)]
pub struct LayoutShape {
    pub rows: u8,
    pub columns: u8,
    pub knobs: u8,
}

impl LayoutShape {
    /// Dimensional invariant: at least one key, a key grid small enough that a
    /// position index fits in one protocol byte, and a supported knob count.
    pub open spec fn wf(self) -> bool {
        &&& 1 <= self.rows as int * self.columns as int <= 255
        &&& self.knobs <= MAX_KNOBS
    }

    /// Number of keys in the grid.
    pub open spec fn buttons(self) -> int {
        self.rows as int * self.columns as int
    }

    /// Row-major index of the key at `(row, col)`.
    pub open spec fn index_of(self, row: int, col: int) -> int {
        row * self.columns + col
    }

    /// Whether `(row, col)` lies inside the key grid.
    pub open spec fn in_range(self, row: int, col: int) -> bool {
        0 <= row < self.rows && 0 <= col < self.columns
    }

    /// Number of keys in the grid, as the byte the protocol carries.
    pub fn button_count(&self) -> (n: u8)
        requires
            self.wf(),
        ensures
            n as int == self.buttons(),
    {
        self.rows * self.columns
    }
}

/// Every key index below the grid size is the row-major index of an in-range
/// position, recovered by division and remainder.
pub proof fn lemma_index_surjective(s: LayoutShape, p: int)
    requires
        s.wf(),
        0 <= p < s.buttons(),
    ensures
        s.in_range(p / s.columns as int, p % s.columns as int),
        s.index_of(p / s.columns as int, p % s.columns as int) == p,
{
    let c = s.columns as int;
    let r = s.rows as int;
    assert(c >= 1 && r >= 1) by (nonlinear_arith)
        requires
            1 <= r * c,
            r >= 0,
            c >= 0,
    {}
    assert(p == (p / c) * c + (p % c) && 0 <= p % c < c && 0 <= p / c) by (nonlinear_arith)
        requires
            c >= 1,
            p >= 0,
    {}
    assert(p / c < r) by (nonlinear_arith)
        requires
            p < r * c,
            p == (p / c) * c + (p % c),
            0 <= p % c < c,
            0 <= p / c,
            c >= 1,
    {}
}

/// Modifier flags carried by one keystroke, each independently settable.
#[derive(Clone, Copy, PartialEq, Eq, Structural, Debug)]
pub struct Modifiers {
    pub ctrl: bool,
    pub shift: bool,
    pub alt: bool,
    pub meta: bool,
}

impl Modifiers {
    /// The firmware encodes at most one of the reserved system modifiers
    /// (`alt`, `meta`) per keystroke; a chord asking for both is rejected.
    pub open spec fn encodable(self) -> bool {
        !(self.alt && self.meta)
    }
}

/// One keystroke: a key code plus its modifier chord.
#[derive(Clone, Copy, PartialEq, Eq, Structural, Debug)]
pub struct Keystroke {
    pub code: u8,
    pub mods: Modifiers,
}

/// What a key or a knob slot does: nothing, a single keystroke, or an ordered
/// macro sequence of keystrokes.
#[derive(PartialEq, Eq, Debug)]
pub enum KeyAction {
    NoOp,
    Stroke(Keystroke),
    Macro(Vec<Keystroke>),
}

impl KeyAction {
    /// The keystrokes this action plays, in order.
    pub open spec fn steps(self) -> Seq<Keystroke> {
        match self {
            KeyAction::NoOp => Seq::empty(),
            KeyAction::Stroke(k) => seq![k],
            KeyAction::Macro(v) => v@,
        }
    }

    /// Whether a macro sequence stays within the firmware's length limit.
    pub open spec fn macro_fits(self) -> bool {
        self matches KeyAction::Macro(v) ==> v@.len() <= MAX_MACRO_STEPS
    }

    /// Whether every keystroke's modifier chord can be encoded.
    pub open spec fn mods_ok(self) -> bool {
        forall|i: int| 0 <= i < self.steps().len() ==> (#[trigger] self.steps()[i]).mods.encodable()
    }
}

/// The three slots of one rotary knob.
#[derive(PartialEq, Eq, Debug)]
pub struct KnobAction {
    pub rotate_left: KeyAction,
    pub rotate_right: KeyAction,
    pub press: KeyAction,
}

impl KnobAction {
    /// The action in slot `s`: 0 is rotate-left, 1 is rotate-right, 2 is press.
    pub open spec fn slot(self, s: int) -> KeyAction {
        if s == 0 {
            self.rotate_left
        } else if s == 1 {
            self.rotate_right
        } else {
            self.press
        }
    }

    /// All three slots stay within the macro length limit.
    pub open spec fn macro_fits(self) -> bool {
        self.rotate_left.macro_fits() && self.rotate_right.macro_fits() && self.press.macro_fits()
    }

    /// All three slots carry encodable modifier chords.
    pub open spec fn mods_ok(self) -> bool {
        self.rotate_left.mods_ok() && self.rotate_right.mods_ok() && self.press.mods_ok()
    }
}

/// One explicit binding of a key position to an action within a layer.
#[derive(PartialEq, Eq, Debug)]
pub struct Binding {
    pub row: u8,
    pub column: u8,
    pub action: KeyAction,
}

/// One layer of a layout document: the explicitly bound key positions, in the
/// order the document gave them, plus one action per knob index.
#[derive(PartialEq, Eq, Debug)]
pub struct Layer {
    pub bindings: Vec<Binding>,
    pub knobs: Vec<KnobAction>,
}

impl Layer {
    /// Every bound position lies inside the grid, and exactly as many knob
    /// actions are supplied as the shape declares.
    pub open spec fn in_range(self, s: LayoutShape) -> bool {
        &&& forall|i: int|
            0 <= i < self.bindings@.len() ==> s.in_range(
                (#[trigger] self.bindings@[i]).row as int,
                self.bindings@[i].column as int,
            )
        &&& self.knobs@.len() == s.knobs
    }

    /// No key position is bound twice.
    pub open spec fn no_duplicates(self) -> bool {
        forall|i: int, j: int|
            0 <= i < j < self.bindings@.len() ==> !((#[trigger] self.bindings@[i]).row
                == (#[trigger] self.bindings@[j]).row && self.bindings@[i].column
                == self.bindings@[j].column)
    }

    /// A well-formed layer for shape `s`.
    pub open spec fn wf(self, s: LayoutShape) -> bool {
        self.in_range(s) && self.no_duplicates()
    }
}

/// The validated in-memory form of user input: a shape and its layers, in
/// declaration order.  Index 0 is the base layer; the protocol addresses
/// layers by this index.
#[derive(PartialEq, Eq, Debug)]
pub struct LayoutDocument {
    pub shape: LayoutShape,
    pub layers: Vec<Layer>,
}

impl LayoutDocument {
    /// A well-formed document: a sound shape, at least one layer, and every
    /// layer well-formed for that shape.
    pub open spec fn wf(self) -> bool {
        &&& self.shape.wf()
        &&& self.layers@.len() >= 1
        &&& forall|i: int| 0 <= i < self.layers@.len() ==> (#[trigger] self.layers@[i]).wf(self.shape)
    }
}

} // verus!
