use ch57x_keyboard_tool::layout::{
    Binding, KeyAction, Keystroke, KnobAction, Layer, LayoutDocument, LayoutShape, Modifiers,
    MAX_MACRO_STEPS,
};
use ch57x_keyboard_tool::render::{render, RenderError, RenderedAction};

fn mods(ctrl: bool, shift: bool, alt: bool, meta: bool) -> Modifiers {
    Modifiers { ctrl, shift, alt, meta }
}

fn key(code: u8) -> Keystroke {
    Keystroke { code, mods: mods(false, false, false, false) }
}

fn quiet_knob() -> KnobAction {
    KnobAction {
        rotate_left: KeyAction::NoOp,
        rotate_right: KeyAction::NoOp,
        press: KeyAction::NoOp,
    }
}

#[test]
fn render_fills_unbound_positions_with_noop() {
    let shape = LayoutShape { rows: 2, columns: 2, knobs: 0 };
    let layer = Layer {
        bindings: vec![Binding { row: 1, column: 0, action: KeyAction::Stroke(key(10)) }],
        knobs: vec![],
    };
    let doc = LayoutDocument { shape, layers: vec![layer] };
    let rendered = render(&doc).unwrap();
    assert_eq!(rendered.len(), 1);
    assert_eq!(rendered[0].keys.len(), 4);
    assert_eq!(rendered[0].keys[0], RenderedAction::NoOp);
    assert_eq!(rendered[0].keys[1], RenderedAction::NoOp);
    assert_eq!(rendered[0].keys[2], RenderedAction::Stroke(key(10)));
    assert_eq!(rendered[0].keys[3], RenderedAction::NoOp);
}

#[test]
fn render_twice_yields_identical_output() {
    let shape = LayoutShape { rows: 2, columns: 3, knobs: 1 };
    let layer = Layer {
        bindings: vec![
            Binding { row: 0, column: 2, action: KeyAction::Macro(vec![key(4), key(5)]) },
            Binding { row: 1, column: 1, action: KeyAction::Stroke(key(6)) },
        ],
        knobs: vec![KnobAction {
            rotate_left: KeyAction::Stroke(key(7)),
            rotate_right: KeyAction::Stroke(key(8)),
            press: KeyAction::NoOp,
        }],
    };
    let doc = LayoutDocument { shape, layers: vec![layer] };
    let first = render(&doc).unwrap();
    let second = render(&doc).unwrap();
    assert_eq!(first, second);
}

#[test]
fn scenario_long_macro_fails_before_any_upload_work() {
    let shape = LayoutShape { rows: 1, columns: 1, knobs: 0 };
    let too_long: Vec<Keystroke> = (0..MAX_MACRO_STEPS as u8 + 1).map(|i| key(4 + i)).collect();
    let layer = Layer {
        bindings: vec![Binding { row: 0, column: 0, action: KeyAction::Macro(too_long) }],
        knobs: vec![],
    };
    let doc = LayoutDocument { shape, layers: vec![layer] };
    assert_eq!(render(&doc), Err(RenderError::MacroTooLong));
}

#[test]
fn macro_at_limit_renders() {
    let shape = LayoutShape { rows: 1, columns: 1, knobs: 0 };
    let steps: Vec<Keystroke> = (0..MAX_MACRO_STEPS as u8).map(|i| key(4 + i)).collect();
    let layer = Layer {
        bindings: vec![Binding { row: 0, column: 0, action: KeyAction::Macro(steps.clone()) }],
        knobs: vec![],
    };
    let doc = LayoutDocument { shape, layers: vec![layer] };
    let rendered = render(&doc).unwrap();
    match &rendered[0].keys[0] {
        RenderedAction::Macro(m) => {
            assert_eq!(m.len as usize, MAX_MACRO_STEPS);
            for (i, k) in steps.iter().enumerate() {
                assert_eq!(m.buf[i], *k);
            }
        }
        other => panic!("expected a macro, got {:?}", other),
    }
}

#[test]
fn reserved_modifier_pair_rejected() {
    let shape = LayoutShape { rows: 1, columns: 1, knobs: 0 };
    let chord = Keystroke { code: 4, mods: mods(false, false, true, true) };
    let layer = Layer {
        bindings: vec![Binding { row: 0, column: 0, action: KeyAction::Stroke(chord) }],
        knobs: vec![],
    };
    let doc = LayoutDocument { shape, layers: vec![layer] };
    assert_eq!(render(&doc), Err(RenderError::UnsupportedModifierCombination));
}

#[test]
fn macro_length_error_wins_over_modifier_error_in_same_action() {
    let shape = LayoutShape { rows: 1, columns: 1, knobs: 0 };
    let bad = Keystroke { code: 4, mods: mods(false, false, true, true) };
    let steps: Vec<Keystroke> = (0..6).map(|_| bad).collect();
    let layer = Layer {
        bindings: vec![Binding { row: 0, column: 0, action: KeyAction::Macro(steps) }],
        knobs: vec![],
    };
    let doc = LayoutDocument { shape, layers: vec![layer] };
    assert_eq!(render(&doc), Err(RenderError::MacroTooLong));
}

#[test]
fn knob_actions_render_in_slot_order() {
    let shape = LayoutShape { rows: 1, columns: 1, knobs: 2 };
    let layer = Layer {
        bindings: vec![],
        knobs: vec![
            KnobAction {
                rotate_left: KeyAction::Stroke(key(20)),
                rotate_right: KeyAction::Stroke(key(21)),
                press: KeyAction::Stroke(key(22)),
            },
            quiet_knob(),
        ],
    };
    let doc = LayoutDocument { shape, layers: vec![layer] };
    let rendered = render(&doc).unwrap();
    assert_eq!(rendered[0].knobs.len(), 2);
    assert_eq!(rendered[0].knobs[0].rotate_left, RenderedAction::Stroke(key(20)));
    assert_eq!(rendered[0].knobs[0].rotate_right, RenderedAction::Stroke(key(21)));
    assert_eq!(rendered[0].knobs[0].press, RenderedAction::Stroke(key(22)));
    assert_eq!(rendered[0].knobs[1].press, RenderedAction::NoOp);
}
