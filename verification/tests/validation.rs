use ch57x_keyboard_tool::layout::{
    Binding, KeyAction, Keystroke, KnobAction, Layer, LayoutDocument, LayoutShape, Modifiers,
};
use ch57x_keyboard_tool::validate::{summarize, validate, ValidationError};

fn no_mods() -> Modifiers {
    Modifiers { ctrl: false, shift: false, alt: false, meta: false }
}

fn stroke(code: u8) -> KeyAction {
    KeyAction::Stroke(Keystroke { code, mods: no_mods() })
}

fn noop_knob() -> KnobAction {
    KnobAction {
        rotate_left: KeyAction::NoOp,
        rotate_right: KeyAction::NoOp,
        press: KeyAction::NoOp,
    }
}

fn full_layer(rows: u8, columns: u8, knobs: u8) -> Layer {
    let mut bindings = Vec::new();
    for r in 0..rows {
        for c in 0..columns {
            bindings.push(Binding { row: r, column: c, action: stroke(4 + r * columns + c) });
        }
    }
    let mut knob_actions = Vec::new();
    for _ in 0..knobs {
        knob_actions.push(noop_knob());
    }
    Layer { bindings, knobs: knob_actions }
}

#[test]
fn scenario_fully_specified_document_validates() {
    let shape = LayoutShape { rows: 3, columns: 4, knobs: 2 };
    let doc = LayoutDocument { shape, layers: vec![full_layer(3, 4, 2)] };
    assert_eq!(validate(&doc, &shape), Ok(()));
    let summary = summarize(&doc);
    assert_eq!(summary.layers, 1);
    assert_eq!(summary.buttons, 12);
    assert_eq!(summary.knobs, 2);
}

#[test]
fn scenario_missing_knob_action_fails_out_of_range() {
    let shape = LayoutShape { rows: 3, columns: 4, knobs: 2 };
    let mut layer = full_layer(3, 4, 2);
    layer.knobs.pop();
    let doc = LayoutDocument { shape, layers: vec![layer] };
    assert_eq!(validate(&doc, &shape), Err(ValidationError::OutOfRange));
}

#[test]
fn shape_mismatch_reported_first() {
    let declared = LayoutShape { rows: 3, columns: 4, knobs: 2 };
    let target = LayoutShape { rows: 3, columns: 3, knobs: 2 };
    let doc = LayoutDocument { shape: declared, layers: vec![] };
    assert_eq!(validate(&doc, &target), Err(ValidationError::ShapeMismatch));
}

#[test]
fn empty_document_rejected() {
    let shape = LayoutShape { rows: 3, columns: 4, knobs: 2 };
    let doc = LayoutDocument { shape, layers: vec![] };
    assert_eq!(validate(&doc, &shape), Err(ValidationError::EmptyLayout));
}

#[test]
fn out_of_range_position_rejected() {
    let shape = LayoutShape { rows: 2, columns: 2, knobs: 0 };
    let layer = Layer {
        bindings: vec![Binding { row: 2, column: 0, action: stroke(4) }],
        knobs: vec![],
    };
    let doc = LayoutDocument { shape, layers: vec![layer] };
    assert_eq!(validate(&doc, &shape), Err(ValidationError::OutOfRange));
}

#[test]
fn duplicate_binding_rejected() {
    let shape = LayoutShape { rows: 2, columns: 2, knobs: 0 };
    let layer = Layer {
        bindings: vec![
            Binding { row: 0, column: 1, action: stroke(4) },
            Binding { row: 0, column: 1, action: stroke(5) },
        ],
        knobs: vec![],
    };
    let doc = LayoutDocument { shape, layers: vec![layer] };
    assert_eq!(validate(&doc, &shape), Err(ValidationError::DuplicateBinding));
}

#[test]
fn summary_matches_shape_for_every_layer_count() {
    let shape = LayoutShape { rows: 2, columns: 3, knobs: 1 };
    let doc = LayoutDocument {
        shape,
        layers: vec![full_layer(2, 3, 1), full_layer(2, 3, 1), full_layer(2, 3, 1)],
    };
    let summary = summarize(&doc);
    assert_eq!(summary.layers, 3);
    assert_eq!(summary.buttons, 6);
    assert_eq!(summary.knobs, 1);
}
