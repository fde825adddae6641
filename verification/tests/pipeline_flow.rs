use ch57x_keyboard_tool::layout::{
    Binding, KeyAction, Keystroke, KnobAction, Layer, LayoutDocument, LayoutShape, Modifiers,
};
use ch57x_keyboard_tool::pipeline::{check_document, compile, CompileError};
use ch57x_keyboard_tool::render::RenderError;
use ch57x_keyboard_tool::validate::ValidationError;

fn tap(code: u8) -> KeyAction {
    KeyAction::Stroke(Keystroke {
        code,
        mods: Modifiers { ctrl: false, shift: false, alt: false, meta: false },
    })
}

fn silent_knob() -> KnobAction {
    KnobAction {
        rotate_left: KeyAction::NoOp,
        rotate_right: KeyAction::NoOp,
        press: KeyAction::NoOp,
    }
}

fn sample_doc() -> LayoutDocument {
    let shape = LayoutShape { rows: 3, columns: 4, knobs: 2 };
    let layer = Layer {
        bindings: vec![
            Binding { row: 0, column: 0, action: tap(4) },
            Binding { row: 2, column: 3, action: tap(5) },
        ],
        knobs: vec![silent_knob(), silent_knob()],
    };
    LayoutDocument { shape, layers: vec![layer] }
}

#[test]
fn dry_run_reports_the_summary() {
    let doc = sample_doc();
    let summary = check_document(&doc).unwrap();
    assert_eq!(summary.layers, 1);
    assert_eq!(summary.buttons, 12);
    assert_eq!(summary.knobs, 2);
}

#[test]
fn compile_produces_one_rendered_layer_per_declared_layer() {
    let doc = sample_doc();
    let shape = doc.shape;
    let layers = compile(&doc, &shape).unwrap();
    assert_eq!(layers.len(), 1);
    assert_eq!(layers[0].keys.len(), 12);
    assert_eq!(layers[0].knobs.len(), 2);
}

#[test]
fn compile_against_a_different_target_reports_the_mismatch() {
    let doc = sample_doc();
    let other = LayoutShape { rows: 3, columns: 3, knobs: 2 };
    assert_eq!(
        compile(&doc, &other),
        Err(CompileError::Validation(ValidationError::ShapeMismatch))
    );
}

#[test]
fn rendering_failures_surface_through_the_dry_run() {
    let mut doc = sample_doc();
    let long: Vec<Keystroke> = (0..6)
        .map(|i| Keystroke {
            code: 10 + i,
            mods: Modifiers { ctrl: false, shift: false, alt: false, meta: false },
        })
        .collect();
    doc.layers[0].bindings.push(Binding { row: 1, column: 1, action: KeyAction::Macro(long) });
    assert_eq!(
        check_document(&doc),
        Err(CompileError::Rendering(RenderError::MacroTooLong))
    );
}
