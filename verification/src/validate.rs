//! Schema validation: checking a layout document against a target physical
//! shape, and the read-only summary used for pre-upload confirmation.

use vstd::prelude::*;

use crate::layout::{Layer, LayoutDocument, LayoutShape};

verus! {

/// Why a document was rejected.  The caller must fix the input; validation is
/// never retried.
#[derive(Clone, Copy, PartialEq, Eq, Structural, Debug)]
pub enum ValidationError {
    /// The document declares a different shape than the target layout.
    ShapeMismatch,
    /// A layer binds a position outside the grid, or supplies a knob action
    /// count other than the declared one.
    OutOfRange,
    /// The document declares no layers at all.
    EmptyLayout,
    /// A layer binds the same key position twice.
    DuplicateBinding,
}

/// Read-only projection of a document's shape: layer count, key count, knob
/// count.  Recomputed on demand; reporting it touches no hardware.
#[derive(Clone, Copy, PartialEq, Eq, Structural, Debug)]
pub struct ValidationSummary {
    pub layers: usize,
    pub buttons: u8,
    pub knobs: u8,
}

/// The result of checking `layers` in order against shape `s`: the first
/// offending layer decides the error, range errors before duplicate errors.
pub open spec fn check_layers_spec(layers: Seq<Layer>, s: LayoutShape) -> Result<
    (),
    ValidationError,
>
    decreases layers.len(),
{
    if layers.len() == 0 {
        Ok(())
    } else if !layers[0].in_range(s) {
        Err(ValidationError::OutOfRange)
    } else if !layers[0].no_duplicates() {
        Err(ValidationError::DuplicateBinding)
    } else {
        check_layers_spec(layers.drop_first(), s)
    }
}

/// The result `validate` returns: shape mismatch first, then the empty
/// document, then the per-layer checks in declaration order.
pub open spec fn validate_spec(doc: LayoutDocument, target: LayoutShape) -> Result<
    (),
    ValidationError,
> {
    if doc.shape != target {
        Err(ValidationError::ShapeMismatch)
    } else if doc.layers@.len() == 0 {
        Err(ValidationError::EmptyLayout)
    } else {
        check_layers_spec(doc.layers@, doc.shape)
    }
}

/// Checking layers from position `i` on is the same as checking the whole
/// sequence, once the first `i` layers are known to be well-formed.
proof fn lemma_check_layers_skip(layers: Seq<Layer>, s: LayoutShape, i: int)
    requires
        0 <= i <= layers.len(),
        forall|m: int| 0 <= m < i ==> (#[trigger] layers[m]).wf(s),
    ensures
        check_layers_spec(layers, s) == check_layers_spec(layers.skip(i), s),
    decreases i,
{
    if i > 0 {
        lemma_check_layers_skip(layers, s, i - 1);
        assert(layers.skip(i - 1)[0] == layers[i - 1]);
        assert(layers.skip(i - 1).drop_first() =~= layers.skip(i));
    } else {
        assert(layers.skip(0) =~= layers);
    }
}

/// Checking succeeds exactly when every layer is well-formed.
proof fn lemma_check_layers_ok_iff(layers: Seq<Layer>, s: LayoutShape)
    ensures
        check_layers_spec(layers, s) is Ok <==> forall|i: int|
            0 <= i < layers.len() ==> (#[trigger] layers[i]).wf(s),
    decreases layers.len(),
{
    if layers.len() > 0 {
        let df = layers.drop_first();
        lemma_check_layers_ok_iff(df, s);
        if layers[0].wf(s) && check_layers_spec(df, s) is Ok {
            assert forall|i: int| 0 <= i < layers.len() implies (#[trigger] layers[i]).wf(s) by {
                if i > 0 {
                    assert(df[i - 1] == layers[i]);
                }
            }
        }
        if forall|i: int| 0 <= i < layers.len() ==> (#[trigger] layers[i]).wf(s) {
            assert forall|i: int| 0 <= i < df.len() implies (#[trigger] df[i]).wf(s) by {
                assert(df[i] == layers[i + 1]);
            }
        }
    }
}

/// Validation succeeds exactly when the document matches the target shape,
/// declares at least one layer, and every layer keeps its positions inside the
/// grid, supplies the declared knob count, and binds no position twice.
pub proof fn lemma_validate_ok_iff(doc: LayoutDocument, target: LayoutShape)
    ensures
        validate_spec(doc, target) is Ok <==> (doc.shape == target && doc.layers@.len() > 0
            && forall|i: int| 0 <= i < doc.layers@.len() ==> (#[trigger] doc.layers@[i]).wf(
            doc.shape,
        )),
{
    lemma_check_layers_ok_iff(doc.layers@, doc.shape);
}

/// Checks `doc` against the target physical shape.  Pure: no side effects, no
/// hardware access.
pub fn validate(doc: &LayoutDocument, target: &LayoutShape) -> (r: Result<(), ValidationError>)
    ensures
        r == validate_spec(*doc, *target),
{
    if doc.shape != *target {
        return Err(ValidationError::ShapeMismatch);
    }
    if doc.layers.len() == 0 {
        return Err(ValidationError::EmptyLayout);
    }
    let ghost s = doc.shape;
    let mut i: usize = 0;
    while i < doc.layers.len()
        invariant
            0 <= i <= doc.layers@.len(),
            s == doc.shape,
            doc.shape == *target,
            doc.layers@.len() > 0,
            forall|m: int| 0 <= m < i ==> (#[trigger] doc.layers@[m]).wf(s),
        decreases doc.layers@.len() - i,
    {
        let layer = &doc.layers[i];
        if let Some(e) = check_layer(layer, &doc.shape) {
            proof {
                lemma_check_layers_skip(doc.layers@, s, i as int);
                let rest = doc.layers@.skip(i as int);
                assert(rest[0] == doc.layers@[i as int]);
                assert(rest.len() > 0);
                assert(check_layers_spec(rest, s) == Err::<(), ValidationError>(e));
            }
            return Err(e);
        }
        i = i + 1;
    }
    proof {
        lemma_check_layers_skip(doc.layers@, s, doc.layers@.len() as int);
        assert(doc.layers@.skip(doc.layers@.len() as int) =~= Seq::<Layer>::empty());
    }
    Ok(())
}

/// Checks one layer: `OutOfRange` for a stray position or a wrong knob count,
/// else `DuplicateBinding` for a twice-bound position, else nothing.
fn check_layer(layer: &Layer, s: &LayoutShape) -> (r: Option<ValidationError>)
    ensures
        match r {
            None => layer.wf(*s),
            Some(e) => if e == ValidationError::OutOfRange {
                !layer.in_range(*s)
            } else {
                e == ValidationError::DuplicateBinding && layer.in_range(*s)
                    && !layer.no_duplicates()
            },
        },
{
    if layer.knobs.len() != s.knobs as usize {
        return Some(ValidationError::OutOfRange);
    }
    let mut i: usize = 0;
    while i < layer.bindings.len()
        invariant
            0 <= i <= layer.bindings@.len(),
            forall|m: int|
                0 <= m < i ==> s.in_range(
                    (#[trigger] layer.bindings@[m]).row as int,
                    layer.bindings@[m].column as int,
                ),
        decreases layer.bindings@.len() - i,
    {
        let b = &layer.bindings[i];
        if b.row >= s.rows || b.column >= s.columns {
            return Some(ValidationError::OutOfRange);
        }
        i = i + 1;
    }
    assert(layer.in_range(*s));
    let mut j: usize = 1;
    while j < layer.bindings.len()
        invariant
            layer.in_range(*s),
            forall|m: int, k: int|
                0 <= m < k < j && k < layer.bindings@.len() ==> !((#[trigger] layer.bindings@[m]).row
                    == (#[trigger] layer.bindings@[k]).row && layer.bindings@[m].column
                    == layer.bindings@[k].column),
        decreases layer.bindings@.len() - j,
    {
        let mut m: usize = 0;
        while m < j
            invariant
                layer.in_range(*s),
                m <= j < layer.bindings@.len(),
                forall|p: int|
                    0 <= p < m ==> !((#[trigger] layer.bindings@[p]).row == layer.bindings@[
                        j as int
                    ].row && layer.bindings@[p].column == layer.bindings@[j as int].column),
            decreases j - m,
        {
            if layer.bindings[m].row == layer.bindings[j].row && layer.bindings[m].column
                == layer.bindings[j].column {
                proof {
                    assert(layer.bindings@[m as int].row == layer.bindings@[j as int].row
                        && layer.bindings@[m as int].column == layer.bindings@[j as int].column);
                    assert(!layer.no_duplicates());
                }
                return Some(ValidationError::DuplicateBinding);
            }
            m = m + 1;
        }
        j = j + 1;
    }
    None
}

/// Reports the document's shape without touching hardware: its layer count,
/// its key count (`rows * columns`), and its knob count.
pub fn summarize(doc: &LayoutDocument) -> (s: ValidationSummary)
    requires
        doc.shape.wf(),
    ensures
        s.layers == doc.layers@.len(),
        s.buttons as int == doc.shape.buttons(),
        s.knobs == doc.shape.knobs,
{
    ValidationSummary {
        layers: doc.layers.len(),
        buttons: doc.shape.button_count(),
        knobs: doc.shape.knobs,
    }
}

} // verus!
