//! The compile step of the compile-then-upload flow: validation followed by
//! rendering, with one combined error that names the phase that failed.

use vstd::prelude::*;

use crate::layout::{LayoutDocument, LayoutShape};
use crate::render::{check_doc_actions, doc_renders, render, RenderError, RenderedLayer};
use crate::validate::{
    lemma_validate_ok_iff, summarize, validate, validate_spec, ValidationError, ValidationSummary,
};

verus! {

/// Why a document could not be compiled: the validation phase or the
/// rendering phase rejected it.
#[derive(Clone, Copy, PartialEq, Eq, Structural, Debug)]
pub enum CompileError {
    Validation(ValidationError),
    Rendering(RenderError),
}

/// Validates `doc` against the target shape, and renders it once accepted.
/// The rendered layers are exactly what an upload would transmit, so a
/// dry-run compile matches a later upload frame for frame.
pub fn compile(doc: &LayoutDocument, target: &LayoutShape) -> (r: Result<
    Vec<RenderedLayer>,
    CompileError,
>)
    requires
        doc.shape.wf(),
    ensures
        match r {
            Ok(v) => validate_spec(*doc, *target) is Ok && check_doc_actions(doc.layers@) is Ok
                && doc_renders(*doc, v@) && forall|i: int|
                0 <= i < v@.len() ==> (#[trigger] v@[i]).wf(doc.shape),
            Err(e) => match e {
                CompileError::Validation(ve) => validate_spec(*doc, *target) == Err::<
                    (),
                    ValidationError,
                >(ve),
                CompileError::Rendering(re) => validate_spec(*doc, *target) is Ok
                    && check_doc_actions(doc.layers@) == Err::<(), RenderError>(re),
            },
        },
{
    if let Err(e) = validate(doc, target) {
        return Err(CompileError::Validation(e));
    }
    proof {
        lemma_validate_ok_iff(*doc, *target);
        assert(doc.wf());
    }
    match render(doc) {
        Ok(layers) => Ok(layers),
        Err(e) => Err(CompileError::Rendering(e)),
    }
}

/// Validates a document against its own declared shape and reports its
/// summary; the dry-run a front end offers before risking a device write.
/// No side effects, no hardware access.
pub fn check_document(doc: &LayoutDocument) -> (r: Result<ValidationSummary, CompileError>)
    requires
        doc.shape.wf(),
    ensures
        match r {
            Ok(s) => validate_spec(*doc, doc.shape) is Ok && check_doc_actions(
                doc.layers@,
            ) is Ok && s.layers == doc.layers@.len() && s.buttons as int == doc.shape.buttons()
                && s.knobs == doc.shape.knobs,
            Err(e) => match e {
                CompileError::Validation(ve) => validate_spec(*doc, doc.shape) == Err::<
                    (),
                    ValidationError,
                >(ve),
                CompileError::Rendering(re) => validate_spec(*doc, doc.shape) is Ok
                    && check_doc_actions(doc.layers@) == Err::<(), RenderError>(re),
            },
        },
{
    let shape = doc.shape;
    match compile(doc, &shape) {
        Ok(_) => Ok(summarize(doc)),
        Err(e) => Err(e),
    }
}

} // verus!
