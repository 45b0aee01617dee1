//! The errors that the backend reports.
use vstd::prelude::*;

verus! {

/// What went wrong while a model was loaded or run.
#[derive(Debug)]
pub enum NnError {
    /// The model could not be loaded.
    ModelLoad(String),
    /// The caller's inputs do not match the model.
    InvalidInput(String),
    /// The runtime failed, or its buffers cannot take part in a pass.
    Inference(String),
    /// A tensor does not have as many elements as the model asks for.
    ShapeMismatch { expected: Vec<usize>, actual: Vec<usize> },
    /// A tensor could not be brought into its shape.
    TensorOp(String),
    /// The model uses an element type that the backend does not convert.
    Unsupported(String),
}

/// An [`NnError`] with its text and its dimensions as sequences.
pub enum NnErrorView {
    ModelLoad(Seq<char>),
    InvalidInput(Seq<char>),
    Inference(Seq<char>),
    ShapeMismatch { expected: Seq<usize>, actual: Seq<usize> },
    TensorOp(Seq<char>),
    Unsupported(Seq<char>),
}

impl View for NnError {
    type V = NnErrorView;

    open spec fn view(&self) -> NnErrorView {
        match self {
            NnError::ModelLoad(text) => NnErrorView::ModelLoad(text@),
            NnError::InvalidInput(text) => NnErrorView::InvalidInput(text@),
            NnError::Inference(text) => NnErrorView::Inference(text@),
            NnError::ShapeMismatch { expected, actual } => NnErrorView::ShapeMismatch {
                expected: expected@,
                actual: actual@,
            },
            NnError::TensorOp(text) => NnErrorView::TensorOp(text@),
            NnError::Unsupported(text) => NnErrorView::Unsupported(text@),
        }
    }
}

impl Clone for NnError {
    fn clone(&self) -> (error: NnError)
        ensures
            error@ == self@,
    {
        match self {
            NnError::ModelLoad(text) => NnError::ModelLoad(text.clone()),
            NnError::InvalidInput(text) => NnError::InvalidInput(text.clone()),
            NnError::Inference(text) => NnError::Inference(text.clone()),
            NnError::ShapeMismatch { expected, actual } => NnError::ShapeMismatch {
                expected: vstd::slice::slice_to_vec(expected.as_slice()),
                actual: vstd::slice::slice_to_vec(actual.as_slice()),
            },
            NnError::TensorOp(text) => NnError::TensorOp(text.clone()),
            NnError::Unsupported(text) => NnError::Unsupported(text.clone()),
        }
    }
}

/// An error is told by its kind and by the text or the axis lengths that it carries.
pub proof fn law_errors_are_told_by_kind_and_text(error: NnError)
    ensures
        error matches NnError::ModelLoad(text) ==> error@ == NnErrorView::ModelLoad(text@),
        error matches NnError::InvalidInput(text) ==> error@ == NnErrorView::InvalidInput(text@),
        error matches NnError::Inference(text) ==> error@ == NnErrorView::Inference(text@),
        error matches NnError::ShapeMismatch { expected, actual } ==> error@ == (
        NnErrorView::ShapeMismatch { expected: expected@, actual: actual@ }),
        error matches NnError::TensorOp(text) ==> error@ == NnErrorView::TensorOp(text@),
        error matches NnError::Unsupported(text) ==> error@ == NnErrorView::Unsupported(text@),
{
}

} // verus!
