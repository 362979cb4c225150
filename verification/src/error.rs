//! The ways in which a pipeline run can fail.

use vstd::prelude::*;

verus! {

/// Why a pipeline invocation was aborted.
#[derive(Clone, Copy, Debug, PartialEq, Eq, Structural)]
pub enum OcrError {
    /// Resolving or fetching the model artifacts failed.
    ModelAcquisition,
    /// A required artifact is absent or unreadable.
    ModelLoad,
    /// A tensor's rank or dimensions are not what the model expects.
    Shape,
    /// The execution backend rejected or failed to run a model.
    Inference,
    /// Encoding text or decoding token ids failed.
    Tokenization,
    /// The clipboard could not be read or written.
    Clipboard,
}

impl OcrError {
    /// The text of the diagnostic for this error.
    pub open spec fn spec_message(self) -> Seq<char> {
        match self {
            OcrError::ModelAcquisition => "Failed to resolve model artifacts"@,
            OcrError::ModelLoad => "Missing encoder, decoder, or tokenizer model"@,
            OcrError::Shape => "Expected array to have 3 dimensions"@,
            OcrError::Inference => "Failed to run model"@,
            OcrError::Tokenization => "Failed to decode"@,
            OcrError::Clipboard => "Clipboard unavailable"@,
        }
    }

    /// The diagnostic printed for this error.
    pub fn message(&self) -> (text: String)
        ensures
            text@ == self.spec_message(),
    {
        match self {
            OcrError::ModelAcquisition => "Failed to resolve model artifacts".to_string(),
            OcrError::ModelLoad => "Missing encoder, decoder, or tokenizer model".to_string(),
            OcrError::Shape => "Expected array to have 3 dimensions".to_string(),
            OcrError::Inference => "Failed to run model".to_string(),
            OcrError::Tokenization => "Failed to decode".to_string(),
            OcrError::Clipboard => "Clipboard unavailable".to_string(),
        }
    }
}

} // verus!
