//! Manga OCR inference pipeline: the decisions around the encoder and decoder
//! models, stated and proved.

pub mod clipboard;
pub mod decoder;
pub mod error;
pub mod logits;
pub mod mode;
pub mod model_dir;
pub mod pipeline;
pub mod preprocess;
pub mod stopping;
pub mod text;
