//! The whole pipeline: image, encoder, decoding loop, text.
//!
//! The two models are handed in as functions, so the pipeline is the same
//! whether a real execution backend stands behind them or a stub.

use crate::decoder::{widened, Decoder};
use crate::error::OcrError;
use crate::logits::Logits;
use crate::preprocess::{preprocess, preprocessed, Image};
use crate::text::{accept_encoding, encode_end_tokens, postprocess, recognised_text};
use tokenizers::Tokenizer;
use vstd::prelude::*;

verus! {

/// The most steps the decoding loop takes for one image.
pub const MAX_TOKENS: usize = 300;

/// The recogniser: the settings of the decoding loop and the tokenizer that
/// turns token ids into text.
pub struct OCRModel {
    decoder: Decoder,
    tokenizer: Tokenizer,
}

impl OCRModel {
    /// The settings of the decoding loop.
    pub closed spec fn decoder(&self) -> Decoder {
        self.decoder
    }

    /// The tokenizer that turns the decoded tokens into text.
    pub closed spec fn tokenizer(&self) -> Tokenizer {
        self.tokenizer
    }

    /// `out` is a way in which recognising an image whose tensor is `input`
    /// may end.
    ///
    /// Either the encoder failed on the tensor, and `out` is its error; or
    /// decoding from the encoder's hidden state failed, and `out` is that
    /// error; or decoding gave a sequence, and `out` is what the tokenizer
    /// decodes from the whole of it, special tokens skipped, without its
    /// spaces, or a tokenization error where the tokenizer fails.
    pub open spec fn may_run<
        H,
        E: FnOnce(Vec<u8>) -> Result<H, OcrError>,
        S: Fn(&H, &Vec<i64>) -> Result<Logits, OcrError>,
    >(&self, encode: E, step: S, input: Seq<u8>, out: Result<Seq<char>, OcrError>) -> bool {
        exists|tensor: Vec<u8>, encoded: Result<H, OcrError>|
            {
                &&& tensor@ == input
                &&& #[trigger] encode.ensures((tensor,), encoded)
                &&& match encoded {
                    Err(e) => out == Err::<Seq<char>, OcrError>(e),
                    Ok(hidden) => exists|decoded: Result<Seq<i64>, OcrError>|
                        {
                            &&& #[trigger] self.decoder().may_decode(
                                step,
                                &hidden,
                                MAX_TOKENS,
                                decoded,
                            )
                            &&& match decoded {
                                Err(e) => out == Err::<Seq<char>, OcrError>(e),
                                Ok(tokens) => out == recognised_text(self.tokenizer(), tokens),
                            }
                        },
                }
            }
    }

    /// A recogniser over `tokenizer` whose end tokens are the ids that the
    /// tokenizer answered for the end-token text. No answer is a tokenization
    /// error.
    pub fn with_end_ids(
        tokenizer: Tokenizer,
        max_end_token_repeats: usize,
        encoded: Option<Vec<u32>>,
    ) -> (model: Result<OCRModel, OcrError>)
        ensures
            model is Ok <==> encoded is Some,
            model matches Ok(m) ==> {
                &&& m.decoder().repeats() == max_end_token_repeats
                &&& m.decoder().end_ids() == widened(encoded->0@)
                &&& m.tokenizer() == tokenizer
            },
            model matches Err(e) ==> e == OcrError::Tokenization,
    {
        let ids = match accept_encoding(encoded) {
            Ok(ids) => ids,
            Err(e) => {
                return Err(e);
            },
        };
        let decoder = Decoder::new(max_end_token_repeats, ids.as_slice());
        Ok(OCRModel { decoder, tokenizer })
    }

    /// A recogniser over `tokenizer` whose end tokens are what the tokenizer
    /// makes of `end_tokens`, encoded as they are and without special tokens.
    /// Fails with a tokenization error where the tokenizer cannot encode
    /// them.
    pub fn new(tokenizer: Tokenizer, max_end_token_repeats: usize, end_tokens: &str) -> (model:
        Result<OCRModel, OcrError>)
        ensures
            model matches Ok(m) ==> m.decoder().repeats() == max_end_token_repeats && m.tokenizer()
                == tokenizer,
            model matches Err(e) ==> e == OcrError::Tokenization,
    {
        match encode_end_tokens(&tokenizer, end_tokens) {
            Ok(ids) => Self::with_end_ids(tokenizer, max_end_token_repeats, Some(ids)),
            Err(_) => Self::with_end_ids(tokenizer, max_end_token_repeats, None),
        }
    }

    /// The settings of the decoding loop.
    pub fn decoding(&self) -> (decoder: &Decoder)
        ensures
            *decoder == self.decoder(),
    {
        &self.decoder
    }

    /// Recognises the text of `img`: preprocesses it, hands the tensor to
    /// `encode`, decodes greedily from the hidden state with `step` for at
    /// most `MAX_TOKENS` steps, and turns the tokens into text without
    /// spaces. Any failure on the way aborts the run with its error.
    pub fn run<
        H,
        E: FnOnce(Vec<u8>) -> Result<H, OcrError>,
        S: Fn(&H, &Vec<i64>) -> Result<Logits, OcrError>,
    >(&self, img: &Image, encode: E, step: S) -> (out: Result<String, OcrError>)
        requires
            img.resizable(),
            forall|tensor: Vec<u8>| #[trigger] encode.requires((tensor,)),
            forall|hidden: &H, ids: &Vec<i64>| #[trigger] step.requires((hidden, ids)),
            forall|hidden: &H, ids: &Vec<i64>, scores: Logits|
                #[trigger] step.ensures((hidden, ids), Ok(scores)) && scores.shape().len() == 3
                    ==> scores.has_last_row(),
        ensures
            match out {
                Ok(text) => self.may_run(
                    encode,
                    step,
                    preprocessed(img.width(), img.height(), img.data()),
                    Ok(text@),
                ),
                Err(e) => self.may_run(
                    encode,
                    step,
                    preprocessed(img.width(), img.height(), img.data()),
                    Err(e),
                ),
            },
    {
        let tensor = match preprocess(img) {
            Ok(tensor) => tensor,
            Err(e) => {
                return Err(e);
            },
        };
        let ghost input = tensor;
        let encoded = encode(tensor);
        assert(encode.ensures((input,), encoded));
        let hidden = match encoded {
            Ok(hidden) => hidden,
            Err(e) => {
                return Err(e);
            },
        };
        let decoded = self.decoder.decode(&hidden, step, MAX_TOKENS);
        let tokens = match decoded {
            Ok(tokens) => tokens,
            Err(e) => {
                assert(self.decoder().may_decode(step, &hidden, MAX_TOKENS, Err(e)));
                return Err(e);
            },
        };
        assert(self.decoder().may_decode(step, &hidden, MAX_TOKENS, Ok(tokens@)));
        postprocess(&self.tokenizer, &tokens)
    }
}

} // verus!
