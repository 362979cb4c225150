use manga_ocr::error::OcrError;
use manga_ocr::logits::Logits;
use manga_ocr::pipeline::{OCRModel, MAX_TOKENS};
use manga_ocr::preprocess::Image;
use manga_ocr::text::{
    accept_encoding, encode_end_tokens, finish_text, narrow_tokens, postprocess, strip_spaces,
};
use tokenizers::models::wordlevel::WordLevel;
use tokenizers::{AddedToken, Tokenizer};

const VOCABULARY: usize = 7;

/// A word-level tokenizer over a handful of tokens; it joins tokens with
/// spaces when it decodes.
fn tokenizer() -> Tokenizer {
    let vocab = [
        ("[PAD]", 0u32),
        ("[UNK]", 1),
        ("[CLS]", 2),
        ("[SEP]", 3),
        ("テ", 4),
        ("ス", 5),
        ("ト", 6),
    ];
    let model = WordLevel::builder()
        .vocab(vocab.iter().map(|(t, id)| (t.to_string(), *id)).collect())
        .unk_token("[UNK]".to_string())
        .build()
        .unwrap();
    let mut tokenizer = Tokenizer::new(model);
    tokenizer
        .add_special_tokens(vec![
            AddedToken::from("[CLS]", true),
            AddedToken::from("[SEP]", true),
        ])
        .unwrap();
    tokenizer
}

fn peaked(positions: usize, peak: usize) -> Logits {
    let mut scores = vec![0i32; positions * VOCABULARY];
    for p in 0..positions {
        scores[p * VOCABULARY + peak] = 1;
    }
    Logits::new(vec![1, positions, VOCABULARY], scores).unwrap()
}

fn picture() -> Image {
    Image::from_raw(2, 2, vec![128; 16]).unwrap()
}

#[test]
fn spaces_are_removed_from_decoded_text() {
    assert_eq!(strip_spaces("テ ス ト"), "テスト");
}

#[test]
fn stripping_removes_every_space_and_nothing_else() {
    assert_eq!(strip_spaces(""), "");
    assert_eq!(strip_spaces("   "), "");
    assert_eq!(strip_spaces(" a  b c "), "abc");
    assert_eq!(strip_spaces("no-space"), "no-space");
    assert_eq!(strip_spaces("tab\tand\nnewline stay"), "tab\tand\nnewlinestay");
    assert_eq!(strip_spaces("全角　空白"), "全角　空白");
}

#[test]
fn finished_text_or_tokenization_error() {
    assert_eq!(finish_text(Some("テ ス ト".to_string())), Ok("テスト".to_string()));
    assert_eq!(finish_text(None), Err(OcrError::Tokenization));
}

#[test]
fn token_ids_are_cut_to_32_bits() {
    assert_eq!(narrow_tokens(&vec![2, 4, 6]), vec![2u32, 4, 6]);
    assert_eq!(narrow_tokens(&vec![-1, 1 << 32, (1 << 32) + 5]), vec![u32::MAX, 0, 5]);
    assert_eq!(narrow_tokens(&vec![]), Vec::<u32>::new());
}

#[test]
fn detokenized_text_has_its_spaces_removed() {
    let tokenizer = tokenizer();
    assert_eq!(postprocess(&tokenizer, &vec![4, 5, 6]), Ok("テスト".to_string()));
}

#[test]
fn special_tokens_are_suppressed() {
    let tokenizer = tokenizer();
    assert_eq!(postprocess(&tokenizer, &vec![2, 4, 5, 6, 3, 3, 3]), Ok("テスト".to_string()));
}

#[test]
fn encoded_ids_are_kept_or_tokenization_fails() {
    assert_eq!(accept_encoding(Some(vec![3, 9])), Ok(vec![3, 9]));
    assert_eq!(accept_encoding(Some(vec![])), Ok(vec![]));
    assert_eq!(accept_encoding(None), Err(OcrError::Tokenization));
}

#[test]
fn unknown_end_tokens_become_the_unknown_id() {
    let tokenizer = tokenizer();
    assert_eq!(encode_end_tokens(&tokenizer, "never-seen"), Ok(vec![1]));
}

#[test]
fn end_tokens_are_encoded_without_special_tokens() {
    let tokenizer = tokenizer();
    assert_eq!(encode_end_tokens(&tokenizer, "[SEP]"), Ok(vec![3]));
}

#[test]
fn model_is_built_from_the_encoded_end_tokens() {
    let model = OCRModel::with_end_ids(tokenizer(), 2, Some(vec![3, 6])).unwrap();
    assert_eq!(model.decoding().max_end_token_repeats(), 2);
    assert_eq!(model.decoding().end_token_ids(), &vec![3i64, 6]);
    let none = OCRModel::with_end_ids(tokenizer(), 2, Some(vec![])).unwrap();
    assert_eq!(none.decoding().end_token_ids(), &Vec::<i64>::new());
    assert_eq!(OCRModel::with_end_ids(tokenizer(), 2, None).err(), Some(OcrError::Tokenization));
}

#[test]
fn model_decodes_with_the_tokenizer_it_was_given() {
    let model = OCRModel::with_end_ids(tokenizer(), 1, Some(vec![3])).unwrap();
    let encode = |_: Vec<u8>| -> Result<(), OcrError> { Ok(()) };
    let step = |_: &(), ids: &Vec<i64>| -> Result<Logits, OcrError> {
        Ok(peaked(ids.len(), if ids.len() == 1 { 6 } else { 3 }))
    };
    assert_eq!(model.run(&picture(), encode, step), Ok("ト".to_string()));
}

#[test]
fn model_takes_its_end_tokens_from_the_tokenizer() {
    let model = OCRModel::new(tokenizer(), 3, "[SEP]").unwrap();
    assert_eq!(model.decoding().max_end_token_repeats(), 3);
    assert_eq!(model.decoding().end_token_ids(), &vec![3i64]);
}

#[test]
fn pipeline_with_stub_models_reads_the_text() {
    let model = OCRModel::new(tokenizer(), 3, "[SEP]").unwrap();
    let encode = |tensor: Vec<u8>| -> Result<usize, OcrError> { Ok(tensor.len()) };
    let step = |hidden: &usize, ids: &Vec<i64>| -> Result<Logits, OcrError> {
        assert_eq!(*hidden, 3 * 224 * 224);
        let next = match ids.len() {
            1 => 4,
            2 => 5,
            3 => 6,
            _ => 3,
        };
        Ok(peaked(ids.len(), next))
    };
    assert_eq!(model.run(&picture(), encode, step), Ok("テスト".to_string()));
}

#[test]
fn pipeline_stops_at_the_token_limit() {
    let model = OCRModel::new(tokenizer(), 3, "[SEP]").unwrap();
    let encode = |_: Vec<u8>| -> Result<(), OcrError> { Ok(()) };
    let step = |_: &(), ids: &Vec<i64>| -> Result<Logits, OcrError> {
        assert!(ids.len() <= MAX_TOKENS);
        Ok(peaked(ids.len(), 4))
    };
    let text = model.run(&picture(), encode, step).unwrap();
    assert_eq!(text.chars().count(), MAX_TOKENS);
    assert!(text.chars().all(|c| c == 'テ'));
}

#[test]
fn pipeline_aborts_when_the_encoder_fails() {
    let model = OCRModel::new(tokenizer(), 3, "[SEP]").unwrap();
    let encode = |_: Vec<u8>| -> Result<(), OcrError> { Err(OcrError::Inference) };
    let step = |_: &(), ids: &Vec<i64>| -> Result<Logits, OcrError> { Ok(peaked(ids.len(), 3)) };
    assert_eq!(model.run(&picture(), encode, step), Err(OcrError::Inference));
}

#[test]
fn pipeline_aborts_when_the_decoder_fails() {
    let model = OCRModel::new(tokenizer(), 3, "[SEP]").unwrap();
    let encode = |_: Vec<u8>| -> Result<(), OcrError> { Ok(()) };
    let step = |_: &(), ids: &Vec<i64>| -> Result<Logits, OcrError> {
        if ids.len() == 2 {
            Ok(Logits::new(vec![VOCABULARY], vec![0; VOCABULARY]).unwrap())
        } else {
            Ok(peaked(ids.len(), 4))
        }
    };
    assert_eq!(model.run(&picture(), encode, step), Err(OcrError::Shape));
}
