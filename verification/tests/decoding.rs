use manga_ocr::decoder::{Decoder, DEFAULT_END_TOKEN_REPEATS, START_TOKEN};
use manga_ocr::error::OcrError;
use manga_ocr::logits::{last_token_idx, Logits};

const VOCABULARY: usize = 8;

/// Scores of shape (1, positions, VOCABULARY) that peak at `peak` everywhere.
fn peaked(positions: usize, peak: usize) -> Logits {
    let mut scores = vec![-5i32; positions * VOCABULARY];
    for p in 0..positions {
        scores[p * VOCABULARY + peak] = 40;
    }
    Logits::new(vec![1, positions, VOCABULARY], scores).unwrap()
}

#[test]
fn stop_rule_needs_k_end_tokens_in_last_k() {
    let decoder = Decoder::new(3, &[3, 7]);
    assert!(decoder.stop_decoding(&[2, 3, 3, 3]));
    assert!(decoder.stop_decoding(&[2, 3, 7, 3]));
    assert!(decoder.stop_decoding(&[3, 3, 3]));
    assert!(!decoder.stop_decoding(&[2, 3, 3, 4]));
    assert!(!decoder.stop_decoding(&[3, 3, 3, 4]));
    assert!(!decoder.stop_decoding(&[2, 4, 3, 3]));
    assert!(decoder.stop_decoding(&[2, 4, 3, 3, 3]));
}

#[test]
fn stop_rule_is_false_for_short_sequences() {
    let decoder = Decoder::new(3, &[3]);
    assert!(!decoder.stop_decoding(&[]));
    assert!(!decoder.stop_decoding(&[3]));
    assert!(!decoder.stop_decoding(&[3, 3]));
}

#[test]
fn stop_rule_with_window_of_one() {
    let decoder = Decoder::new(1, &[9]);
    assert!(decoder.stop_decoding(&[2, 9]));
    assert!(!decoder.stop_decoding(&[9, 2]));
}

#[test]
fn stop_rule_with_empty_window_always_holds() {
    let decoder = Decoder::new(0, &[9]);
    assert!(decoder.stop_decoding(&[]));
    assert!(decoder.stop_decoding(&[2, 4]));
}

#[test]
fn stop_rule_without_end_tokens_never_holds() {
    let decoder = Decoder::new(2, &[]);
    assert!(!decoder.stop_decoding(&[2, 3, 3, 3]));
}

#[test]
fn decoding_constants() {
    assert_eq!(START_TOKEN, 2);
    assert_eq!(DEFAULT_END_TOKEN_REPEATS, 3);
}

#[test]
fn decoder_keeps_its_settings() {
    let decoder = Decoder::new(3, &[3, 4_000_000_000]);
    assert_eq!(decoder.max_end_token_repeats(), 3);
    assert_eq!(decoder.end_token_ids(), &vec![3i64, 4_000_000_000i64]);
}

#[test]
fn decoding_stops_after_three_end_tokens() {
    let end: usize = 3;
    let decoder = Decoder::new(3, &[end as u32]);
    let hidden = vec![7u8; 4];
    let step = |_: &Vec<u8>, ids: &Vec<i64>| -> Result<Logits, OcrError> { Ok(peaked(ids.len(), end)) };
    let tokens = decoder.decode(&hidden, step, 300).unwrap();
    assert_eq!(tokens, vec![2, 3, 3, 3]);
}

#[test]
fn decoding_runs_to_the_token_limit() {
    let cycle = [5usize, 6, 7];
    let decoder = Decoder::new(3, &[3]);
    let step = |_: &(), ids: &Vec<i64>| -> Result<Logits, OcrError> {
        Ok(peaked(ids.len(), cycle[(ids.len() - 1) % cycle.len()]))
    };
    let tokens = decoder.decode(&(), step, 10).unwrap();
    assert_eq!(tokens.len(), 11);
    assert_eq!(tokens, vec![2, 5, 6, 7, 5, 6, 7, 5, 6, 7, 5]);
}

#[test]
fn decoding_never_exceeds_limit_plus_one() {
    let decoder = Decoder::new(3, &[3]);
    for limit in 0..6usize {
        let step = |_: &(), ids: &Vec<i64>| -> Result<Logits, OcrError> { Ok(peaked(ids.len(), 5)) };
        let tokens = decoder.decode(&(), step, limit).unwrap();
        assert_eq!(tokens.len(), limit + 1);
        assert_eq!(tokens[0], START_TOKEN);
    }
}

#[test]
fn decoding_with_no_steps_returns_the_start_token() {
    let decoder = Decoder::new(3, &[3]);
    let step = |_: &(), _: &Vec<i64>| -> Result<Logits, OcrError> { Err(OcrError::Inference) };
    assert_eq!(decoder.decode(&(), step, 0), Ok(vec![2]));
}

#[test]
fn decoding_keeps_an_unfinished_tail() {
    let decoder = Decoder::new(3, &[3]);
    let step = |_: &(), ids: &Vec<i64>| -> Result<Logits, OcrError> {
        Ok(peaked(ids.len(), if ids.len() < 3 { 4 } else { 3 }))
    };
    assert_eq!(decoder.decode(&(), step, 4), Ok(vec![2, 4, 4, 3, 3]));
}

#[test]
fn decoding_aborts_on_backend_failure() {
    let decoder = Decoder::new(3, &[3]);
    let step = |_: &(), ids: &Vec<i64>| -> Result<Logits, OcrError> {
        if ids.len() < 3 {
            Ok(peaked(ids.len(), 5))
        } else {
            Err(OcrError::Inference)
        }
    };
    assert_eq!(decoder.decode(&(), step, 10), Err(OcrError::Inference));
}

#[test]
fn decoding_aborts_on_scores_of_wrong_rank() {
    let decoder = Decoder::new(3, &[3]);
    let step = |_: &(), _: &Vec<i64>| -> Result<Logits, OcrError> {
        Ok(Logits::new(vec![1, VOCABULARY], vec![0; VOCABULARY]).unwrap())
    };
    assert_eq!(decoder.decode(&(), step, 10), Err(OcrError::Shape));
}

#[test]
fn decoding_hands_the_hidden_state_to_every_step() {
    let decoder = Decoder::new(2, &[1]);
    let hidden: usize = 6;
    let step = |h: &usize, ids: &Vec<i64>| -> Result<Logits, OcrError> { Ok(peaked(ids.len(), *h)) };
    assert_eq!(decoder.decode(&hidden, step, 3), Ok(vec![2, 6, 6, 6]));
}

#[test]
fn last_token_is_the_peak_of_the_last_position() {
    let mut scores = vec![0i32; 2 * 3 * 4];
    // batch 0, position 1 peaks at 0; batch 0, last position peaks at 2;
    // batch 1 peaks elsewhere and is never looked at.
    scores[4] = 90;
    scores[2 * 4 + 2] = 17;
    scores[12 + 2 * 4 + 3] = 99;
    let logits = Logits::new(vec![2, 3, 4], scores).unwrap();
    assert_eq!(logits.rank(), 3);
    assert_eq!(last_token_idx(logits), Ok(2));
}

#[test]
fn last_token_with_negative_scores() {
    let logits = Logits::new(vec![1, 1, 5], vec![-9, -3, -7, -2, -8]).unwrap();
    assert_eq!(last_token_idx(logits), Ok(3));
}

#[test]
fn last_token_refuses_other_ranks() {
    let flat = Logits::new(vec![6], vec![1, 2, 3, 4, 5, 6]).unwrap();
    assert_eq!(last_token_idx(flat), Err(OcrError::Shape));
    let four = Logits::new(vec![1, 1, 2, 3], vec![1, 2, 3, 4, 5, 6]).unwrap();
    assert_eq!(last_token_idx(four), Err(OcrError::Shape));
    let none = Logits::new(vec![], vec![1]).unwrap();
    assert_eq!(last_token_idx(none), Err(OcrError::Shape));
}

#[test]
fn logits_need_as_many_scores_as_the_shape_says() {
    assert!(Logits::new(vec![1, 2, 3], vec![0; 6]).is_some());
    assert!(Logits::new(vec![1, 2, 3], vec![0; 5]).is_none());
    assert!(Logits::new(vec![1, 2, 3], vec![0; 7]).is_none());
    assert!(Logits::new(vec![2, 0, 3], vec![]).is_some());
    assert!(Logits::new(vec![2, 0, 3], vec![0]).is_none());
    assert!(Logits::new(vec![], vec![]).is_none());
    assert!(Logits::new(vec![usize::MAX, usize::MAX], vec![0; 4]).is_none());
    assert!(Logits::new(vec![usize::MAX, usize::MAX, 0], vec![]).is_some());
}

#[test]
fn error_messages() {
    assert_eq!(OcrError::ModelLoad.message(), "Missing encoder, decoder, or tokenizer model");
    assert_eq!(OcrError::Shape.message(), "Expected array to have 3 dimensions");
    assert_eq!(OcrError::Tokenization.message(), "Failed to decode");
    assert_eq!(OcrError::Inference.message(), "Failed to run model");
    assert_eq!(OcrError::ModelAcquisition.message(), "Failed to resolve model artifacts");
    assert_eq!(OcrError::Clipboard.message(), "Clipboard unavailable");
}
