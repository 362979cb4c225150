//! Greedy autoregressive decoding with the repeated-end-token stopping rule.
//!
//! The decoder model itself is handed in as a function from the encoder's
//! hidden state and the tokens so far to the scores of the next token; the
//! loop around it is decided here.

use crate::error::OcrError;
use crate::logits::{last_token_idx, Logits};
use crate::stopping::{count_end_tokens, is_end_token, should_stop, stopping_window};
use vstd::prelude::*;

verus! {

/// The token every sequence begins with.
pub const START_TOKEN: i64 = 2;

/// The size of the stopping window unless another is asked for.
pub const DEFAULT_END_TOKEN_REPEATS: usize = 3;

/// The end-token ids as the decoder holds them.
pub open spec fn widened(ids: Seq<u32>) -> Seq<i64> {
    ids.map_values(|id: u32| id as i64)
}

/// `out` is something the model may answer when asked for the scores that
/// follow `ids`.
pub open spec fn step_yields<H, S: Fn(&H, &Vec<i64>) -> Result<Logits, OcrError>>(
    step: S,
    hidden: &H,
    ids: Seq<i64>,
    out: Result<Logits, OcrError>,
) -> bool {
    exists|v: Vec<i64>| v@ == ids && #[trigger] step.ensures((hidden, &v), out)
}

/// Token `i` of `tokens` is a greedy pick from scores that the model may
/// answer for the tokens before it.
pub open spec fn picked_at<H, S: Fn(&H, &Vec<i64>) -> Result<Logits, OcrError>>(
    step: S,
    hidden: &H,
    tokens: Seq<i64>,
    i: int,
) -> bool {
    exists|scores: Logits| #[trigger]
        step_yields(step, hidden, tokens.take(i), Ok(scores)) && scores.picks(tokens[i])
}

/// The settings of the decoding loop.
pub struct Decoder {
    max_end_token_repeats: usize,
    end_token_ids: Vec<i64>,
}

impl Decoder {
    /// The size of the stopping window, which is also the number of end
    /// tokens it must hold.
    pub closed spec fn repeats(&self) -> nat {
        self.max_end_token_repeats as nat
    }

    /// The ids that count as end of sequence.
    pub closed spec fn end_ids(&self) -> Seq<i64> {
        self.end_token_ids@
    }

    /// Decoding goes on after the first `i` tokens of `tokens`.
    pub open spec fn continues_at(&self, tokens: Seq<i64>, i: int) -> bool {
        !should_stop(tokens.take(i), self.end_ids(), self.repeats())
    }

    /// `tokens` is what the loop holds after `tokens.len() - 1` steps, none of
    /// which but the last has been looked at by the stopping rule yet: it
    /// begins with the start token, every further token is a greedy pick, and
    /// the rule did not stop the loop any earlier.
    pub open spec fn is_run<H, S: Fn(&H, &Vec<i64>) -> Result<Logits, OcrError>>(
        &self,
        step: S,
        hidden: &H,
        tokens: Seq<i64>,
    ) -> bool {
        &&& tokens.len() >= 1
        &&& tokens[0] == START_TOKEN
        &&& forall|i: int| 1 <= i < tokens.len() ==> #[trigger] picked_at(step, hidden, tokens, i)
        &&& forall|i: int| 2 <= i < tokens.len() ==> #[trigger] self.continues_at(tokens, i)
    }

    /// `tokens` is a run after which the loop asks the model once more.
    pub open spec fn is_open_run<H, S: Fn(&H, &Vec<i64>) -> Result<Logits, OcrError>>(
        &self,
        step: S,
        hidden: &H,
        tokens: Seq<i64>,
        max_tokens: usize,
    ) -> bool {
        &&& self.is_run(step, hidden, tokens)
        &&& tokens.len() <= max_tokens
        &&& tokens.len() >= 2 ==> !should_stop(tokens, self.end_ids(), self.repeats())
    }

    /// `out` is a way in which decoding with `step` for at most `max_tokens`
    /// steps may end.
    ///
    /// A sequence is a run that either took all of its steps or was stopped by
    /// the rule after its last token. An error is one that `step` gave after
    /// some run that was still going on, or the shape error for scores of a
    /// rank other than three after such a run.
    pub open spec fn may_decode<H, S: Fn(&H, &Vec<i64>) -> Result<Logits, OcrError>>(
        &self,
        step: S,
        hidden: &H,
        max_tokens: usize,
        out: Result<Seq<i64>, OcrError>,
    ) -> bool {
        match out {
            Ok(tokens) => {
                &&& self.is_run(step, hidden, tokens)
                &&& tokens.len() <= max_tokens + 1
                &&& tokens.len() == max_tokens + 1 || (tokens.len() >= 2 && should_stop(
                    tokens,
                    self.end_ids(),
                    self.repeats(),
                ))
            },
            Err(e) => exists|run: Seq<i64>|
                {
                    &&& #[trigger] self.is_open_run(step, hidden, run, max_tokens)
                    &&& step_yields(step, hidden, run, Err(e)) || (e == OcrError::Shape
                        && exists|scores: Logits| #[trigger]
                        step_yields(step, hidden, run, Ok(scores)) && scores.shape().len() != 3)
                },
        }
    }

    /// A decoder that stops once `max_end_token_repeats` of the trailing
    /// `max_end_token_repeats` tokens are among `end_token_ids`.
    pub fn new(max_end_token_repeats: usize, end_token_ids: &[u32]) -> (decoder: Decoder)
        ensures
            decoder.repeats() == max_end_token_repeats,
            decoder.end_ids() == widened(end_token_ids@),
    {
        let mut ids: Vec<i64> = Vec::new();
        let mut i: usize = 0;
        while i < end_token_ids.len()
            invariant
                i <= end_token_ids@.len(),
                ids@ == widened(end_token_ids@.take(i as int)),
            decreases end_token_ids.len() - i,
        {
            ids.push(end_token_ids[i] as i64);
            proof {
                assert(end_token_ids@.take(i + 1).drop_last() == end_token_ids@.take(i as int));
                assert(ids@ == widened(end_token_ids@.take(i + 1)));
            }
            i += 1;
        }
        proof {
            assert(end_token_ids@.take(end_token_ids@.len() as int) == end_token_ids@);
        }
        Decoder { max_end_token_repeats, end_token_ids: ids }
    }

    /// The size of the stopping window.
    pub fn max_end_token_repeats(&self) -> (k: usize)
        ensures
            k == self.repeats(),
    {
        self.max_end_token_repeats
    }

    /// The ids that count as end of sequence.
    pub fn end_token_ids(&self) -> (ids: &Vec<i64>)
        ensures
            ids@ == self.end_ids(),
    {
        &self.end_token_ids
    }

    /// Evaluates the stopping rule: whether `tokens` holds at least `k` tokens
    /// and at least `k` of its trailing `k` tokens are end tokens, `k` being
    /// the configured number of repeats.
    pub fn stop_decoding(&self, tokens: &[i64]) -> (stop: bool)
        ensures
            stop == should_stop(tokens@, self.end_ids(), self.repeats()),
    {
        let k = self.max_end_token_repeats;
        if tokens.len() < k {
            return false;
        }
        let start: usize = tokens.len() - k;
        let ghost window = stopping_window(tokens@, k as nat);
        let mut count: usize = 0;
        let mut i: usize = start;
        while i < tokens.len()
            invariant
                start <= i <= tokens@.len(),
                start == tokens@.len() - k,
                window == tokens@.subrange(start as int, tokens@.len() as int),
                count == count_end_tokens(window.take(i - start), self.end_token_ids@),
                count <= i - start,
            decreases tokens.len() - i,
        {
            let hit = is_end_token(&self.end_token_ids, tokens[i]);
            proof {
                let next = window.take(i - start + 1);
                assert(next.drop_last() == window.take(i - start));
                assert(next.last() == tokens@[i as int]);
            }
            if hit {
                count += 1;
            }
            i += 1;
        }
        proof {
            assert(window.take(k as int) == window);
        }
        count >= k
    }

    /// Runs the greedy decoding loop for at most `max_tokens` steps.
    ///
    /// Each step asks `step` for the scores that follow the tokens so far,
    /// appends a token of greatest score at the last position, and ends the
    /// loop where the stopping rule holds of the grown sequence. The sequence
    /// is returned whole, start token included and nothing trimmed. A failure
    /// of `step`, or scores of a rank other than three, abort the decoding with
    /// that error and nothing of the sequence.
    pub fn decode<H, S: Fn(&H, &Vec<i64>) -> Result<Logits, OcrError>>(
        &self,
        hidden: &H,
        step: S,
        max_tokens: usize,
    ) -> (out: Result<Vec<i64>, OcrError>)
        requires
            forall|ids: &Vec<i64>| #[trigger] step.requires((hidden, ids)),
            forall|ids: &Vec<i64>, scores: Logits|
                #[trigger] step.ensures((hidden, ids), Ok(scores)) && scores.shape().len() == 3
                    ==> scores.has_last_row(),
        ensures
            max_tokens == 0 ==> out is Ok,
            match out {
                Ok(tokens) => self.may_decode(step, hidden, max_tokens, Ok(tokens@)),
                Err(e) => self.may_decode(step, hidden, max_tokens, Err(e)),
            },
    {
        let mut tokens: Vec<i64> = Vec::new();
        tokens.push(START_TOKEN);
        let mut steps: usize = 0;
        while steps < max_tokens
            invariant
                steps <= max_tokens,
                tokens@.len() == steps + 1,
                self.is_open_run(step, hidden, tokens@, max_tokens) || steps == max_tokens,
                self.is_run(step, hidden, tokens@),
                forall|ids: &Vec<i64>| #[trigger] step.requires((hidden, ids)),
                forall|ids: &Vec<i64>, scores: Logits|
                    #[trigger] step.ensures((hidden, ids), Ok(scores)) && scores.shape().len() == 3
                        ==> scores.has_last_row(),
            decreases max_tokens - steps,
        {
            let ghost before = tokens@;
            let answer = step(hidden, &tokens);
            assert(step_yields(step, hidden, before, answer));
            let scores = match answer {
                Ok(scores) => scores,
                Err(e) => {
                    return Err(e);
                },
            };
            let ghost seen = scores;
            let picked = match last_token_idx(scores) {
                Ok(picked) => picked,
                Err(e) => {
                    return Err(e);
                },
            };
            tokens.push(picked);
            steps += 1;
            proof {
                let after = tokens@;
                assert(after.take(before.len() as int) == before);
                assert(step_yields(step, hidden, after.take(before.len() as int), Ok(seen))
                    && seen.picks(after[before.len() as int]));
                assert(picked_at(step, hidden, after, before.len() as int));
                assert forall|i: int| 1 <= i < after.len() implies #[trigger] picked_at(
                    step,
                    hidden,
                    after,
                    i,
                ) by {
                    if i < before.len() {
                        assert(picked_at(step, hidden, before, i));
                        assert(after.take(i) == before.take(i));
                        assert(after[i] == before[i]);
                    }
                }
                assert forall|i: int| 2 <= i < after.len() implies #[trigger] self.continues_at(
                    after,
                    i,
                ) by {
                    if i < before.len() {
                        assert(self.continues_at(before, i));
                        assert(after.take(i) == before.take(i));
                    }
                }
            }
            if self.stop_decoding(tokens.as_slice()) {
                return Ok(tokens);
            }
        }
        Ok(tokens)
    }
}

} // verus!
