//! The repeated-end-token stopping rule of the greedy decoder.

use vstd::prelude::*;

verus! {

/// How many elements of `tokens` are members of `end_ids`.
pub open spec fn count_end_tokens(tokens: Seq<i64>, end_ids: Seq<i64>) -> nat
    decreases tokens.len(),
{
    if tokens.len() == 0 {
        0
    } else {
        count_end_tokens(tokens.drop_last(), end_ids) + if end_ids.contains(tokens.last()) {
            1nat
        } else {
            0nat
        }
    }
}

/// The trailing `k` elements of `tokens`; all of it where it is shorter.
pub open spec fn stopping_window(tokens: Seq<i64>, k: nat) -> Seq<i64> {
    if tokens.len() < k {
        tokens
    } else {
        tokens.subrange(tokens.len() - k, tokens.len() as int)
    }
}

/// The stopping rule: the sequence holds at least `k` tokens and at least `k`
/// of its trailing `k` tokens are end tokens.
pub open spec fn should_stop(tokens: Seq<i64>, end_ids: Seq<i64>, k: nat) -> bool {
    tokens.len() >= k && count_end_tokens(stopping_window(tokens, k), end_ids) >= k
}

/// A count never exceeds the length of what was counted.
pub proof fn lemma_count_bounded(tokens: Seq<i64>, end_ids: Seq<i64>)
    ensures
        count_end_tokens(tokens, end_ids) <= tokens.len(),
    decreases tokens.len(),
{
    if tokens.len() > 0 {
        lemma_count_bounded(tokens.drop_last(), end_ids);
    }
}

/// The count reaches the length exactly when every element is an end token.
pub proof fn lemma_count_full(tokens: Seq<i64>, end_ids: Seq<i64>)
    ensures
        count_end_tokens(tokens, end_ids) == tokens.len() <==> forall|i: int|
            0 <= i < tokens.len() ==> end_ids.contains(#[trigger] tokens[i]),
    decreases tokens.len(),
{
    if tokens.len() > 0 {
        let front = tokens.drop_last();
        lemma_count_full(front, end_ids);
        lemma_count_bounded(front, end_ids);
        if count_end_tokens(tokens, end_ids) == tokens.len() {
            assert forall|i: int| 0 <= i < tokens.len() implies end_ids.contains(
                #[trigger] tokens[i],
            ) by {
                if i < front.len() {
                    assert(front[i] == tokens[i]);
                }
            }
        }
        if forall|i: int| 0 <= i < tokens.len() ==> end_ids.contains(#[trigger] tokens[i]) {
            assert forall|i: int| 0 <= i < front.len() implies end_ids.contains(
                #[trigger] front[i],
            ) by {
                assert(front[i] == tokens[i]);
            }
            assert(end_ids.contains(tokens.last()));
        }
    }
}

/// The stopping rule holds exactly when at least `k` of the last `k` tokens are
/// end tokens, which is when all of them are; a sequence shorter than `k`
/// never stops.
pub proof fn lemma_should_stop_iff_window_all_end(tokens: Seq<i64>, end_ids: Seq<i64>, k: nat)
    ensures
        tokens.len() < k ==> !should_stop(tokens, end_ids, k),
        should_stop(tokens, end_ids, k) <==> (tokens.len() >= k && count_end_tokens(
            tokens.subrange(tokens.len() - k, tokens.len() as int),
            end_ids,
        ) >= k),
        should_stop(tokens, end_ids, k) <==> (tokens.len() >= k && forall|i: int|
            tokens.len() - k <= i < tokens.len() ==> end_ids.contains(#[trigger] tokens[i])),
{
    if tokens.len() >= k {
        let window = stopping_window(tokens, k);
        lemma_count_bounded(window, end_ids);
        lemma_count_full(window, end_ids);
        if should_stop(tokens, end_ids, k) {
            assert forall|i: int| tokens.len() - k <= i < tokens.len() implies end_ids.contains(
                #[trigger] tokens[i],
            ) by {
                assert(window[i - (tokens.len() - k)] == tokens[i]);
            }
        }
        if forall|i: int|
            tokens.len() - k <= i < tokens.len() ==> end_ids.contains(#[trigger] tokens[i]) {
            assert forall|j: int| 0 <= j < window.len() implies end_ids.contains(
                #[trigger] window[j],
            ) by {
                assert(window[j] == tokens[j + (tokens.len() - k)]);
            }
        }
    }
}

/// Whether `token` occurs in `ids`.
pub fn is_end_token(ids: &Vec<i64>, token: i64) -> (found: bool)
    ensures
        found == ids@.contains(token),
{
    let mut i: usize = 0;
    while i < ids.len()
        invariant
            i <= ids.len(),
            forall|j: int| 0 <= j < i ==> ids@[j] != token,
        decreases ids.len() - i,
    {
        if ids[i] == token {
            return true;
        }
        i += 1;
    }
    false
}

} // verus!
