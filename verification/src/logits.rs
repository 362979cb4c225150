//! The decoder's output scores and the greedy choice among them.
//!
//! A score is held as an integer key that orders as the model's score does:
//! a greater key is a greater score, equal keys are equal scores.

use crate::error::OcrError;
use vstd::prelude::*;
use vstd::slice::slice_subrange;

verus! {

/// The number of elements of a tensor of this shape.
pub open spec fn shape_size(shape: Seq<usize>) -> nat
    decreases shape.len(),
{
    if shape.len() == 0 {
        1
    } else {
        shape_size(shape.drop_last()) * (shape.last() as nat)
    }
}

/// `idx` is a position of `row` that holds its greatest key.
pub open spec fn is_argmax(row: Seq<i32>, idx: int) -> bool {
    &&& 0 <= idx < row.len()
    &&& forall|j: int| 0 <= j < row.len() ==> row[j] <= row[idx]
}

/// A shape with a zero dimension has no elements.
pub proof fn lemma_zero_dim_empty(shape: Seq<usize>, at: int)
    requires
        0 <= at < shape.len(),
        shape[at] == 0,
    ensures
        shape_size(shape) == 0,
    decreases shape.len(),
{
    if at < shape.len() - 1 {
        lemma_zero_dim_empty(shape.drop_last(), at);
        assert(shape_size(shape.drop_last()) * (shape.last() as nat) == 0) by (nonlinear_arith)
            requires
                shape_size(shape.drop_last()) == 0,
        ;
    } else {
        assert(shape_size(shape.drop_last()) * (shape.last() as nat) == 0) by (nonlinear_arith)
            requires
                shape.last() == 0,
        ;
    }
}

/// Without a zero dimension, a leading part of a shape is no larger than the
/// whole.
pub proof fn lemma_prefix_size(shape: Seq<usize>, n: int)
    requires
        0 <= n <= shape.len(),
        forall|i: int| 0 <= i < shape.len() ==> shape[i] >= 1,
    ensures
        1 <= shape_size(shape.take(n)) <= shape_size(shape),
    decreases shape.len() - n,
{
    if n == shape.len() {
        assert(shape.take(n) == shape);
        lemma_size_positive(shape);
    } else {
        lemma_prefix_size(shape, n + 1);
        let next = shape.take(n + 1);
        assert(next.drop_last() == shape.take(n));
        assert(next.last() == shape[n]);
        lemma_size_positive(shape.take(n));
        assert(shape_size(shape.take(n)) <= shape_size(shape.take(n)) * (shape[n] as nat))
            by (nonlinear_arith)
            requires
                shape[n] >= 1,
        ;
    }
}

/// Without a zero dimension a shape has at least one element.
pub proof fn lemma_size_positive(shape: Seq<usize>)
    requires
        forall|i: int| 0 <= i < shape.len() ==> shape[i] >= 1,
    ensures
        shape_size(shape) >= 1,
    decreases shape.len(),
{
    if shape.len() > 0 {
        let front = shape.drop_last();
        assert forall|i: int| 0 <= i < front.len() implies front[i] >= 1 by {
            assert(front[i] == shape[i]);
        }
        lemma_size_positive(front);
        assert(shape_size(front) * (shape.last() as nat) >= 1) by (nonlinear_arith)
            requires
                shape_size(front) >= 1,
                shape.last() >= 1,
        ;
    }
}

/// The size of a shape of three dimensions.
pub proof fn lemma_size_rank3(shape: Seq<usize>)
    requires
        shape.len() == 3,
    ensures
        shape_size(shape) == (shape[0] as nat) * (shape[1] as nat) * (shape[2] as nat),
{
    let s2 = shape.drop_last();
    let s1 = s2.drop_last();
    let s0 = s1.drop_last();
    assert(s0.len() == 0);
    assert(shape_size(s0) == 1);
    assert(shape_size(s1) == 1 * (shape[0] as nat));
    assert(shape_size(s2) == shape_size(s1) * (shape[1] as nat));
    assert(shape_size(shape) == shape_size(s2) * (shape[2] as nat));
}

/// Calls `ndarray_stats::QuantileExt::argmax` on a one-dimensional view of
/// `row`: the index it returns holds a greatest element. Which of several
/// equal greatest elements it names is left open.
#[verifier::external_body]
fn argmax_index(row: &[i32]) -> (idx: usize)
    requires
        row@.len() > 0,
    ensures
        is_argmax(row@, idx as int),
{
    ndarray_stats::QuantileExt::argmax(&ndarray::ArrayView1::from(row)).unwrap()
}

/// A tensor of scores with its shape.
pub struct Logits {
    shape: Vec<usize>,
    scores: Vec<i32>,
}

impl Logits {
    #[verifier::type_invariant]
    closed spec fn well_formed(&self) -> bool {
        self.scores@.len() == shape_size(self.shape@) && self.scores@.len() <= i64::MAX
    }

    /// The dimension sizes, outermost first.
    pub closed spec fn shape(&self) -> Seq<usize> {
        self.shape@
    }

    /// The keys in row-major order.
    pub closed spec fn scores(&self) -> Seq<i32> {
        self.scores@
    }

    /// The tensor is (batch, position, vocabulary) with nothing empty.
    pub open spec fn has_last_row(&self) -> bool {
        &&& self.shape().len() == 3
        &&& self.shape()[0] >= 1
        &&& self.shape()[1] >= 1
        &&& self.shape()[2] >= 1
    }

    /// The keys over the vocabulary at the last position of the first batch
    /// entry.
    pub open spec fn last_row(&self) -> Seq<i32> {
        let positions = self.shape()[1] as int;
        let vocabulary = self.shape()[2] as int;
        self.scores().subrange((positions - 1) * vocabulary, positions * vocabulary)
    }

    /// Whether greedy decoding may pick `token` from these scores.
    pub open spec fn picks(&self, token: i64) -> bool {
        self.has_last_row() && is_argmax(self.last_row(), token as int)
    }

    /// Pairs a shape with its keys, where the number of keys is the shape's
    /// size and an index into them fits a token id.
    pub fn new(shape: Vec<usize>, scores: Vec<i32>) -> (made: Option<Logits>)
        ensures
            made is Some <==> scores@.len() == shape_size(shape@) && scores@.len() <= i64::MAX,
            made matches Some(l) ==> l.shape() == shape@ && l.scores() == scores@,
    {
        if scores.len() as u64 > 0x7fff_ffff_ffff_ffffu64 {
            return None;
        }
        let mut z: usize = 0;
        while z < shape.len()
            invariant
                z <= shape.len(),
                forall|i: int| 0 <= i < z ==> shape@[i] >= 1,
            decreases shape.len() - z,
        {
            if shape[z] == 0 {
                proof {
                    lemma_zero_dim_empty(shape@, z as int);
                }
                if scores.len() == 0 {
                    return Some(Logits { shape, scores });
                } else {
                    return None;
                }
            }
            z += 1;
        }
        if scores.len() == 0 {
            proof {
                lemma_size_positive(shape@);
            }
            return None;
        }
        let mut size: usize = 1;
        let mut i: usize = 0;
        while i < shape.len()
            invariant
                i <= shape.len(),
                forall|j: int| 0 <= j < shape.len() ==> shape@[j] >= 1,
                size == shape_size(shape@.take(i as int)),
                size <= scores.len(),
                scores.len() >= 1,
            decreases shape.len() - i,
        {
            proof {
                let next = shape@.take(i + 1);
                assert(next.drop_last() == shape@.take(i as int));
                assert(next.last() == shape@[i as int]);
                lemma_prefix_size(shape@, i + 1);
            }
            match size.checked_mul(shape[i]) {
                Some(bigger) => {
                    if bigger > scores.len() {
                        return None;
                    }
                    size = bigger;
                },
                None => {
                    return None;
                },
            }
            i += 1;
        }
        proof {
            assert(shape@.take(shape@.len() as int) == shape@);
        }
        if size == scores.len() {
            Some(Logits { shape, scores })
        } else {
            None
        }
    }

    /// The number of dimensions.
    pub fn rank(&self) -> (n: usize)
        ensures
            n == self.shape().len(),
    {
        self.shape.len()
    }
}

/// The token that greedy decoding picks: a position of the greatest score
/// over the vocabulary, at the last position of the first batch entry. Scores
/// of any rank but three are refused.
pub fn last_token_idx(input: Logits) -> (token: Result<i64, OcrError>)
    requires
        input.shape().len() == 3 ==> input.has_last_row(),
    ensures
        input.shape().len() != 3 ==> token == Err::<i64, OcrError>(OcrError::Shape),
        input.shape().len() == 3 ==> token is Ok && input.picks(token->Ok_0),
{
    if input.shape.len() != 3 {
        return Err(OcrError::Shape);
    }
    let batch = input.shape[0];
    let positions = input.shape[1];
    let vocabulary = input.shape[2];
    let total = input.scores.len();
    proof {
        use_type_invariant(&input);
        lemma_size_rank3(input.shape@);
        let b = batch as int;
        let p = positions as int;
        let v = vocabulary as int;
        assert(b * p * v == total);
        assert(p * v <= b * p * v) by (nonlinear_arith)
            requires
                b >= 1,
                p >= 0,
                v >= 0,
        ;
        assert((p - 1) * v + v == p * v) by (nonlinear_arith);
        assert(0 <= (p - 1) * v) by (nonlinear_arith)
            requires
                p >= 1,
                v >= 0,
        ;
    }
    let start: usize = (positions - 1) * vocabulary;
    let end: usize = start + vocabulary;
    let row = slice_subrange(input.scores.as_slice(), start, end);
    let idx = argmax_index(row);
    Ok(idx as i64)
}

} // verus!
