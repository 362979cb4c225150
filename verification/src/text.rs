//! From token ids to the final text.
//!
//! The tokenizer is an opaque capability: what it makes of ids or of text is
//! its own business. What is done with its answers is decided here.

use crate::error::OcrError;
use tokenizers::Tokenizer;
use vstd::prelude::*;

verus! {

/// `tokenizers::Tokenizer`, carried through as an opaque value.
#[verifier::external_type_specification]
#[verifier::external_body]
pub struct ExTokenizer(Tokenizer);

/// What `Tokenizer::decode` makes of `ids`: the text, or nothing where it
/// fails. It depends on the tokenizer, the ids and the flag alone.
pub uninterp spec fn decoded_text(tokenizer: Tokenizer, ids: Seq<u32>, skip: bool) -> Option<
    Seq<char>,
>;

/// Calls `Tokenizer::decode`: the text for `ids`, or `None` where the
/// tokenizer fails, which is `decoded_text` of the arguments.
#[verifier::external_body]
fn detokenize(tokenizer: &Tokenizer, ids: &Vec<u32>, skip_special_tokens: bool) -> (text: Option<
    String,
>)
    ensures
        text matches Some(t) ==> decoded_text(*tokenizer, ids@, skip_special_tokens) == Some(t@),
        text is None ==> decoded_text(*tokenizer, ids@, skip_special_tokens) is None,
{
    tokenizer.decode(ids.as_slice(), skip_special_tokens).ok()
}

/// Calls `Tokenizer::encode` on a single sequence and hands out the ids of
/// the encoding (`Encoding::get_ids`), or `None` where the tokenizer fails.
/// An encoding may draw on chance, so nothing is claimed of the ids.
#[verifier::external_body]
fn tokenize(tokenizer: &Tokenizer, text: &str, add_special_tokens: bool) -> (ids: Option<Vec<u32>>) {
    match tokenizer.encode(text, add_special_tokens) {
        Ok(encoding) => Some(encoding.get_ids().to_vec()),
        Err(_) => None,
    }
}

/// Calls `String::push`: `c` is appended to `text`.
#[verifier::external_body]
fn push_char(text: &mut String, c: char)
    ensures
        final(text)@ == old(text)@.push(c),
{
    text.push(c)
}

/// `s` with every space character taken out and all else kept in order.
pub open spec fn without_spaces(s: Seq<char>) -> Seq<char>
    decreases s.len(),
{
    if s.len() == 0 {
        s
    } else if s.last() == ' ' {
        without_spaces(s.drop_last())
    } else {
        without_spaces(s.drop_last()).push(s.last())
    }
}

/// The token ids as the tokenizer takes them: cut down to 32 bits.
pub open spec fn narrowed(tokens: Seq<i64>) -> Seq<u32> {
    tokens.map_values(|t: i64| t as u32)
}

/// What becomes of the tokenizer's answer: its text without spaces, or a
/// tokenization error where it gave none.
pub open spec fn text_of(answer: Option<Seq<char>>) -> Result<Seq<char>, OcrError> {
    match answer {
        Some(text) => Ok(without_spaces(text)),
        None => Err(OcrError::Tokenization),
    }
}

/// `text_of` for an answer held as a string.
pub open spec fn finished(decoded: Option<String>) -> Result<Seq<char>, OcrError> {
    text_of(
        match decoded {
            Some(text) => Some(text@),
            None => None,
        },
    )
}

/// The final text for `tokens`: what the tokenizer decodes from all of them,
/// cut down to 32 bits and with special tokens skipped, without its spaces.
pub open spec fn recognised_text(tokenizer: Tokenizer, tokens: Seq<i64>) -> Result<
    Seq<char>,
    OcrError,
> {
    text_of(decoded_text(tokenizer, narrowed(tokens), true))
}

/// Nothing is left of the spaces, and a text without any is left as it is.
pub proof fn lemma_without_spaces(s: Seq<char>)
    ensures
        !without_spaces(s).contains(' '),
        without_spaces(s).len() <= s.len(),
        !s.contains(' ') ==> without_spaces(s) == s,
        without_spaces(without_spaces(s)) == without_spaces(s),
    decreases s.len(),
{
    if s.len() > 0 {
        let front = s.drop_last();
        lemma_without_spaces(front);
        let kept = without_spaces(front);
        if s.last() != ' ' {
            let all = kept.push(s.last());
            assert forall|i: int| 0 <= i < all.len() implies all[i] != ' ' by {
                if i < kept.len() {
                    assert(kept.contains(kept[i]));
                }
            }
            assert(all.drop_last() == kept);
        }
        if !s.contains(' ') {
            assert forall|i: int| 0 <= i < front.len() implies front[i] != ' ' by {
                assert(s.contains(s[i]));
            }
            assert(s.contains(s.last()));
            assert(front.push(s.last()) == s);
        }
    }
}

/// Removes every space character from `text`.
pub fn strip_spaces(text: &str) -> (out: String)
    ensures
        out@ == without_spaces(text@),
{
    let n = text.unicode_len();
    let mut out = String::new();
    let mut i: usize = 0;
    while i < n
        invariant
            i <= n,
            n == text@.len(),
            out@ == without_spaces(text@.take(i as int)),
        decreases n - i,
    {
        let c = text.get_char(i);
        proof {
            let next = text@.take(i + 1);
            assert(next.drop_last() == text@.take(i as int));
            assert(next.last() == c);
        }
        if c != ' ' {
            push_char(&mut out, c);
        }
        i += 1;
    }
    proof {
        assert(text@.take(n as int) == text@);
    }
    out
}

/// Cuts the token ids down to the tokenizer's 32 bits.
pub fn narrow_tokens(tokens: &Vec<i64>) -> (ids: Vec<u32>)
    ensures
        ids@ == narrowed(tokens@),
{
    let mut ids: Vec<u32> = Vec::new();
    let mut i: usize = 0;
    while i < tokens.len()
        invariant
            i <= tokens.len(),
            ids@ == narrowed(tokens@.take(i as int)),
        decreases tokens.len() - i,
    {
        ids.push(#[verifier::truncate] (tokens[i] as u32));
        proof {
            assert(tokens@.take(i + 1).drop_last() == tokens@.take(i as int));
            assert(ids@ == narrowed(tokens@.take(i + 1)));
        }
        i += 1;
    }
    proof {
        assert(tokens@.take(tokens@.len() as int) == tokens@);
    }
    ids
}

/// Turns the tokenizer's answer into the final text: every space is removed
/// from it, whatever the script; no answer is a tokenization error.
pub fn finish_text(decoded: Option<String>) -> (text: Result<String, OcrError>)
    ensures
        match text {
            Ok(t) => finished(decoded) == Ok::<Seq<char>, OcrError>(t@),
            Err(e) => finished(decoded) == Err::<Seq<char>, OcrError>(e),
        },
{
    match decoded {
        Some(raw) => Ok(strip_spaces(raw.as_str())),
        None => Err(OcrError::Tokenization),
    }
}

/// Detokenizes `tokens`, all of them and with special tokens suppressed,
/// and removes every space from the text. Fails with a tokenization error
/// where the tokenizer does.
pub fn postprocess(tokenizer: &Tokenizer, tokens: &Vec<i64>) -> (text: Result<String, OcrError>)
    ensures
        match text {
            Ok(t) => recognised_text(*tokenizer, tokens@) == Ok::<Seq<char>, OcrError>(t@),
            Err(e) => recognised_text(*tokenizer, tokens@) == Err::<Seq<char>, OcrError>(e),
        },
        text matches Ok(t) ==> !t@.contains(' '),
        text matches Err(e) ==> e == OcrError::Tokenization,
{
    let ids = narrow_tokens(tokens);
    let decoded = detokenize(tokenizer, &ids, true);
    let ghost answer = decoded;
    proof {
        if answer is Some {
            lemma_without_spaces(answer->0@);
        }
    }
    finish_text(decoded)
}

/// Encodes the end-token text, without special tokens, into the ids that end
/// a sequence. Fails with a tokenization error where the tokenizer does.
pub fn encode_end_tokens(tokenizer: &Tokenizer, end_tokens: &str) -> (ids: Result<Vec<u32>, OcrError>)
    ensures
        ids matches Err(e) ==> e == OcrError::Tokenization,
{
    accept_encoding(tokenize(tokenizer, end_tokens, false))
}

/// What becomes of the tokenizer's answer to an encoding request: its ids as
/// they are, or a tokenization error where it gave none.
pub open spec fn accepted(encoded: Option<Vec<u32>>) -> Result<Vec<u32>, OcrError> {
    match encoded {
        Some(ids) => Ok(ids),
        None => Err(OcrError::Tokenization),
    }
}

/// Takes the tokenizer's answer to an encoding request: the ids are kept
/// unchanged, and no answer is a tokenization error.
pub fn accept_encoding(encoded: Option<Vec<u32>>) -> (ids: Result<Vec<u32>, OcrError>)
    ensures
        ids == accepted(encoded),
{
    match encoded {
        Some(ids) => Ok(ids),
        None => Err(OcrError::Tokenization),
    }
}

} // verus!
