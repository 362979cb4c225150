//! Change detection for the clipboard watcher.
//!
//! The watcher remembers a digest of the last image it saw. Each tick either
//! brings no image, the image already seen, or a new one; only a new one is
//! recognised.

use std::collections::hash_map::DefaultHasher;
use std::hash::Hash;
use std::hash::Hasher;
use vstd::prelude::*;
use vstd::std_specs::hash::DefaultHasherAdditionalSpecFns;

verus! {

/// What hashing a slice of bytes writes into a hasher, one entry for each
/// write. It depends on the bytes alone.
pub uninterp spec fn slice_hash_writes(data: Seq<u8>) -> Seq<Seq<u8>>;

/// Calls `<[u8] as Hash>::hash`: the writes of `data` are added to what
/// `state` has taken in so far.
#[verifier::external_body]
fn feed_slice(data: &[u8], state: &mut DefaultHasher)
    ensures
        final(state)@ == old(state)@ + slice_hash_writes(data@),
{
    data.hash(state)
}

/// The digest of `data`.
pub open spec fn content_hash(data: Seq<u8>) -> u64 {
    DefaultHasher::spec_finish(Seq::<Seq<u8>>::empty() + slice_hash_writes(data))
}

/// A 64-bit digest of `data` for telling one capture from the next.
pub fn hash(data: &[u8]) -> (digest: u64)
    ensures
        digest == content_hash(data@),
{
    let mut hasher = DefaultHasher::new();
    feed_slice(data, &mut hasher);
    hasher.finish()
}

/// Hashing is a function of the bytes: equal buffers have equal digests.
pub proof fn lemma_hash_deterministic(a: Seq<u8>, b: Seq<u8>)
    requires
        a == b,
    ensures
        content_hash(a) == content_hash(b),
{
}

/// What the watcher does with one tick.
#[derive(Clone, Copy, Debug, PartialEq, Eq, Structural)]
pub enum TickAction {
    /// Nothing: no image could be read, or it is the one already seen.
    Skip,
    /// Run the pipeline on the captured image.
    Recognize,
}

/// The digest remembered after a tick that captured `seen`.
pub open spec fn remembered(last: Option<u64>, seen: Option<u64>) -> Option<u64> {
    match seen {
        Some(digest) => Some(digest),
        None => last,
    }
}

/// The action of a tick that captured `seen`.
pub open spec fn reaction(last: Option<u64>, seen: Option<u64>) -> TickAction {
    match seen {
        Some(digest) => if last == Some(digest) {
            TickAction::Skip
        } else {
            TickAction::Recognize
        },
        None => TickAction::Skip,
    }
}

/// The digests of a capture, where there is one.
pub open spec fn digest_of(capture: Option<&[u8]>) -> Option<u64> {
    match capture {
        Some(bytes) => Some(content_hash(bytes@)),
        None => None,
    }
}

/// The state of the clipboard watcher: the digest of the last image seen.
pub struct ClipboardWatcher {
    last_hash: Option<u64>,
}

impl ClipboardWatcher {
    /// The digest of the last image seen, if any was.
    pub closed spec fn last(&self) -> Option<u64> {
        self.last_hash
    }

    /// A watcher that starts from what the clipboard holds on entry: the
    /// image there counts as seen, and without one nothing does.
    pub fn new(initial: Option<&[u8]>) -> (watcher: ClipboardWatcher)
        ensures
            watcher.last() == digest_of(initial),
    {
        match initial {
            Some(bytes) => ClipboardWatcher { last_hash: Some(hash(bytes)) },
            None => ClipboardWatcher { last_hash: None },
        }
    }

    /// The digest of the last image seen.
    pub fn last_hash(&self) -> (digest: Option<u64>)
        ensures
            digest == self.last(),
    {
        self.last_hash
    }

    /// One polling tick. A failed read is passed over; an image with the
    /// remembered digest is skipped; any other image is remembered and
    /// recognised, whatever becomes of it afterwards.
    pub fn tick(&mut self, capture: Option<&[u8]>) -> (action: TickAction)
        ensures
            final(self).last() == remembered(old(self).last(), digest_of(capture)),
            action == reaction(old(self).last(), digest_of(capture)),
    {
        match capture {
            None => TickAction::Skip,
            Some(bytes) => {
                let digest = hash(bytes);
                match self.last_hash {
                    Some(previous) => {
                        if previous == digest {
                            return TickAction::Skip;
                        }
                    },
                    None => {},
                }
                self.last_hash = Some(digest);
                TickAction::Recognize
            },
        }
    }
}

/// An image is recognised once: a tick that captures what the tick before
/// captured skips it and remembers nothing new, whatever came before; and
/// the first capture after nothing was seen is recognised.
pub proof fn lemma_same_capture_runs_once(last: Option<u64>, digest: u64)
    ensures
        reaction(remembered(last, Some(digest)), Some(digest)) == TickAction::Skip,
        remembered(remembered(last, Some(digest)), Some(digest)) == remembered(last, Some(digest)),
        reaction(None, Some(digest)) == TickAction::Recognize,
{
}

/// A failed read changes nothing and runs nothing.
pub proof fn lemma_failed_read_is_passed_over(last: Option<u64>)
    ensures
        reaction(last, None) == TickAction::Skip,
        remembered(last, None) == last,
{
}

} // verus!
