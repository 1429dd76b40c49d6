//! Frames: an encoded record followed by one sentinel byte.
//!
//! The stream carries no lengths. A frame ends at the first sentinel, so the
//! encoded record itself must not hold one. `encode` refuses a body that
//! does, which makes the boundary safe whatever produced the body.

use vstd::prelude::*;
use vstd::slice::{slice_subrange, slice_to_vec};

verus! {

/// The byte that ends a frame.
pub const SENTINEL: u8 = 0;

/// No byte of `bytes` is the sentinel.
pub open spec fn sentinel_free(bytes: Seq<u8>) -> bool {
    forall|i: int| 0 <= i < bytes.len() ==> bytes[i] != SENTINEL
}

/// Index of the first sentinel in `bytes`; the length of `bytes` if it holds
/// none.
pub open spec fn first_sentinel(bytes: Seq<u8>) -> int
    decreases bytes.len(),
{
    if bytes.len() == 0 || bytes[0] == SENTINEL {
        0
    } else {
        1 + first_sentinel(bytes.drop_first())
    }
}

/// The frame of a body: the body, then the sentinel.
pub open spec fn framed(body: Seq<u8>) -> Seq<u8> {
    body.push(SENTINEL)
}

/// Why a body cannot be framed.
#[derive(Debug, Clone, Copy, PartialEq, Eq, Structural)]
pub enum EncodeError {
    /// The body holds a sentinel; `at` is the index of the first one.
    SentinelInBody { at: usize },
}

/// Why a byte string is not one frame.
#[derive(Debug, Clone, Copy, PartialEq, Eq, Structural)]
pub enum DecodeError {
    /// No sentinel: the frame was cut off before its end.
    Truncated,
    /// Bytes follow the first sentinel, which stands at index `at`.
    TrailingBytes { at: usize },
}

/// What `encode` gives for a body.
pub open spec fn spec_encode(body: Seq<u8>) -> Result<Seq<u8>, EncodeError> {
    if sentinel_free(body) {
        Ok(framed(body))
    } else {
        Err(EncodeError::SentinelInBody { at: first_sentinel(body) as usize })
    }
}

/// What `decode` gives for a byte string.
pub open spec fn spec_decode(frame: Seq<u8>) -> Result<Seq<u8>, DecodeError> {
    let at = first_sentinel(frame);
    if at == frame.len() {
        Err(DecodeError::Truncated)
    } else if at + 1 == frame.len() {
        Ok(frame.take(at))
    } else {
        Err(DecodeError::TrailingBytes { at: at as usize })
    }
}

/// `first_sentinel` is what its name says: it lies within the bytes or at
/// their end, no sentinel stands before it, and a sentinel stands at it
/// unless it is the end.
pub proof fn lemma_first_sentinel(bytes: Seq<u8>)
    ensures
        0 <= first_sentinel(bytes) <= bytes.len(),
        sentinel_free(bytes.take(first_sentinel(bytes))),
        first_sentinel(bytes) < bytes.len() ==> bytes[first_sentinel(bytes)] == SENTINEL,
        first_sentinel(bytes) == bytes.len() <==> sentinel_free(bytes),
    decreases bytes.len(),
{
    if bytes.len() > 0 && bytes[0] != SENTINEL {
        let rest = bytes.drop_first();
        lemma_first_sentinel(rest);
        let at = first_sentinel(bytes);
        assert forall|i: int| 0 <= i < at implies bytes.take(at)[i] != SENTINEL by {
            if i > 0 {
                assert(rest.take(at - 1)[i - 1] == bytes[i]);
            }
        }
        if at == bytes.len() {
            assert forall|i: int| 0 <= i < bytes.len() implies bytes[i] != SENTINEL by {
                assert(bytes.take(at)[i] == bytes[i]);
            }
        }
    }
}

/// The first sentinel is found by its position: a sentinel with none before
/// it.
pub proof fn lemma_first_sentinel_is(bytes: Seq<u8>, at: int)
    requires
        0 <= at <= bytes.len(),
        sentinel_free(bytes.take(at)),
        at < bytes.len() ==> bytes[at] == SENTINEL,
    ensures
        first_sentinel(bytes) == at,
{
    lemma_first_sentinel(bytes);
    let found = first_sentinel(bytes);
    if found < at {
        assert(bytes.take(at)[found] == bytes[found]);
    } else if at < found {
        assert(bytes.take(found)[at] == bytes[at]);
    }
}

/// A frame holds the sentinel exactly once, as its last byte.
pub proof fn lemma_sentinel_only_at_end(body: Seq<u8>)
    requires
        sentinel_free(body),
    ensures
        framed(body).len() == body.len() + 1,
        framed(body).last() == SENTINEL,
        forall|i: int| 0 <= i < framed(body).len() - 1 ==> framed(body)[i] != SENTINEL,
        first_sentinel(framed(body)) == body.len(),
{
    lemma_first_sentinel_is(framed(body), body.len() as int);
}

/// Decoding the frame of a body gives the body back.
pub proof fn lemma_round_trip(body: Seq<u8>)
    requires
        sentinel_free(body),
    ensures
        spec_encode(body) == Ok::<Seq<u8>, EncodeError>(framed(body)),
        spec_decode(framed(body)) == Ok::<Seq<u8>, DecodeError>(body),
{
    lemma_sentinel_only_at_end(body);
    assert(framed(body).take(body.len() as int) =~= body);
}

/// A byte string decodes to a body only if it is that body's frame.
pub proof fn lemma_decode_inverts_encode(frame: Seq<u8>)
    ensures
        spec_decode(frame) matches Ok(body) ==> sentinel_free(body) && frame == framed(body),
{
    lemma_first_sentinel(frame);
}

/// Index of the first sentinel in `bytes`, or the length of `bytes` if there
/// is none.
pub fn find_sentinel(bytes: &[u8]) -> (at: usize)
    ensures
        at == first_sentinel(bytes@),
        at <= bytes@.len(),
        (at == bytes@.len()) == sentinel_free(bytes@),
{
    let mut at: usize = 0;
    while at < bytes.len() && bytes[at] != SENTINEL
        invariant
            at <= bytes@.len(),
            sentinel_free(bytes@.take(at as int)),
        decreases bytes@.len() - at,
    {
        at = at + 1;
    }
    proof {
        lemma_first_sentinel_is(bytes@, at as int);
        lemma_first_sentinel(bytes@);
    }
    at
}

/// Frames a body: appends the sentinel. Fails if the body already holds a
/// sentinel, and then names the first one.
pub fn encode(body: Vec<u8>) -> (frame: Result<Vec<u8>, EncodeError>)
    ensures
        match frame {
            Ok(bytes) => spec_encode(body@) == Ok::<Seq<u8>, EncodeError>(bytes@),
            Err(e) => spec_encode(body@) == Err::<Seq<u8>, EncodeError>(e),
        },
        frame is Ok <==> sentinel_free(body@),
{
    let at = find_sentinel(body.as_slice());
    if at < body.len() {
        Err(EncodeError::SentinelInBody { at })
    } else {
        let mut bytes = body;
        bytes.push(SENTINEL);
        Ok(bytes)
    }
}

/// Unframes one frame: gives the bytes before the sentinel. Fails if there
/// is no sentinel, or if anything follows the first one.
pub fn decode(frame: &[u8]) -> (body: Result<Vec<u8>, DecodeError>)
    ensures
        match body {
            Ok(bytes) => spec_decode(frame@) == Ok::<Seq<u8>, DecodeError>(bytes@),
            Err(e) => spec_decode(frame@) == Err::<Seq<u8>, DecodeError>(e),
        },
        body matches Ok(bytes) ==> sentinel_free(bytes@) && frame@ == framed(bytes@),
{
    let at = find_sentinel(frame);
    if at == frame.len() {
        Err(DecodeError::Truncated)
    } else if at + 1 == frame.len() {
        proof {
            lemma_decode_inverts_encode(frame@);
        }
        Ok(slice_to_vec(slice_subrange(frame, 0, at)))
    } else {
        Err(DecodeError::TrailingBytes { at })
    }
}

} // verus!
