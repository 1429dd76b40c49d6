//! Reassembly of frames from a byte stream that arrives in arbitrary pieces.
//!
//! A read from the transport may bring any number of bytes: part of a frame,
//! several frames, or the end of one frame and the start of the next. The
//! decoder keeps the bytes of the frame that is still open and hands out
//! every frame that a piece completes. What comes out depends on the bytes
//! of the stream alone, never on where the pieces were cut.

use vstd::prelude::*;
use crate::frame::{
    first_sentinel, framed, lemma_first_sentinel, lemma_first_sentinel_is, sentinel_free,
    DecodeError, SENTINEL,
};

verus! {

/// The bodies of the frames that are complete within `stream`, in order.
pub open spec fn complete_bodies(stream: Seq<u8>) -> Seq<Seq<u8>>
    decreases stream.len(),
{
    let at = first_sentinel(stream);
    if 0 <= at < stream.len() {
        seq![stream.take(at)] + complete_bodies(stream.skip(at + 1))
    } else {
        Seq::empty()
    }
}

/// The bytes of `stream` behind its last complete frame: the frame that is
/// still open.
pub open spec fn open_tail(stream: Seq<u8>) -> Seq<u8>
    decreases stream.len(),
{
    let at = first_sentinel(stream);
    if 0 <= at < stream.len() {
        open_tail(stream.skip(at + 1))
    } else {
        stream
    }
}

/// The pieces of a stream put together again.
pub open spec fn joined(pieces: Seq<Seq<u8>>) -> Seq<u8>
    decreases pieces.len(),
{
    if pieces.len() == 0 {
        Seq::empty()
    } else {
        pieces.first() + joined(pieces.drop_first())
    }
}

/// The stream that carries the given bodies: their frames one after the
/// other.
pub open spec fn wire(bodies: Seq<Seq<u8>>) -> Seq<u8>
    decreases bodies.len(),
{
    if bodies.len() == 0 {
        Seq::empty()
    } else {
        framed(bodies.first()) + wire(bodies.drop_first())
    }
}

/// Every body is free of sentinels.
pub open spec fn all_sentinel_free(bodies: Seq<Seq<u8>>) -> bool {
    forall|k: int| 0 <= k < bodies.len() ==> sentinel_free(#[trigger] bodies[k])
}

/// What a decoder that holds `pending` gives when it is fed the pieces one
/// by one: the bodies it hands out over all the calls, and the bytes it
/// holds in the end.
pub open spec fn fed(pending: Seq<u8>, pieces: Seq<Seq<u8>>) -> (Seq<Seq<u8>>, Seq<u8>)
    decreases pieces.len(),
{
    if pieces.len() == 0 {
        (Seq::empty(), pending)
    } else {
        let stream = pending + pieces.first();
        let later = fed(open_tail(stream), pieces.drop_first());
        (complete_bodies(stream) + later.0, later.1)
    }
}

/// The open frame holds no sentinel, and every complete body holds none.
pub proof fn lemma_parts_sentinel_free(stream: Seq<u8>)
    ensures
        sentinel_free(open_tail(stream)),
        all_sentinel_free(complete_bodies(stream)),
    decreases stream.len(),
{
    lemma_first_sentinel(stream);
    let at = first_sentinel(stream);
    if at < stream.len() {
        let rest = stream.skip(at + 1);
        lemma_parts_sentinel_free(rest);
    }
}

/// A stream without a sentinel completes no frame and is all open tail.
pub proof fn lemma_no_sentinel_no_frame(stream: Seq<u8>)
    requires
        sentinel_free(stream),
    ensures
        complete_bodies(stream) == Seq::<Seq<u8>>::empty(),
        open_tail(stream) == stream,
{
    lemma_first_sentinel(stream);
}

/// Bytes that follow a stream are decoded as if they followed its open tail:
/// what was complete stays as it was.
pub proof fn lemma_append(head: Seq<u8>, more: Seq<u8>)
    ensures
        complete_bodies(head + more) == complete_bodies(head) + complete_bodies(
            open_tail(head) + more,
        ),
        open_tail(head + more) == open_tail(open_tail(head) + more),
    decreases head.len(),
{
    lemma_first_sentinel(head);
    let at = first_sentinel(head);
    if at < head.len() {
        let whole = head + more;
        assert(whole.take(at) =~= head.take(at));
        lemma_first_sentinel_is(whole, at);
        assert(whole.skip(at + 1) =~= head.skip(at + 1) + more);
        lemma_append(head.skip(at + 1), more);
    }
}

/// One more byte behind an open frame: a sentinel completes the frame, any
/// other byte lengthens it.
pub proof fn lemma_one_byte(open: Seq<u8>, byte: u8)
    requires
        sentinel_free(open),
    ensures
        byte == SENTINEL ==> complete_bodies(open.push(byte)) == seq![open] && open_tail(
            open.push(byte),
        ) == Seq::<u8>::empty(),
        byte != SENTINEL ==> complete_bodies(open.push(byte)) == Seq::<Seq<u8>>::empty()
            && open_tail(open.push(byte)) == open.push(byte),
{
    let longer = open.push(byte);
    if byte == SENTINEL {
        assert(longer.take(open.len() as int) =~= open);
        lemma_first_sentinel_is(longer, open.len() as int);
        assert(longer.skip(open.len() as int + 1) =~= Seq::<u8>::empty());
        lemma_no_sentinel_no_frame(Seq::<u8>::empty());
    } else {
        lemma_no_sentinel_no_frame(longer);
    }
}

/// Joining takes a further piece at the end.
pub proof fn lemma_joined_push(pieces: Seq<Seq<u8>>, piece: Seq<u8>)
    ensures
        joined(pieces.push(piece)) == joined(pieces) + piece,
    decreases pieces.len(),
{
    let longer = pieces.push(piece);
    if pieces.len() == 0 {
        assert(longer.drop_first() =~= pieces);
    } else {
        assert(longer.drop_first() =~= pieces.drop_first().push(piece));
        lemma_joined_push(pieces.drop_first(), piece);
    }
}

/// Feeding pieces one by one gives what the whole stream holds: the result
/// does not depend on where the stream was cut.
pub proof fn lemma_cuts_do_not_matter(pending: Seq<u8>, pieces: Seq<Seq<u8>>)
    requires
        sentinel_free(pending),
    ensures
        fed(pending, pieces).0 == complete_bodies(pending + joined(pieces)),
        fed(pending, pieces).1 == open_tail(pending + joined(pieces)),
    decreases pieces.len(),
{
    if pieces.len() == 0 {
        lemma_no_sentinel_no_frame(pending);
    } else {
        let stream = pending + pieces.first();
        let rest = joined(pieces.drop_first());
        lemma_parts_sentinel_free(stream);
        lemma_cuts_do_not_matter(open_tail(stream), pieces.drop_first());
        lemma_append(stream, rest);
        assert(pending + joined(pieces) =~= stream + rest);
    }
}

/// A stream of whole frames, followed by the start of another, holds exactly
/// the bodies that were framed, in their order, and leaves that start open.
pub proof fn lemma_wire_holds_bodies(bodies: Seq<Seq<u8>>, start: Seq<u8>)
    requires
        all_sentinel_free(bodies),
        sentinel_free(start),
    ensures
        complete_bodies(wire(bodies) + start) == bodies,
        open_tail(wire(bodies) + start) == start,
    decreases bodies.len(),
{
    if bodies.len() == 0 {
        lemma_no_sentinel_no_frame(start);
    } else {
        let body = bodies.first();
        let later = bodies.drop_first();
        let stream = wire(bodies) + start;
        assert(stream.take(body.len() as int) =~= body);
        lemma_first_sentinel_is(stream, body.len() as int);
        assert(stream.skip(body.len() as int + 1) =~= wire(later) + start);
        lemma_wire_holds_bodies(later, start);
    }
}

/// However a stream of frames is cut into pieces, a decoder that starts
/// empty and is fed the pieces in order hands out exactly the bodies that
/// were framed, in their order and byte for byte, and holds nothing in the
/// end.
pub proof fn lemma_stream_reassembly(bodies: Seq<Seq<u8>>, pieces: Seq<Seq<u8>>)
    requires
        all_sentinel_free(bodies),
        joined(pieces) == wire(bodies),
    ensures
        fed(Seq::empty(), pieces).0 == bodies,
        fed(Seq::empty(), pieces).1 == Seq::<u8>::empty(),
{
    let nothing = Seq::<u8>::empty();
    lemma_cuts_do_not_matter(nothing, pieces);
    lemma_wire_holds_bodies(bodies, nothing);
}

/// A stream leaves a frame open exactly if it is not empty and does not end
/// in a sentinel.
pub proof fn lemma_open_tail_empty(stream: Seq<u8>)
    ensures
        open_tail(stream).len() == 0 <==> (stream.len() == 0 || stream.last() == SENTINEL),
    decreases stream.len(),
{
    lemma_first_sentinel(stream);
    let at = first_sentinel(stream);
    if at < stream.len() {
        let rest = stream.skip(at + 1);
        lemma_open_tail_empty(rest);
    }
}

/// A decoder that starts empty and is fed the pieces of a stream holds an
/// open frame in the end exactly if the stream stops inside a frame: if it
/// is not empty and its last byte is not a sentinel.
pub proof fn lemma_truncation_shows(pieces: Seq<Seq<u8>>)
    ensures
        fed(Seq::empty(), pieces).1.len() > 0 <==> joined(pieces).len() > 0 && joined(
            pieces,
        ).last() != SENTINEL,
{
    let nothing = Seq::<u8>::empty();
    lemma_cuts_do_not_matter(nothing, pieces);
    lemma_open_tail_empty(joined(pieces));
}

/// Reassembles frames from the pieces of a stream.
pub struct StreamDecoder {
    pending: Vec<u8>,
}

impl StreamDecoder {
    #[verifier::type_invariant]
    spec fn holds_no_sentinel(self) -> bool {
        sentinel_free(self.pending@)
    }

    /// The bytes of the frame that is still open.
    pub closed spec fn pending(&self) -> Seq<u8> {
        self.pending@
    }

    /// A decoder at the start of a stream.
    pub fn new() -> (decoder: Self)
        ensures
            decoder.pending() == Seq::<u8>::empty(),
    {
        StreamDecoder { pending: Vec::new() }
    }

    /// How many bytes of an open frame are held. The open frame never holds
    /// a sentinel.
    pub fn pending_len(&self) -> (n: usize)
        ensures
            n == self.pending().len(),
            sentinel_free(self.pending()),
    {
        proof {
            use_type_invariant(self);
        }
        self.pending.len()
    }

    /// Takes the next piece of the stream and hands out the bodies of the
    /// frames that it completes, in stream order. The bytes behind the last
    /// sentinel are kept for the next piece.
    pub fn feed(&mut self, piece: &[u8]) -> (bodies: Vec<Vec<u8>>)
        ensures
            bodies.deep_view() == complete_bodies(old(self).pending() + piece@),
            final(self).pending() == open_tail(old(self).pending() + piece@),
    {
        proof {
            use_type_invariant(&*self);
        }
        let ghost before = self.pending@;
        let mut open: Vec<u8> = Vec::new();
        core::mem::swap(&mut self.pending, &mut open);
        let mut bodies: Vec<Vec<u8>> = Vec::new();
        proof {
            lemma_no_sentinel_no_frame(before);
        }
        let mut i: usize = 0;
        while i < piece.len()
            invariant
                i <= piece@.len(),
                sentinel_free(open@),
                self.pending@ == Seq::<u8>::empty(),
                bodies.deep_view() == complete_bodies(before + piece@.take(i as int)),
                open@ == open_tail(before + piece@.take(i as int)),
            decreases piece@.len() - i,
        {
            let byte = piece[i];
            proof {
                let seen = before + piece@.take(i as int);
                assert(before + piece@.take(i + 1) =~= seen + seq![byte]);
                assert(open@ + seq![byte] =~= open@.push(byte));
                lemma_append(seen, seq![byte]);
                lemma_one_byte(open@, byte);
            }
            if byte == SENTINEL {
                let mut body: Vec<u8> = Vec::new();
                core::mem::swap(&mut open, &mut body);
                proof {
                    assert(body.deep_view() =~= body@);
                }
                bodies.push(body);
            } else {
                open.push(byte);
            }
            i = i + 1;
        }
        assert(piece@.take(piece@.len() as int) =~= piece@);
        self.pending = open;
        bodies
    }

    /// Takes several pieces of the stream, one after the other, and hands
    /// out the bodies of all the frames that they complete. The outcome is
    /// that of feeding the pieces as one.
    pub fn feed_all(&mut self, pieces: &[Vec<u8>]) -> (bodies: Vec<Vec<u8>>)
        ensures
            (bodies.deep_view(), final(self).pending()) == fed(
                old(self).pending(),
                pieces.deep_view(),
            ),
            bodies.deep_view() == complete_bodies(
                old(self).pending() + joined(pieces.deep_view()),
            ),
            final(self).pending() == open_tail(old(self).pending() + joined(pieces.deep_view())),
    {
        proof {
            use_type_invariant(&*self);
        }
        let ghost before = self.pending();
        let ghost all = pieces.deep_view();
        let mut bodies: Vec<Vec<u8>> = Vec::new();
        proof {
            lemma_no_sentinel_no_frame(before);
        }
        let mut i: usize = 0;
        while i < pieces.len()
            invariant
                i <= pieces@.len(),
                all == pieces.deep_view(),
                bodies.deep_view() == complete_bodies(before + joined(all.take(i as int))),
                self.pending() == open_tail(before + joined(all.take(i as int))),
            decreases pieces@.len() - i,
        {
            let ghost seen = before + joined(all.take(i as int));
            let mut more = self.feed(pieces[i].as_slice());
            proof {
                let piece = pieces@[i as int]@;
                assert(all[i as int] =~= piece);
                assert(all.take(i + 1) =~= all.take(i as int).push(piece));
                lemma_joined_push(all.take(i as int), piece);
                assert(before + joined(all.take(i + 1)) =~= seen + piece);
                lemma_append(seen, piece);
            }
            bodies.append(&mut more);
            i = i + 1;
        }
        proof {
            assert(all.take(pieces@.len() as int) =~= all);
            lemma_cuts_do_not_matter(before, all);
        }
        bodies
    }

    /// Judges the end of the stream. A stream that ends between frames ends
    /// cleanly; one that ends inside a frame was truncated.
    pub fn finish(&self) -> (end: Result<(), DecodeError>)
        ensures
            end is Ok <==> self.pending().len() == 0,
            end matches Err(e) ==> e == DecodeError::Truncated,
    {
        if self.pending.len() == 0 {
            Ok(())
        } else {
            Err(DecodeError::Truncated)
        }
    }
}

} // verus!
