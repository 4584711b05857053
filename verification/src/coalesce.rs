//! Output coalescing: batches of raw PTY reads are merged into one
//! UTF-8-safe text chunk per delivery. The unconsumed tail of each batch
//! (at most three bytes of a truncated code point) is carried into the next
//! batch, so that, concatenated in delivery order, the delivered bytes are
//! exactly the bytes received, in order — no byte lost, none duplicated.

use vstd::prelude::*;
use crate::utf8::boundary_of;
use crate::utf8::lemma_boundary_leftover_bound;
use crate::utf8::utf8_boundary;

verus! {

/// Concatenation of a sequence of byte chunks, in arrival order.
pub open spec fn concat_of(chunks: Seq<Seq<u8>>) -> Seq<u8>
    decreases chunks.len(),
{
    if chunks.len() == 0 {
        Seq::empty()
    } else {
        chunks[0] + concat_of(chunks.skip(1))
    }
}

/// The working batch a coalescing step operates on: the tail left over
/// from the previous step, the chunk that woke the coalescer, and every
/// further chunk drained from the queue in the same step.
pub open spec fn batch_of(leftover: Seq<u8>, first: Seq<u8>, more: Seq<Seq<u8>>) -> Seq<u8> {
    leftover + first + concat_of(more)
}

/// What `String::from_utf8_lossy` decodes a byte sequence to; the result
/// depends on the bytes alone.
pub uninterp spec fn lossy_of(bytes: Seq<u8>) -> Seq<char>;

/// Relies on `String::from_utf8_lossy`: best-effort UTF-8 decoding, a pure
/// function of the input bytes (invalid sequences become U+FFFD); an empty
/// input decodes to an empty string.
#[verifier::external_body]
fn lossy_decode(bytes: &Vec<u8>) -> (s: String)
    ensures
        s@ == lossy_of(bytes@),
        bytes@.len() == 0 ==> s@.len() == 0,
{
    String::from_utf8_lossy(bytes.as_slice()).to_string()
}

/// The per-session coalescer state. `received` and `delivered` are the
/// ghost history of all bytes that ever entered and left the coalescer;
/// well-formedness says the pipeline conserves bytes at every step.
pub struct Coalescer {
    /// Unconsumed tail of the previous batch: the bytes of a truncated
    /// trailing code point, waiting for their continuation.
    pub leftover: Vec<u8>,
    /// Every byte handed to the coalescer so far, in arrival order.
    pub received: Ghost<Seq<u8>>,
    /// Every byte delivered so far, in delivery order.
    pub delivered: Ghost<Seq<u8>>,
}

impl Coalescer {
    /// Delivered bytes followed by the pending leftover are exactly the
    /// received bytes, and the leftover is never more than the three bytes
    /// a truncated four-byte sequence can leave behind.
    pub open spec fn wf(self) -> bool {
        &&& self.delivered@ + self.leftover@ == self.received@
        &&& self.leftover@.len() <= 3
    }

    /// The pending tail, visible for specification purposes.
    pub open spec fn pending(self) -> Seq<u8> {
        self.leftover@
    }

    /// The law the pipeline lives by: at any well-formed state, the bytes
    /// delivered so far followed by the pending tail are exactly the bytes
    /// received so far — concatenated in delivery order, delivered output
    /// equals produced input, with no byte lost, reordered or duplicated.
    pub proof fn lemma_bytes_conserved(self)
        requires
            self.wf(),
        ensures
            self.delivered@ + self.pending() == self.received@,
            self.pending().len() <= 3,
    {
    }

    pub fn new() -> (c: Coalescer)
        ensures
            c.wf(),
            c.received@ == Seq::<u8>::empty(),
            c.delivered@ == Seq::<u8>::empty(),
            c.pending() == Seq::<u8>::empty(),
    {
        Coalescer { leftover: Vec::new(), received: Ghost(Seq::empty()), delivered: Ghost(Seq::empty()) }
    }

    /// One coalescing step: merge the leftover, the first chunk, and every
    /// further chunk drained in the same burst into one batch, split the
    /// batch at its UTF-8 boundary, deliver the complete prefix as text and
    /// keep the truncated tail for the next step.
    pub fn push_chunks(&mut self, first: Vec<u8>, more: Vec<Vec<u8>>) -> (out: String)
        requires
            old(self).wf(),
        ensures
            final(self).wf(),
            final(self).received@ == old(self).received@ + first@ + concat_of(
                more@.map_values(|c: Vec<u8>| c@),
            ),
            final(self).delivered@ + final(self).pending() == old(self).delivered@ + batch_of(
                old(self).pending(),
                first@,
                more@.map_values(|c: Vec<u8>| c@),
            ),
            final(self).delivered@ == old(self).delivered@ + batch_of(
                old(self).pending(),
                first@,
                more@.map_values(|c: Vec<u8>| c@),
            ).take(
                boundary_of(
                    batch_of(old(self).pending(), first@, more@.map_values(|c: Vec<u8>| c@)),
                ),
            ),
            final(self).pending() == batch_of(
                old(self).pending(),
                first@,
                more@.map_values(|c: Vec<u8>| c@),
            ).skip(
                boundary_of(
                    batch_of(old(self).pending(), first@, more@.map_values(|c: Vec<u8>| c@)),
                ),
            ),
            out@ == lossy_of(final(self).delivered@.skip(old(self).delivered@.len() as int)),
    {
        let ghost more_view = more@.map_values(|c: Vec<u8>| c@);
        let ghost batch_view = batch_of(old(self).pending(), first@, more_view);
        let mut batch: Vec<u8> = Vec::new();
        batch.append(&mut self.leftover);
        let mut f = first;
        batch.append(&mut f);
        let mut rest = more;
        while rest.len() > 0
            invariant
                batch@ + concat_of(rest@.map_values(|c: Vec<u8>| c@)) == batch_view,
            decreases rest.len(),
        {
            let ghost rest_pre = rest@;
            let mut c = rest.remove(0);
            batch.append(&mut c);
            proof {
                assert(rest_pre.map_values(|c: Vec<u8>| c@).skip(1) =~= rest@.map_values(
                    |c: Vec<u8>| c@,
                ));
            }
        }
        proof {
            assert(batch@ =~= batch_view);
            lemma_boundary_leftover_bound(batch@);
        }
        let b = utf8_boundary(batch.as_slice());
        let ghost full = batch@;
        let tail = batch.split_off(b);
        self.leftover = tail;
        proof {
            self.received@ = old(self).received@ + first@ + concat_of(more_view);
            self.delivered@ = old(self).delivered@ + batch@;
            assert(batch@ + self.leftover@ =~= full);
            assert(batch@ =~= batch_view.take(boundary_of(batch_view)));
            assert(self.leftover@ =~= batch_view.skip(boundary_of(batch_view)));
            assert(old(self).delivered@ + old(self).pending() == old(self).received@);
            assert(self.delivered@ + self.leftover@ =~= old(self).delivered@ + full);
            assert(old(self).delivered@ + full =~= self.received@);
            assert(self.delivered@.skip(old(self).delivered@.len() as int) =~= batch@);
        }
        lossy_decode(&batch)
    }

    /// End of stream: the queue has closed, so the pending tail can never
    /// be completed. Flush it, lossily decoded, as the final message.
    pub fn finish(self) -> (out: String)
        requires
            self.wf(),
        ensures
            out@ == lossy_of(self.pending()),
            self.pending().len() == 0 ==> out@.len() == 0,
            self.delivered@ + self.pending() == self.received@,
    {
        lossy_decode(&self.leftover)
    }
}

} // verus!
