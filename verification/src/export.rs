//! The export buffer: a size-bounded accumulator batching encoded trace
//! payloads before a network send.
//!
//! The buffer itself never touches the network. `submit` decides: either
//! the payload still fits and is appended, or the accumulated batch is
//! handed back to the caller to be sent first, after which the payload
//! starts the next batch. The hosting application owns the datagram socket
//! and performs the send.
//!
//! There is no time-based flush: a last partial batch lingers until a later
//! submission overflows it or the process ends, an accepted best-effort
//! tradeoff.

use vstd::prelude::*;

use crate::trace::TraceError;

verus! {

/// A conservative bound below a single unfragmented datagram's safe
/// payload size: 64 KiB minus one, minus the UDP and IP headers.
pub const MAX_DATAGRAM_PAYLOAD: usize = 64 * 1024 - 1 - 8 - 20;

/// The mathematical shape of an export buffer: the bytes accumulated so
/// far and the fixed capacity bound.
#[verifier::ext_equal]
pub ghost struct ExportBufferModel {
    pub buf: Seq<u8>,
    pub capacity: nat,
}

/// A process-wide accumulator of already-encoded trace payloads with a
/// hard size cap. The caller must guarantee that submissions never happen
/// concurrently from two threads: the buffer has no synchronization of its
/// own.
pub struct ExportBuffer {
    buf: Vec<u8>,
    capacity: usize,
}

impl View for ExportBuffer {
    type V = ExportBufferModel;

    closed spec fn view(&self) -> ExportBufferModel {
        ExportBufferModel { buf: self.buf@, capacity: self.capacity as nat }
    }
}

/// What one submission does to a batch of `buf` accumulated bytes under
/// capacity `cap`: the new batch contents, and the flushed bytes if the
/// submission reached the cap.
pub open spec fn spec_submit(buf: Seq<u8>, payload: Seq<u8>, cap: nat) -> (Seq<u8>, Option<
    Seq<u8>,
>) {
    if buf.len() + payload.len() >= cap {
        (payload, Some(buf))
    } else {
        (buf + payload, None)
    }
}

impl ExportBuffer {
    /// Builds an empty buffer with the given capacity bound.
    pub fn new(capacity: usize) -> (r: ExportBuffer)
        ensures
            r@.buf == Seq::<u8>::empty(),
            r@.capacity == capacity as nat,
    {
        let r = ExportBuffer { buf: Vec::new(), capacity };
        proof {
            assert(r@.buf =~= Seq::<u8>::empty());
        }
        r
    }

    /// Submits one payload. A payload larger than the capacity bound is
    /// rejected outright. Otherwise, when the accumulated bytes plus the
    /// payload would reach the capacity, the prior contents are handed back
    /// to be sent and the payload starts the next batch; when they would
    /// not, the payload is appended and nothing is to be sent.
    pub fn submit(&mut self, payload: &[u8]) -> (r: Result<Option<Vec<u8>>, TraceError>)
        ensures
            final(self)@.capacity == old(self)@.capacity,
            match r {
                Ok(flushed) => {
                    &&& payload@.len() <= old(self)@.capacity
                    &&& final(self)@.buf == spec_submit(
                        old(self)@.buf,
                        payload@,
                        old(self)@.capacity,
                    ).0
                    &&& (match flushed {
                        Some(b) => Some(b@),
                        None => None,
                    }) == spec_submit(old(self)@.buf, payload@, old(self)@.capacity).1
                    &&& (flushed is Some <==> old(self)@.buf.len() + payload@.len() >= old(
                        self,
                    )@.capacity)
                },
                Err(e) => {
                    &&& payload@.len() > old(self)@.capacity
                    &&& e == TraceError::PayloadTooLarge
                    &&& final(self)@ == old(self)@
                },
            },
    {
        if payload.len() > self.capacity {
            return Err(TraceError::PayloadTooLarge);
        }
        if self.buf.len() >= self.capacity - payload.len() {
            let mut flushed = Vec::new();
            std::mem::swap(&mut flushed, &mut self.buf);
            crate::encode::push_bytes(&mut self.buf, payload);
            proof {
                assert(self@.buf =~= payload@);
            }
            Ok(Some(flushed))
        } else {
            crate::encode::push_bytes(&mut self.buf, payload);
            Ok(None)
        }
    }

    /// The bytes accumulated and not yet flushed, in submission order.
    pub fn pending(&self) -> (r: &[u8])
        ensures
            r@ == self@.buf,
    {
        self.buf.as_slice()
    }

    /// Hands back the accumulated bytes and leaves the buffer empty: used
    /// by a hosting application that wants to send the final partial batch
    /// at shutdown.
    pub fn take_pending(&mut self) -> (r: Vec<u8>)
        ensures
            final(self)@.capacity == old(self)@.capacity,
            final(self)@.buf == Seq::<u8>::empty(),
            r@ == old(self)@.buf,
    {
        let mut r = Vec::new();
        std::mem::swap(&mut r, &mut self.buf);
        proof {
            assert(self@.buf =~= Seq::<u8>::empty());
        }
        r
    }
}

/// The batch contents after a whole sequence of submissions, oldest first,
/// starting from an empty buffer.
pub open spec fn spec_batch_after(payloads: Seq<Seq<u8>>, cap: nat) -> Seq<u8>
    decreases payloads.len(),
{
    if payloads.len() == 0 {
        Seq::empty()
    } else {
        spec_submit(spec_batch_after(payloads.drop_last(), cap), payloads.last(), cap).0
    }
}

/// Whether any submission in the sequence, oldest first and starting from
/// an empty buffer, triggered a flush.
pub open spec fn spec_any_flush(payloads: Seq<Seq<u8>>, cap: nat) -> bool
    decreases payloads.len(),
{
    if payloads.len() == 0 {
        false
    } else {
        spec_any_flush(payloads.drop_last(), cap) || spec_submit(
            spec_batch_after(payloads.drop_last(), cap),
            payloads.last(),
            cap,
        ).1 is Some
    }
}

/// The total length of a sequence of payloads.
pub open spec fn spec_total_len(payloads: Seq<Seq<u8>>) -> nat
    decreases payloads.len(),
{
    if payloads.len() == 0 {
        0
    } else {
        spec_total_len(payloads.drop_last()) + payloads.last().len()
    }
}

/// The concatenation of a sequence of payloads, in order.
pub open spec fn spec_concat(payloads: Seq<Seq<u8>>) -> Seq<u8>
    decreases payloads.len(),
{
    if payloads.len() == 0 {
        Seq::empty()
    } else {
        spec_concat(payloads.drop_last()) + payloads.last()
    }
}

/// Submitting payloads whose cumulative size never reaches the capacity
/// never triggers a send; the buffer then holds exactly their
/// concatenation, in submission order.
pub proof fn lemma_below_capacity_never_flushes(payloads: Seq<Seq<u8>>, cap: nat)
    requires
        spec_total_len(payloads) < cap,
    ensures
        !spec_any_flush(payloads, cap),
        spec_batch_after(payloads, cap) == spec_concat(payloads),
        spec_batch_after(payloads, cap).len() == spec_total_len(payloads),
    decreases payloads.len(),
{
    if payloads.len() > 0 {
        lemma_below_capacity_never_flushes(payloads.drop_last(), cap);
    }
}

/// The first submission that would reach the capacity triggers exactly one
/// send, of the prior contents in submission order, before the new payload
/// is appended to the then-empty buffer.
pub proof fn lemma_first_overflow_flushes_prior_contents(
    payloads: Seq<Seq<u8>>,
    payload: Seq<u8>,
    cap: nat,
)
    requires
        spec_total_len(payloads) < cap,
        spec_total_len(payloads) + payload.len() >= cap,
    ensures
        !spec_any_flush(payloads, cap),
        spec_any_flush(payloads.push(payload), cap),
        spec_submit(spec_batch_after(payloads, cap), payload, cap).1 == Some(
            spec_concat(payloads),
        ),
        spec_batch_after(payloads.push(payload), cap) == payload,
    decreases payloads.len(),
{
    lemma_below_capacity_never_flushes(payloads, cap);
    assert(payloads.push(payload).drop_last() =~= payloads);
}

} // verus!
