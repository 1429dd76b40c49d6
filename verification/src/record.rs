//! The record that travels in a frame, and the filler payloads it carries.

use vstd::prelude::*;
use vstd::slice::slice_to_vec;
use crate::experiment::{
    ExperimentID, PayloadClass, PhaseConfig, LARGE_PAYLOAD_LEN, SMALL_PAYLOAD_LEN,
};

verus! {

/// One message on the wire: which pattern produced it, when it was sent, in
/// nanoseconds since the epoch, and its filler payload.
#[derive(Debug, Clone, PartialEq, Eq)]
pub struct WSData {
    pub experiment_id: ExperimentID,
    pub timestamp: u128,
    pub data: Vec<u8>,
}

/// A record as a mathematical value.
#[verifier::ext_equal]
pub struct RecordView {
    pub experiment_id: ExperimentID,
    pub timestamp: u128,
    pub data: Seq<u8>,
}

impl View for WSData {
    type V = RecordView;

    open spec fn view(&self) -> RecordView {
        RecordView {
            experiment_id: self.experiment_id,
            timestamp: self.timestamp,
            data: self.data@,
        }
    }
}

/// The thread-local random generator of `rand`. It is carried from where it
/// is made to where it is used; nothing inside it is looked at.
#[verifier::external_type_specification]
#[verifier::external_body]
pub struct ExThreadRng(rand::rngs::ThreadRng);

/// `rand::thread_rng` hands out the calling thread's generator, which the
/// system seeds on first use. Nothing is claimed of it.
pub assume_specification[ rand::thread_rng ]() -> (rng: rand::rngs::ThreadRng)
;

/// `RngCore::fill_bytes` on the thread's generator overwrites every byte of
/// the buffer. Which bytes it writes is left open: only the buffer's length
/// is claimed, and a slice cannot change it.
#[verifier::external_body]
fn fill_with_random_bytes(rng: &mut rand::rngs::ThreadRng, buffer: &mut Vec<u8>)
    ensures
        final(buffer)@.len() == old(buffer)@.len(),
{
    rand::RngCore::fill_bytes(rng, buffer.as_mut_slice());
}

/// The filler payloads of a run. They are drawn once and every record of the
/// run carries a copy of one of them, or nothing.
pub struct PayloadPool {
    small: Vec<u8>,
    large: Vec<u8>,
}

impl PayloadPool {
    #[verifier::type_invariant]
    spec fn sized(self) -> bool {
        &&& self.small@.len() == SMALL_PAYLOAD_LEN
        &&& self.large@.len() == LARGE_PAYLOAD_LEN
    }

    /// The small payload.
    pub closed spec fn small(&self) -> Seq<u8> {
        self.small@
    }

    /// The large payload.
    pub closed spec fn large(&self) -> Seq<u8> {
        self.large@
    }

    /// The payload that a record of the given class carries.
    pub open spec fn spec_payload(&self, class: PayloadClass) -> Seq<u8> {
        match class {
            PayloadClass::NoData => Seq::empty(),
            PayloadClass::WithData => self.small(),
            PayloadClass::LargeData => self.large(),
        }
    }

    /// Draws the payloads of a run from the thread's random generator.
    pub fn generate() -> (pool: Self)
        ensures
            pool.small().len() == SMALL_PAYLOAD_LEN,
            pool.large().len() == LARGE_PAYLOAD_LEN,
    {
        let mut rng = rand::thread_rng();
        let mut small: Vec<u8> = vec![0u8; SMALL_PAYLOAD_LEN];
        fill_with_random_bytes(&mut rng, &mut small);
        let mut large: Vec<u8> = vec![0u8; LARGE_PAYLOAD_LEN];
        fill_with_random_bytes(&mut rng, &mut large);
        PayloadPool { small, large }
    }

    /// A pool of the given payloads, if they have the lengths of a small and
    /// of a large payload.
    pub fn from_buffers(small: Vec<u8>, large: Vec<u8>) -> (pool: Option<Self>)
        ensures
            pool is Some <==> small@.len() == SMALL_PAYLOAD_LEN && large@.len()
                == LARGE_PAYLOAD_LEN,
            pool matches Some(p) ==> p.small() == small@ && p.large() == large@,
    {
        if small.len() == SMALL_PAYLOAD_LEN && large.len() == LARGE_PAYLOAD_LEN {
            Some(PayloadPool { small, large })
        } else {
            None
        }
    }

    /// A copy of the payload of the given class.
    pub fn payload(&self, class: PayloadClass) -> (data: Vec<u8>)
        ensures
            data@ == self.spec_payload(class),
            data@.len() == class.spec_len(),
    {
        proof {
            use_type_invariant(self);
        }
        match class {
            PayloadClass::NoData => Vec::new(),
            PayloadClass::WithData => slice_to_vec(self.small.as_slice()),
            PayloadClass::LargeData => slice_to_vec(self.large.as_slice()),
        }
    }

    /// The record that a phase sends at the given time: the phase's tag, the
    /// time, and a copy of the payload of the phase's class.
    pub fn record(&self, phase: &PhaseConfig, now_ns: u128) -> (record: WSData)
        ensures
            record.experiment_id == phase.tag,
            record.timestamp == now_ns,
            record.data@ == self.spec_payload(phase.payload),
            record.data@.len() == phase.payload.spec_len(),
    {
        WSData { experiment_id: phase.tag, timestamp: now_ns, data: self.payload(phase.payload) }
    }
}

} // verus!
