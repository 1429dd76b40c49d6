//! The nine traffic patterns and the table that paces them.
//!
//! A pattern pairs a send cadence (slow, burst, consistent) with a payload
//! size (none, small, large). The tag of a pattern travels inside every record,
//! and the receiver tells the phases apart by it alone.

use vstd::prelude::*;

verus! {

/// How many patterns there are, and so how many log sinks.
pub const PATTERN_COUNT: usize = 9;

/// Records sent in a phase with the slow cadence.
pub const SLOW_SAMPLES: u32 = 2000;

/// Records sent in a phase with the burst cadence.
pub const BURST_SAMPLES: u32 = 15000;

/// Records sent in a phase with the consistent cadence.
pub const CONSISTENT_SAMPLES: u32 = 6000;

/// Pause after each record of the slow cadence: 50 ms.
pub const SLOW_INTERVAL_MICROS: u64 = 50000;

/// Pause after each record of the burst cadence: 50 µs.
pub const BURST_INTERVAL_MICROS: u64 = 50;

/// Pause after each record of the consistent cadence: 15 ms.
pub const CONSISTENT_INTERVAL_MICROS: u64 = 15000;

/// Length of a small payload, in bytes.
pub const SMALL_PAYLOAD_LEN: usize = 32;

/// Length of a large payload, in bytes.
pub const LARGE_PAYLOAD_LEN: usize = 256;

/// The send cadence of a pattern.
#[derive(Debug, Clone, Copy, PartialEq, Eq, Structural)]
pub enum Cadence {
    Slow,
    Burst,
    Consistent,
}

/// The payload size of a pattern.
#[derive(Debug, Clone, Copy, PartialEq, Eq, Structural)]
pub enum PayloadClass {
    NoData,
    WithData,
    LargeData,
}

/// The tag of a traffic pattern. The order of the variants is the order of
/// the log sinks.
#[derive(Debug, Clone, Copy, PartialEq, Eq, Structural)]
pub enum ExperimentID {
    SlowNoData,
    SlowWithData,
    BurstNoData,
    BurstWithData,
    ConsistentNoData,
    ConsistentWithData,
    SlowLargeData,
    BurstLargeData,
    ConsistentLargeData,
}

/// One row of the pacing table: how often a pattern is sent, how long the
/// sender pauses after each record, and how large the payload is.
#[derive(Debug, Clone, Copy, PartialEq, Eq, Structural)]
pub struct PhaseConfig {
    pub tag: ExperimentID,
    pub iteration_count: u32,
    pub interval_micros: u64,
    pub payload: PayloadClass,
}

impl Cadence {
    /// Place of the cadence in the sender's order of phases.
    pub open spec fn spec_rank(self) -> int {
        match self {
            Cadence::Slow => 0,
            Cadence::Burst => 1,
            Cadence::Consistent => 2,
        }
    }

    /// The cadence at a place of the sender's order; `Consistent` beyond it.
    pub open spec fn spec_at(rank: int) -> Cadence {
        if rank == 0 {
            Cadence::Slow
        } else if rank == 1 {
            Cadence::Burst
        } else {
            Cadence::Consistent
        }
    }

    /// How many records a phase of this cadence sends.
    pub open spec fn spec_iteration_count(self) -> u32 {
        match self {
            Cadence::Slow => SLOW_SAMPLES,
            Cadence::Burst => BURST_SAMPLES,
            Cadence::Consistent => CONSISTENT_SAMPLES,
        }
    }

    /// The pause after each record of this cadence, in microseconds.
    pub open spec fn spec_interval_micros(self) -> u64 {
        match self {
            Cadence::Slow => SLOW_INTERVAL_MICROS,
            Cadence::Burst => BURST_INTERVAL_MICROS,
            Cadence::Consistent => CONSISTENT_INTERVAL_MICROS,
        }
    }

    /// How many records a phase of this cadence sends.
    #[verifier::when_used_as_spec(spec_iteration_count)]
    pub fn iteration_count(self) -> (n: u32)
        ensures
            n == self.spec_iteration_count(),
    {
        match self {
            Cadence::Slow => SLOW_SAMPLES,
            Cadence::Burst => BURST_SAMPLES,
            Cadence::Consistent => CONSISTENT_SAMPLES,
        }
    }

    /// How long the sender pauses after each record, in microseconds.
    #[verifier::when_used_as_spec(spec_interval_micros)]
    pub fn interval_micros(self) -> (micros: u64)
        ensures
            micros == self.spec_interval_micros(),
    {
        match self {
            Cadence::Slow => SLOW_INTERVAL_MICROS,
            Cadence::Burst => BURST_INTERVAL_MICROS,
            Cadence::Consistent => CONSISTENT_INTERVAL_MICROS,
        }
    }
}

impl PayloadClass {
    /// Place of the payload size within the phases of one cadence.
    pub open spec fn spec_rank(self) -> int {
        match self {
            PayloadClass::NoData => 0,
            PayloadClass::WithData => 1,
            PayloadClass::LargeData => 2,
        }
    }

    /// The payload size at a place within one cadence; `LargeData` beyond it.
    pub open spec fn spec_at(rank: int) -> PayloadClass {
        if rank == 0 {
            PayloadClass::NoData
        } else if rank == 1 {
            PayloadClass::WithData
        } else {
            PayloadClass::LargeData
        }
    }

    /// Length in bytes of a payload of this class.
    pub open spec fn spec_len(self) -> usize {
        match self {
            PayloadClass::NoData => 0,
            PayloadClass::WithData => SMALL_PAYLOAD_LEN,
            PayloadClass::LargeData => LARGE_PAYLOAD_LEN,
        }
    }

    /// Length in bytes of a payload of this class.
    #[verifier::when_used_as_spec(spec_len)]
    pub fn len(self) -> (n: usize)
        ensures
            n == self.spec_len(),
    {
        match self {
            PayloadClass::NoData => 0,
            PayloadClass::WithData => SMALL_PAYLOAD_LEN,
            PayloadClass::LargeData => LARGE_PAYLOAD_LEN,
        }
    }
}

impl ExperimentID {
    /// The send cadence of the pattern.
    pub open spec fn spec_cadence(self) -> Cadence {
        match self {
            ExperimentID::SlowNoData | ExperimentID::SlowWithData | ExperimentID::SlowLargeData => {
                Cadence::Slow
            },
            ExperimentID::BurstNoData | ExperimentID::BurstWithData | ExperimentID::BurstLargeData => {
                Cadence::Burst
            },
            ExperimentID::ConsistentNoData
            | ExperimentID::ConsistentWithData
            | ExperimentID::ConsistentLargeData => Cadence::Consistent,
        }
    }

    /// The payload size of the pattern.
    pub open spec fn spec_payload(self) -> PayloadClass {
        match self {
            ExperimentID::SlowNoData | ExperimentID::BurstNoData | ExperimentID::ConsistentNoData => {
                PayloadClass::NoData
            },
            ExperimentID::SlowWithData
            | ExperimentID::BurstWithData
            | ExperimentID::ConsistentWithData => PayloadClass::WithData,
            ExperimentID::SlowLargeData
            | ExperimentID::BurstLargeData
            | ExperimentID::ConsistentLargeData => PayloadClass::LargeData,
        }
    }

    /// The one pattern with the given cadence and payload size.
    pub open spec fn spec_from_parts(cadence: Cadence, payload: PayloadClass) -> ExperimentID {
        match (cadence, payload) {
            (Cadence::Slow, PayloadClass::NoData) => ExperimentID::SlowNoData,
            (Cadence::Slow, PayloadClass::WithData) => ExperimentID::SlowWithData,
            (Cadence::Slow, PayloadClass::LargeData) => ExperimentID::SlowLargeData,
            (Cadence::Burst, PayloadClass::NoData) => ExperimentID::BurstNoData,
            (Cadence::Burst, PayloadClass::WithData) => ExperimentID::BurstWithData,
            (Cadence::Burst, PayloadClass::LargeData) => ExperimentID::BurstLargeData,
            (Cadence::Consistent, PayloadClass::NoData) => ExperimentID::ConsistentNoData,
            (Cadence::Consistent, PayloadClass::WithData) => ExperimentID::ConsistentWithData,
            (Cadence::Consistent, PayloadClass::LargeData) => ExperimentID::ConsistentLargeData,
        }
    }

    /// Place of the tag among the log sinks: its place in the declaration.
    pub open spec fn spec_index(self) -> usize {
        match self {
            ExperimentID::SlowNoData => 0,
            ExperimentID::SlowWithData => 1,
            ExperimentID::BurstNoData => 2,
            ExperimentID::BurstWithData => 3,
            ExperimentID::ConsistentNoData => 4,
            ExperimentID::ConsistentWithData => 5,
            ExperimentID::SlowLargeData => 6,
            ExperimentID::BurstLargeData => 7,
            ExperimentID::ConsistentLargeData => 8,
        }
    }

    /// The tag at a place among the log sinks, if the place exists.
    pub open spec fn spec_from_index(index: usize) -> Option<ExperimentID> {
        if index == 0 {
            Some(ExperimentID::SlowNoData)
        } else if index == 1 {
            Some(ExperimentID::SlowWithData)
        } else if index == 2 {
            Some(ExperimentID::BurstNoData)
        } else if index == 3 {
            Some(ExperimentID::BurstWithData)
        } else if index == 4 {
            Some(ExperimentID::ConsistentNoData)
        } else if index == 5 {
            Some(ExperimentID::ConsistentWithData)
        } else if index == 6 {
            Some(ExperimentID::SlowLargeData)
        } else if index == 7 {
            Some(ExperimentID::BurstLargeData)
        } else if index == 8 {
            Some(ExperimentID::ConsistentLargeData)
        } else {
            None
        }
    }

    /// The tag's name as it is written in messages and file names.
    pub open spec fn spec_name(self) -> Seq<char> {
        match self {
            ExperimentID::SlowNoData => "SlowNoData"@,
            ExperimentID::SlowWithData => "SlowWithData"@,
            ExperimentID::BurstNoData => "BurstNoData"@,
            ExperimentID::BurstWithData => "BurstWithData"@,
            ExperimentID::ConsistentNoData => "ConsistentNoData"@,
            ExperimentID::ConsistentWithData => "ConsistentWithData"@,
            ExperimentID::SlowLargeData => "SlowLargeData"@,
            ExperimentID::BurstLargeData => "BurstLargeData"@,
            ExperimentID::ConsistentLargeData => "ConsistentLargeData"@,
        }
    }

    /// The tag of the phase at a place of the sender's order: the cadences
    /// one after the other, and within a cadence the payload sizes from none
    /// to large.
    pub open spec fn spec_in_send_order(place: int) -> ExperimentID {
        Self::spec_from_parts(Cadence::spec_at(place / 3), PayloadClass::spec_at(place % 3))
    }

    /// The send cadence of the pattern.
    #[verifier::when_used_as_spec(spec_cadence)]
    pub fn cadence(self) -> (c: Cadence)
        ensures
            c == self.spec_cadence(),
    {
        match self {
            ExperimentID::SlowNoData | ExperimentID::SlowWithData | ExperimentID::SlowLargeData => {
                Cadence::Slow
            },
            ExperimentID::BurstNoData | ExperimentID::BurstWithData | ExperimentID::BurstLargeData => {
                Cadence::Burst
            },
            ExperimentID::ConsistentNoData
            | ExperimentID::ConsistentWithData
            | ExperimentID::ConsistentLargeData => Cadence::Consistent,
        }
    }

    /// The payload size of the pattern.
    #[verifier::when_used_as_spec(spec_payload)]
    pub fn payload(self) -> (p: PayloadClass)
        ensures
            p == self.spec_payload(),
    {
        match self {
            ExperimentID::SlowNoData | ExperimentID::BurstNoData | ExperimentID::ConsistentNoData => {
                PayloadClass::NoData
            },
            ExperimentID::SlowWithData
            | ExperimentID::BurstWithData
            | ExperimentID::ConsistentWithData => PayloadClass::WithData,
            ExperimentID::SlowLargeData
            | ExperimentID::BurstLargeData
            | ExperimentID::ConsistentLargeData => PayloadClass::LargeData,
        }
    }

    /// The pattern with the given cadence and payload size.
    #[verifier::when_used_as_spec(spec_from_parts)]
    pub fn from_parts(cadence: Cadence, payload: PayloadClass) -> (tag: ExperimentID)
        ensures
            tag == Self::spec_from_parts(cadence, payload),
            tag.spec_cadence() == cadence,
            tag.spec_payload() == payload,
    {
        match cadence {
            Cadence::Slow => match payload {
                PayloadClass::NoData => ExperimentID::SlowNoData,
                PayloadClass::WithData => ExperimentID::SlowWithData,
                PayloadClass::LargeData => ExperimentID::SlowLargeData,
            },
            Cadence::Burst => match payload {
                PayloadClass::NoData => ExperimentID::BurstNoData,
                PayloadClass::WithData => ExperimentID::BurstWithData,
                PayloadClass::LargeData => ExperimentID::BurstLargeData,
            },
            Cadence::Consistent => match payload {
                PayloadClass::NoData => ExperimentID::ConsistentNoData,
                PayloadClass::WithData => ExperimentID::ConsistentWithData,
                PayloadClass::LargeData => ExperimentID::ConsistentLargeData,
            },
        }
    }

    /// The place of the tag's sink among the log sinks.
    #[verifier::when_used_as_spec(spec_index)]
    pub fn index(self) -> (i: usize)
        ensures
            i == self.spec_index(),
            i < PATTERN_COUNT,
            Self::spec_from_index(i) == Some(self),
    {
        match self {
            ExperimentID::SlowNoData => 0,
            ExperimentID::SlowWithData => 1,
            ExperimentID::BurstNoData => 2,
            ExperimentID::BurstWithData => 3,
            ExperimentID::ConsistentNoData => 4,
            ExperimentID::ConsistentWithData => 5,
            ExperimentID::SlowLargeData => 6,
            ExperimentID::BurstLargeData => 7,
            ExperimentID::ConsistentLargeData => 8,
        }
    }

    /// The tag whose sink has the given place, or `None` from `PATTERN_COUNT`
    /// on.
    #[verifier::when_used_as_spec(spec_from_index)]
    pub fn from_index(index: usize) -> (tag: Option<ExperimentID>)
        ensures
            tag == Self::spec_from_index(index),
            tag is Some <==> index < PATTERN_COUNT,
            tag matches Some(t) ==> t.spec_index() == index,
    {
        match index {
            0 => Some(ExperimentID::SlowNoData),
            1 => Some(ExperimentID::SlowWithData),
            2 => Some(ExperimentID::BurstNoData),
            3 => Some(ExperimentID::BurstWithData),
            4 => Some(ExperimentID::ConsistentNoData),
            5 => Some(ExperimentID::ConsistentWithData),
            6 => Some(ExperimentID::SlowLargeData),
            7 => Some(ExperimentID::BurstLargeData),
            8 => Some(ExperimentID::ConsistentLargeData),
            _ => None,
        }
    }

    /// The tag's name.
    pub fn name(self) -> (s: &'static str)
        ensures
            s@ == self.spec_name(),
    {
        match self {
            ExperimentID::SlowNoData => "SlowNoData",
            ExperimentID::SlowWithData => "SlowWithData",
            ExperimentID::BurstNoData => "BurstNoData",
            ExperimentID::BurstWithData => "BurstWithData",
            ExperimentID::ConsistentNoData => "ConsistentNoData",
            ExperimentID::ConsistentWithData => "ConsistentWithData",
            ExperimentID::SlowLargeData => "SlowLargeData",
            ExperimentID::BurstLargeData => "BurstLargeData",
            ExperimentID::ConsistentLargeData => "ConsistentLargeData",
        }
    }
}

impl PhaseConfig {
    /// The row of the reference table for a pattern: count and pause by its
    /// cadence, payload by its payload size.
    pub open spec fn spec_reference(tag: ExperimentID) -> PhaseConfig {
        PhaseConfig {
            tag,
            iteration_count: tag.spec_cadence().spec_iteration_count(),
            interval_micros: tag.spec_cadence().spec_interval_micros(),
            payload: tag.spec_payload(),
        }
    }

    /// The row of the reference table for a pattern.
    #[verifier::when_used_as_spec(spec_reference)]
    pub fn reference(tag: ExperimentID) -> (row: PhaseConfig)
        ensures
            row == Self::spec_reference(tag),
    {
        let cadence = tag.cadence();
        PhaseConfig {
            tag,
            iteration_count: cadence.iteration_count(),
            interval_micros: cadence.interval_micros(),
            payload: tag.payload(),
        }
    }
}

/// The reference table in the sender's order of phases.
pub open spec fn spec_reference_schedule() -> Seq<PhaseConfig> {
    Seq::new(
        PATTERN_COUNT as nat,
        |place: int| PhaseConfig::spec_reference(ExperimentID::spec_in_send_order(place)),
    )
}

/// The reference table: one row for each pattern, in the order in which the
/// sender runs the phases.
pub fn reference_schedule() -> (schedule: Vec<PhaseConfig>)
    ensures
        schedule@ == spec_reference_schedule(),
{
    let cadences = [Cadence::Slow, Cadence::Burst, Cadence::Consistent];
    let payloads = [PayloadClass::NoData, PayloadClass::WithData, PayloadClass::LargeData];
    let mut schedule: Vec<PhaseConfig> = Vec::new();
    let mut place: usize = 0;
    while place < PATTERN_COUNT
        invariant
            place <= PATTERN_COUNT,
            cadences@ == seq![Cadence::Slow, Cadence::Burst, Cadence::Consistent],
            payloads@ == seq![PayloadClass::NoData, PayloadClass::WithData, PayloadClass::LargeData],
            schedule@.len() == place,
            forall|k: int|
                0 <= k < place ==> #[trigger] schedule@[k] == PhaseConfig::spec_reference(
                    ExperimentID::spec_in_send_order(k),
                ),
        decreases PATTERN_COUNT - place,
    {
        let tag = ExperimentID::from_parts(cadences[place / 3], payloads[place % 3]);
        schedule.push(PhaseConfig::reference(tag));
        place = place + 1;
    }
    schedule
}

/// Tags and sink places correspond one to one: every tag has a place below
/// `PATTERN_COUNT`, the place leads back to the tag, and every such place
/// belongs to exactly one tag.
pub proof fn lemma_sink_places_one_to_one(tag: ExperimentID, other: ExperimentID, index: usize)
    ensures
        tag.spec_index() < PATTERN_COUNT,
        ExperimentID::spec_from_index(tag.spec_index()) == Some(tag),
        tag.spec_index() == other.spec_index() ==> tag == other,
        index < PATTERN_COUNT <==> ExperimentID::spec_from_index(index) is Some,
        index < PATTERN_COUNT ==> ExperimentID::spec_from_index(index)->0.spec_index() == index,
{
}

/// A pattern is its cadence and its payload size, and nothing else.
pub proof fn lemma_parts_one_to_one(tag: ExperimentID, cadence: Cadence, payload: PayloadClass)
    ensures
        ExperimentID::spec_from_parts(tag.spec_cadence(), tag.spec_payload()) == tag,
        ExperimentID::spec_from_parts(cadence, payload).spec_cadence() == cadence,
        ExperimentID::spec_from_parts(cadence, payload).spec_payload() == payload,
{
}

/// Place of a pattern's phase in the reference table.
pub open spec fn spec_send_place(tag: ExperimentID) -> int {
    3 * tag.spec_cadence().spec_rank() + tag.spec_payload().spec_rank()
}

/// The reference table holds each pattern exactly once: a pattern's row
/// stands at its place of the sender's order, and at no other place.
pub proof fn lemma_reference_schedule_covers(tag: ExperimentID, place: int)
    ensures
        0 <= spec_send_place(tag) < PATTERN_COUNT,
        spec_reference_schedule()[spec_send_place(tag)] == PhaseConfig::spec_reference(tag),
        0 <= place < PATTERN_COUNT && spec_reference_schedule()[place].tag == tag
            ==> place == spec_send_place(tag),
{
}

/// The reference table row by row: the three slow phases, then the three
/// burst phases, then the three consistent ones, each time with no payload,
/// the small one, and the large one.
pub proof fn lemma_reference_schedule_rows()
    ensures
        spec_reference_schedule() == seq![
            PhaseConfig::spec_reference(ExperimentID::SlowNoData),
            PhaseConfig::spec_reference(ExperimentID::SlowWithData),
            PhaseConfig::spec_reference(ExperimentID::SlowLargeData),
            PhaseConfig::spec_reference(ExperimentID::BurstNoData),
            PhaseConfig::spec_reference(ExperimentID::BurstWithData),
            PhaseConfig::spec_reference(ExperimentID::BurstLargeData),
            PhaseConfig::spec_reference(ExperimentID::ConsistentNoData),
            PhaseConfig::spec_reference(ExperimentID::ConsistentWithData),
            PhaseConfig::spec_reference(ExperimentID::ConsistentLargeData),
        ],
{
}

/// Two tags have the same name only if they are the same tag.
pub proof fn lemma_names_distinct(tag: ExperimentID, other: ExperimentID)
    ensures
        tag.spec_name() == other.spec_name() ==> tag == other,
{
    reveal_strlit("SlowNoData");
    reveal_strlit("SlowWithData");
    reveal_strlit("BurstNoData");
    reveal_strlit("BurstWithData");
    reveal_strlit("ConsistentNoData");
    reveal_strlit("ConsistentWithData");
    reveal_strlit("SlowLargeData");
    reveal_strlit("BurstLargeData");
    reveal_strlit("ConsistentLargeData");
    if tag.spec_name() == other.spec_name() {
        assert(tag.spec_name().len() == other.spec_name().len());
        assert(tag.spec_name()[0] == other.spec_name()[0]);
    }
}

} // verus!
