//! The table of log sinks, one for each pattern.
//!
//! A table is complete from the moment it exists: every tag has its sink,
//! so looking one up cannot fail, and two tags never share a sink.

use vstd::prelude::*;
use crate::experiment::{ExperimentID, PATTERN_COUNT};

verus! {

/// One sink of type `S` for each pattern, in the order of the tags.
pub struct SinkTable<S> {
    sinks: Vec<S>,
}

impl<S> View for SinkTable<S> {
    type V = Seq<S>;

    closed spec fn view(&self) -> Seq<S> {
        self.sinks@
    }
}

impl<S> SinkTable<S> {
    #[verifier::type_invariant]
    spec fn complete(self) -> bool {
        self.sinks@.len() == PATTERN_COUNT
    }

    /// A table of the given sinks, the sink of a tag at the tag's place.
    /// There is none unless there is exactly one sink for each pattern.
    pub fn new(sinks: Vec<S>) -> (table: Option<Self>)
        ensures
            table is Some <==> sinks@.len() == PATTERN_COUNT,
            table matches Some(t) ==> t@ == sinks@,
    {
        if sinks.len() == PATTERN_COUNT {
            Some(SinkTable { sinks })
        } else {
            None
        }
    }

    /// The sink of a tag.
    pub fn get(&self, tag: ExperimentID) -> (sink: &S)
        ensures
            self@.len() == PATTERN_COUNT,
            *sink == self@[tag.spec_index() as int],
    {
        proof {
            use_type_invariant(self);
        }
        &self.sinks[tag.index()]
    }

    /// The sink of a tag, to write to. Whatever is done to it, the sinks of
    /// the other tags stay as they are.
    pub fn get_mut(&mut self, tag: ExperimentID) -> (sink: &mut S)
        ensures
            old(self)@.len() == PATTERN_COUNT,
            *sink == old(self)@[tag.spec_index() as int],
            final(self)@ == old(self)@.update(tag.spec_index() as int, *final(sink)),
    {
        proof {
            use_type_invariant(&*self);
        }
        &mut self.sinks[tag.index()]
    }
}

} // verus!
