//! The receiver's loop, as a state machine.
//!
//! The receiver connects, then reads pieces of the stream until the sender
//! closes it. The machine reassembles the frames and decides when the loop
//! ends; the caller connects, reads, decodes the bodies, and writes the
//! latencies to their sinks.

use vstd::prelude::*;
use crate::stream::{complete_bodies, open_tail, StreamDecoder};

verus! {

/// Why a receiver gave up.
#[derive(Debug, Clone, Copy, PartialEq, Eq, Structural)]
pub enum Fault {
    /// Connecting or reading failed.
    Transport,
    /// The stream ended inside a frame.
    Truncated,
    /// The body of a frame is not an encoded record.
    Malformed,
    /// A sink could not be written.
    Sink,
    /// The caller reported what cannot happen in the machine's state.
    Contract,
}

/// Where a receiver stands. `Closed` and `Faulted` are final.
#[derive(Debug, Clone, Copy, PartialEq, Eq, Structural)]
pub enum ReceiverState {
    Connecting,
    Streaming,
    Closed,
    Faulted(Fault),
}

/// What the caller reports to the machine.
#[derive(Debug, Clone, Copy)]
pub enum ReceiverEvent<'a> {
    /// The connection is up.
    Connected,
    /// One read brought these bytes. No bytes: the sender closed the
    /// stream.
    Received(&'a [u8]),
    /// Something went wrong on the caller's side.
    Failed(Fault),
}

/// What the machine asks of the caller.
#[derive(Debug, PartialEq, Eq)]
pub enum ReceiverAction {
    /// Decode each of these bodies and route its latency, in this order;
    /// then read again.
    Route(Vec<Vec<u8>>),
    /// Leave the loop. The state says whether the stream was closed or the
    /// run has failed.
    Stop,
}

/// An event as a mathematical value.
pub enum EventView {
    Connected,
    Received(Seq<u8>),
    Failed(Fault),
}

/// An action as a mathematical value.
pub enum ActionView {
    Route(Seq<Seq<u8>>),
    Stop,
}

impl<'a> View for ReceiverEvent<'a> {
    type V = EventView;

    open spec fn view(&self) -> EventView {
        match *self {
            ReceiverEvent::Connected => EventView::Connected,
            ReceiverEvent::Received(piece) => EventView::Received(piece@),
            ReceiverEvent::Failed(fault) => EventView::Failed(fault),
        }
    }
}

impl View for ReceiverAction {
    type V = ActionView;

    open spec fn view(&self) -> ActionView {
        match *self {
            ReceiverAction::Route(bodies) => ActionView::Route(bodies.deep_view()),
            ReceiverAction::Stop => ActionView::Stop,
        }
    }
}

/// The machine's rule: the next state, the bytes of the open frame that
/// are kept, and the action, for a state, the bytes kept so far, and an
/// event.
///
/// While streaming, a piece is decoded together with the bytes kept, and
/// the bodies of the frames it completes are handed out. An empty piece
/// ends the stream: cleanly if no frame is open, as truncated otherwise. A
/// failure that the caller reports ends the run with that fault, and so
/// does, as a breach of contract, an event that the state does not expect.
pub open spec fn spec_step(state: ReceiverState, pending: Seq<u8>, event: EventView) -> (
    ReceiverState,
    Seq<u8>,
    ActionView,
) {
    match state {
        ReceiverState::Connecting => match event {
            EventView::Connected => (
                ReceiverState::Streaming,
                pending,
                ActionView::Route(Seq::empty()),
            ),
            EventView::Failed(fault) => (ReceiverState::Faulted(fault), pending, ActionView::Stop),
            EventView::Received(_) => (
                ReceiverState::Faulted(Fault::Contract),
                pending,
                ActionView::Stop,
            ),
        },
        ReceiverState::Streaming => match event {
            EventView::Received(piece) => if piece.len() > 0 {
                (
                    ReceiverState::Streaming,
                    open_tail(pending + piece),
                    ActionView::Route(complete_bodies(pending + piece)),
                )
            } else if pending.len() == 0 {
                (ReceiverState::Closed, pending, ActionView::Stop)
            } else {
                (ReceiverState::Faulted(Fault::Truncated), pending, ActionView::Stop)
            },
            EventView::Failed(fault) => (ReceiverState::Faulted(fault), pending, ActionView::Stop),
            EventView::Connected => (
                ReceiverState::Faulted(Fault::Contract),
                pending,
                ActionView::Stop,
            ),
        },
        _ => (state, pending, ActionView::Stop),
    }
}

/// The receiver's state machine.
pub struct Receiver {
    state: ReceiverState,
    decoder: StreamDecoder,
}

impl Receiver {
    pub closed spec fn spec_state(&self) -> ReceiverState {
        self.state
    }

    /// The bytes of the frame that is still open.
    pub closed spec fn pending(&self) -> Seq<u8> {
        self.decoder.pending()
    }

    /// A receiver that has yet to connect.
    pub fn new() -> (receiver: Self)
        ensures
            receiver.spec_state() == ReceiverState::Connecting,
            receiver.pending() == Seq::<u8>::empty(),
    {
        Receiver { state: ReceiverState::Connecting, decoder: StreamDecoder::new() }
    }

    /// Where the receiver stands.
    #[verifier::when_used_as_spec(spec_state)]
    pub fn state(&self) -> (state: ReceiverState)
        ensures
            state == self.spec_state(),
    {
        self.state
    }

    /// Takes the caller's report and says what to do next.
    pub fn step(&mut self, event: ReceiverEvent<'_>) -> (action: ReceiverAction)
        ensures
            (final(self).spec_state(), final(self).pending(), action@) == spec_step(
                old(self).spec_state(),
                old(self).pending(),
                event@,
            ),
    {
        match self.state {
            ReceiverState::Connecting => match event {
                ReceiverEvent::Connected => {
                    self.state = ReceiverState::Streaming;
                    let nothing: Vec<Vec<u8>> = Vec::new();
                    assert(nothing.deep_view() =~= Seq::<Seq<u8>>::empty());
                    ReceiverAction::Route(nothing)
                },
                ReceiverEvent::Failed(fault) => {
                    self.state = ReceiverState::Faulted(fault);
                    ReceiverAction::Stop
                },
                ReceiverEvent::Received(_) => {
                    self.state = ReceiverState::Faulted(Fault::Contract);
                    ReceiverAction::Stop
                },
            },
            ReceiverState::Streaming => match event {
                ReceiverEvent::Received(piece) => {
                    if piece.len() > 0 {
                        ReceiverAction::Route(self.decoder.feed(piece))
                    } else {
                        match self.decoder.finish() {
                            Ok(_) => {
                                self.state = ReceiverState::Closed;
                            },
                            Err(_) => {
                                self.state = ReceiverState::Faulted(Fault::Truncated);
                            },
                        }
                        ReceiverAction::Stop
                    }
                },
                ReceiverEvent::Failed(fault) => {
                    self.state = ReceiverState::Faulted(fault);
                    ReceiverAction::Stop
                },
                ReceiverEvent::Connected => {
                    self.state = ReceiverState::Faulted(Fault::Contract);
                    ReceiverAction::Stop
                },
            },
            _ => ReceiverAction::Stop,
        }
    }
}

} // verus!
