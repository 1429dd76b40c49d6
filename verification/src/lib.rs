//! Building blocks for measuring message latency over a byte stream.
//!
//! A sender emits stamped records under nine traffic patterns; a receiver
//! reads them and logs, for each record, the time it was under way. The
//! library holds what both sides decide and compute:
//!
//! - `experiment`: the patterns and the table that paces them;
//! - `record`: the record, and the filler payloads it carries;
//! - `frame`: frames, that is encoded records ended by a sentinel byte;
//! - `stream`: reassembly of frames from a stream cut at arbitrary places;
//! - `sender`: the sender's pacing as a state machine;
//! - `receiver`: the receiver's loop as a state machine;
//! - `latency`: the latency of a record and the line that records it;
//! - `sink`: the table of log sinks, one for each pattern;
//! - `color`: terminal colours for status messages.
//!
//! Sockets, clocks, files and the encoding of a record into bytes are the
//! caller's: the library is handed plain values and hands plain values back.

pub mod color;
pub mod experiment;
pub mod frame;
pub mod latency;
pub mod receiver;
pub mod record;
pub mod sender;
pub mod sink;
pub mod stream;

pub use color::CL;
pub use experiment::{Cadence, ExperimentID, PayloadClass, PhaseConfig};
pub use frame::{decode, encode, DecodeError, EncodeError, SENTINEL};
pub use latency::{decimal, measure, Measurement};
pub use receiver::{Fault, Receiver, ReceiverAction, ReceiverEvent, ReceiverState};
pub use record::{PayloadPool, WSData};
pub use sender::{Pacer, SenderAction, SenderEvent};
pub use sink::SinkTable;
pub use stream::StreamDecoder;
