//! One request/response cycle with the supply.
//!
//! The supply's replies carry no length and no terminator: a reply ends when
//! a read times out with nothing more to say. An [`Exchange`] holds the
//! request and the bytes received so far; the caller, who owns the port,
//! writes the request, reads, and reports each outcome back, and the exchange
//! says whether to read again, what the complete reply is, or why it failed.
use vstd::prelude::*;
use vstd::string::{StrSliceExecFns, StringSliceAdditionalSpecFns};
use crate::error::PsuError;

verus! {

/// Serial line speed of the supply, in baud.
pub const BAUD_RATE: u32 = 9600;

/// How long a read waits for the next byte before the reply counts as
/// complete, in milliseconds. It is the frame boundary of the protocol.
pub const READ_TIMEOUT_MS: u64 = 60;

/// Size of the scratch buffer for each read.
pub const READ_BUFFER_LEN: usize = 512;

/// What one read of the port gave.
#[derive(Debug, PartialEq, Eq)]
pub enum ReadOutcome {
    /// The bytes that arrived.
    Data(Vec<u8>),
    /// Nothing arrived within the read timeout.
    TimedOut,
    /// The read failed in any other way.
    Failed,
}

/// What to do after an exchange has taken in an event.
pub enum Progress {
    /// Read again, with this exchange.
    Pending(Exchange),
    /// The reply is complete.
    Complete(Vec<u8>),
    /// The exchange failed.
    Failed(PsuError),
}

/// A request in flight and the reply received so far.
pub struct Exchange {
    request: Vec<u8>,
    received: Vec<u8>,
}

/// The reply so far after a read that gave `chunk`.
pub open spec fn after_read(received: Seq<u8>, chunk: Seq<u8>) -> Seq<u8> {
    received + chunk
}

/// The reply so far after reads that gave each of `chunks` in turn, starting
/// from `received`.
pub open spec fn after_reads(received: Seq<u8>, chunks: Seq<Seq<u8>>) -> Seq<u8>
    decreases chunks.len(),
{
    if chunks.len() == 0 {
        received
    } else {
        after_reads(after_read(received, chunks[0]), chunks.drop_first())
    }
}

impl Exchange {
    /// The bytes of the request.
    pub closed spec fn spec_request(&self) -> Seq<u8> {
        self.request@
    }

    /// The bytes received so far.
    pub closed spec fn spec_received(&self) -> Seq<u8> {
        self.received@
    }

    /// Starts an exchange for the ASCII command `command`, nothing received.
    pub fn new(command: &str) -> (r: Exchange)
        ensures
            r.spec_request() == command.spec_bytes(),
            r.spec_received() == Seq::<u8>::empty(),
    {
        Exchange { request: command.as_bytes_vec(), received: Vec::new() }
    }

    /// The bytes to write to the port.
    pub fn request(&self) -> (r: &[u8])
        ensures
            r@ == self.spec_request(),
    {
        self.request.as_slice()
    }

    /// The bytes received so far.
    pub fn received(&self) -> (r: &[u8])
        ensures
            r@ == self.spec_received(),
    {
        self.received.as_slice()
    }

    /// Takes in how many bytes of the request the port accepted. All of them
    /// must have been: anything short fails the exchange.
    pub fn on_written(self, written: usize) -> (r: Progress)
        ensures
            written == self.spec_request().len() ==> (r matches Progress::Pending(e) && e
                == self),
            written != self.spec_request().len() ==> r == Progress::Failed(PsuError::ShortWrite),
    {
        if written == self.request.len() {
            Progress::Pending(self)
        } else {
            Progress::Failed(PsuError::ShortWrite)
        }
    }

    /// Takes in the outcome of one read. Data is added to the reply and
    /// another read is due; a timeout completes the reply with everything
    /// received; any other failure ends the exchange.
    pub fn on_read(self, outcome: ReadOutcome) -> (r: Progress)
        ensures
            outcome matches ReadOutcome::Data(bytes) ==> (r matches Progress::Pending(e) && e.spec_request()
                == self.spec_request() && e.spec_received() == after_read(
                self.spec_received(),
                bytes@,
            )),
            outcome is TimedOut ==> (r matches Progress::Complete(reply) && reply@
                == self.spec_received()),
            outcome is Failed ==> r == Progress::Failed(PsuError::Read),
    {
        match outcome {
            ReadOutcome::Data(bytes) => {
                let mut bytes = bytes;
                let mut received = self.received;
                received.append(&mut bytes);
                Progress::Pending(Exchange { request: self.request, received })
            },
            ReadOutcome::TimedOut => Progress::Complete(self.received),
            ReadOutcome::Failed => Progress::Failed(PsuError::Read),
        }
    }
}

/// Framing: reads that give some chunks and then time out yield exactly
/// those chunks concatenated, in the order they arrived.
pub proof fn lemma_reads_concatenate(received: Seq<u8>, chunks: Seq<Seq<u8>>)
    ensures
        after_reads(received, chunks) == received + chunks.flatten(),
    decreases chunks.len(),
{
    if chunks.len() > 0 {
        lemma_reads_concatenate(after_read(received, chunks[0]), chunks.drop_first());
        assert(received + chunks[0] + chunks.drop_first().flatten() =~= received + chunks.flatten());
    } else {
        assert(received + chunks.flatten() =~= received);
    }
}

} // verus!
