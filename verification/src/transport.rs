//! The byte transport the session runs over, and a scripted stand-in for
//! tests.

use std::collections::VecDeque;

use vstd::prelude::*;
use vstd::slice::slice_to_vec;

use crate::text;
use crate::time::Duration;

verus! {

/// How a write ended when it did not transfer every byte.
#[derive(Debug, PartialEq, Eq)]
pub enum WriteError {
    /// The deadline passed with nothing transferred and the write was
    /// cancelled cleanly. Sending the same bytes again is safe.
    TimedOut,
    /// The transfer stopped after `written` bytes.
    Partial { written: usize },
    /// The fate of the write could not be determined; the transport is no
    /// longer usable.
    Unknown,
    /// The device is gone or the transport has latched as lost.
    Lost(String),
    /// The write failed with a known result.
    Failed { written: usize, reason: String },
}

impl Clone for WriteError {
    fn clone(&self) -> (copy: Self)
        ensures
            copy == *self,
    {
        match self {
            WriteError::TimedOut => WriteError::TimedOut,
            WriteError::Partial { written } => WriteError::Partial { written: *written },
            WriteError::Unknown => WriteError::Unknown,
            WriteError::Lost(reason) => WriteError::Lost(reason.clone()),
            WriteError::Failed { written, reason } => WriteError::Failed {
                written: *written,
                reason: reason.clone(),
            },
        }
    }
}

impl WriteError {
    /// What [`WriteError::describe`] says.
    pub open spec fn text(self) -> Seq<char> {
        match self {
            WriteError::TimedOut => "write timed out before any byte was transferred"@,
            WriteError::Partial { written } => "write stopped after "@ + text::decimal(
                written as nat,
            ) + " bytes"@,
            WriteError::Unknown => "write outcome is unknown"@,
            WriteError::Lost(reason) => "device lost: "@ + reason@,
            WriteError::Failed { written, reason } => "write failed after "@ + text::decimal(
                written as nat,
            ) + " bytes: "@ + reason@,
        }
    }

    /// The error in words.
    pub fn describe(&self) -> (text: String)
        ensures
            text@ == self.text(),
    {
        match self {
            WriteError::TimedOut => "write timed out before any byte was transferred".to_owned(),
            WriteError::Partial { written } => text::join3(
                "write stopped after ",
                text::number(*written as u128).as_str(),
                " bytes",
            ),
            WriteError::Unknown => "write outcome is unknown".to_owned(),
            WriteError::Lost(reason) => text::join("device lost: ", reason.as_str()),
            WriteError::Failed { written, reason } => {
                let start = text::join3(
                    "write failed after ",
                    text::number(*written as u128).as_str(),
                    " bytes: ",
                );
                text::join(start.as_str(), reason.as_str())
            },
        }
    }
}

/// Why a read could not be serviced.
#[derive(Debug, PartialEq, Eq)]
pub enum ReadError {
    /// The device is gone or the transport has latched as lost.
    Lost(String),
    /// A call failed in a way that does not condemn the transport.
    Failed(String),
    /// An interrupt was requested while the read waited.
    Interrupted,
}

impl Clone for ReadError {
    fn clone(&self) -> (copy: Self)
        ensures
            copy == *self,
    {
        match self {
            ReadError::Lost(reason) => ReadError::Lost(reason.clone()),
            ReadError::Failed(reason) => ReadError::Failed(reason.clone()),
            ReadError::Interrupted => ReadError::Interrupted,
        }
    }
}

impl ReadError {
    /// What [`ReadError::describe`] says.
    pub open spec fn text(self) -> Seq<char> {
        match self {
            ReadError::Lost(reason) => "device lost: "@ + reason@,
            ReadError::Failed(reason) => "read failed: "@ + reason@,
            ReadError::Interrupted => "read interrupted"@,
        }
    }

    /// The error in words.
    pub fn describe(&self) -> (text: String)
        ensures
            text@ == self.text(),
    {
        match self {
            ReadError::Lost(reason) => text::join("device lost: ", reason.as_str()),
            ReadError::Failed(reason) => text::join("read failed: ", reason.as_str()),
            ReadError::Interrupted => "read interrupted".to_owned(),
        }
    }
}

/// One call on a transport and what came back.
pub enum Exchange {
    /// These bytes were to be written within this time.
    Write { data: Seq<u8>, timeout: Duration, outcome: Result<(), WriteError> },
    /// Bytes were asked for within this time.
    Read { timeout: Duration, received: Result<Seq<u8>, ReadError> },
}

/// The bytes behind the result of a read.
pub open spec fn read_view(result: Result<Vec<u8>, ReadError>) -> Result<Seq<u8>, ReadError> {
    match result {
        Ok(bytes) => Ok(bytes@),
        Err(error) => Err(error),
    }
}

/// A duplex byte stream to the device.
pub trait Transport {
    /// Every call made so far, in order, with what came back.
    open spec fn history(&self) -> Seq<Exchange> {
        arbitrary()
    }

    /// Writes all of `data`, waiting at most `timeout` for it to transfer.
    fn write(&mut self, data: &[u8], timeout: Duration) -> (result: Result<(), WriteError>)
        ensures
            final(self).history() == old(self).history().push(
                Exchange::Write { data: data@, timeout, outcome: result },
            ),
    ;

    /// Returns whatever bytes arrive within `timeout`. An empty result means
    /// the deadline passed with nothing received.
    fn read(&mut self, timeout: Duration) -> (result: Result<Vec<u8>, ReadError>)
        ensures
            final(self).history() == old(self).history().push(
                Exchange::Read { timeout, received: read_view(result) },
            ),
    ;
}

/// One scripted answer to a `read` call.
#[derive(Debug, Clone, PartialEq, Eq)]
pub enum ReadStep {
    Data(Vec<u8>),
    Timeout,
    Error(ReadError),
    /// Reads time out until a write has happened; the next write consumes
    /// this step and unblocks whatever follows it.
    WaitForWrite,
}

/// Records writes and serves reads from a script.
pub struct MockTransport {
    pub writes: Vec<Vec<u8>>,
    /// The write results still to be given.
    pub write_results: VecDeque<Result<(), WriteError>>,
    /// The reads still to be served.
    pub reads: VecDeque<ReadStep>,
    /// Every call made so far.
    pub history: Ghost<Seq<Exchange>>,
}

/// Whether the script holds reads back until a write.
pub open spec fn waits_for_write(script: Seq<ReadStep>) -> bool {
    script.len() > 0 && script[0] is WaitForWrite
}

impl MockTransport {
    /// A transport with nothing scripted.
    pub fn new() -> (mock: Self)
        ensures
            mock.writes@.len() == 0,
            mock.reads@.len() == 0,
            mock.write_results@.len() == 0,
            mock.history() == Seq::<Exchange>::empty(),
    {
        MockTransport {
            writes: Vec::new(),
            write_results: VecDeque::new(),
            reads: VecDeque::new(),
            history: Ghost(Seq::empty()),
        }
    }

    /// Adds one step to the script.
    fn queue(&mut self, step: ReadStep) -> (mock: &mut Self)
        ensures
            mock.writes == old(self).writes,
            mock.reads@ == old(self).reads@.push(step),
            mock.write_results@ == old(self).write_results@,
            mock.history() == old(self).history(),
            *final(self) == *final(mock),
    {
        self.reads.push_back(step);
        self
    }

    /// Serves `bytes` on a later read.
    pub fn queue_read(&mut self, bytes: Vec<u8>) -> (mock: &mut Self)
        ensures
            mock.writes == old(self).writes,
            mock.reads@ == old(self).reads@.push(ReadStep::Data(bytes)),
            mock.write_results@ == old(self).write_results@,
            mock.history() == old(self).history(),
            *final(self) == *final(mock),
    {
        self.queue(ReadStep::Data(bytes))
    }

    /// Makes a later read time out with nothing received.
    pub fn queue_timeout(&mut self) -> (mock: &mut Self)
        ensures
            mock.writes == old(self).writes,
            mock.reads@ == old(self).reads@.push(ReadStep::Timeout),
            mock.write_results@ == old(self).write_results@,
            mock.history() == old(self).history(),
            *final(self) == *final(mock),
    {
        self.queue(ReadStep::Timeout)
    }

    /// Makes a later read fail.
    pub fn queue_read_error(&mut self, error: ReadError) -> (mock: &mut Self)
        ensures
            mock.writes == old(self).writes,
            mock.reads@ == old(self).reads@.push(ReadStep::Error(error)),
            mock.write_results@ == old(self).write_results@,
            mock.history() == old(self).history(),
            *final(self) == *final(mock),
    {
        self.queue(ReadStep::Error(error))
    }

    /// Holds later reads at a timeout until the next write.
    pub fn queue_wait_for_write(&mut self) -> (mock: &mut Self)
        ensures
            mock.writes == old(self).writes,
            mock.reads@ == old(self).reads@.push(ReadStep::WaitForWrite),
            mock.write_results@ == old(self).write_results@,
            mock.history() == old(self).history(),
            *final(self) == *final(mock),
    {
        self.queue(ReadStep::WaitForWrite)
    }

    /// Serves `bytes` only after the next write, as a device replying to a
    /// request would.
    pub fn queue_after_write(&mut self, bytes: Vec<u8>) -> (mock: &mut Self)
        ensures
            mock.writes == old(self).writes,
            mock.reads@ == old(self).reads@.push(ReadStep::WaitForWrite).push(
                ReadStep::Data(bytes),
            ),
            mock.write_results@ == old(self).write_results@,
            mock.history() == old(self).history(),
            *final(self) == *final(mock),
    {
        self.queue(ReadStep::WaitForWrite).queue(ReadStep::Data(bytes))
    }

    /// Makes a later write return `result`. Writes without a queued result
    /// succeed.
    pub fn queue_write_result(&mut self, result: Result<(), WriteError>) -> (mock: &mut Self)
        ensures
            mock.writes == old(self).writes,
            mock.reads@ == old(self).reads@,
            mock.write_results@ == old(self).write_results@.push(result),
            mock.history() == old(self).history(),
            *final(self) == *final(mock),
    {
        self.write_results.push_back(result);
        self
    }

    /// Scripted reads not yet consumed.
    pub fn pending_reads(&self) -> (count: usize)
        ensures
            count == self.reads@.len(),
    {
        self.reads.len()
    }

    /// Whether the script holds reads back until a write.
    fn holds_reads(&self) -> (holds: bool)
        ensures
            holds == waits_for_write(self.reads@),
    {
        self.reads.len() > 0 && matches!(self.reads[0], ReadStep::WaitForWrite)
    }
}

impl Default for MockTransport {
    /// A transport with nothing scripted.
    fn default() -> (mock: Self)
        ensures
            mock.writes@.len() == 0,
            mock.reads@.len() == 0,
            mock.write_results@.len() == 0,
            mock.history() == Seq::<Exchange>::empty(),
    {
        MockTransport::new()
    }
}

impl Transport for MockTransport {
    open spec fn history(&self) -> Seq<Exchange> {
        self.history@
    }

    /// Records `data`, releases reads that were held back for a write, and
    /// gives the next scripted result, or success when there is none.
    fn write(&mut self, data: &[u8], timeout: Duration) -> (result: Result<(), WriteError>)
        ensures
            final(self).writes@.len() == old(self).writes@.len() + 1,
            final(self).writes@.drop_last() == old(self).writes@,
            final(self).writes@.last()@ == data@,
            final(self).reads@ == if waits_for_write(old(self).reads@) {
                old(self).reads@.skip(1)
            } else {
                old(self).reads@
            },
            if old(self).write_results@.len() == 0 {
                result == Ok::<(), WriteError>(()) && final(self).write_results@ == old(self).write_results@
            } else {
                result == old(self).write_results@[0] && final(self).write_results@ == old(self).write_results@.skip(1)
            },
    {
        self.writes.push(slice_to_vec(data));
        if self.holds_reads() {
            let _ = self.reads.pop_front();
        }
        let result = match self.write_results.pop_front() {
            Some(result) => result,
            None => Ok(()),
        };
        proof {
            self.history@ = self.history@.push(Exchange::Write { data: data@, timeout, outcome: result });
        }
        result
    }

    /// Serves the next step of the script; a timeout when there is none or
    /// when reads are held back.
    fn read(&mut self, timeout: Duration) -> (result: Result<Vec<u8>, ReadError>)
        ensures
            final(self).writes == old(self).writes,
            final(self).write_results@ == old(self).write_results@,
            if old(self).reads@.len() == 0 || waits_for_write(old(self).reads@) {
                read_view(result) == Ok::<Seq<u8>, ReadError>(Seq::empty()) && final(self).reads@
                    == old(self).reads@
            } else {
                &&& final(self).reads@ == old(self).reads@.skip(1)
                &&& match old(self).reads@[0] {
                    ReadStep::Data(bytes) => result == Ok::<Vec<u8>, ReadError>(bytes),
                    ReadStep::Error(error) => result == Err::<Vec<u8>, ReadError>(error),
                    _ => read_view(result) == Ok::<Seq<u8>, ReadError>(Seq::empty()),
                }
            },
    {
        let result = if self.holds_reads() {
            Ok(Vec::new())
        } else {
            match self.reads.pop_front() {
                Some(ReadStep::Data(bytes)) => Ok(bytes),
                Some(ReadStep::Error(error)) => Err(error),
                Some(ReadStep::Timeout) | Some(ReadStep::WaitForWrite) | None => Ok(Vec::new()),
            }
        };
        proof {
            self.history@ =
            self.history@.push(Exchange::Read { timeout, received: read_view(result) });
        }
        result
    }
}

// ---------------------------------------------------------------------------
// Laws.
// ---------------------------------------------------------------------------

/// How a write failed is told in words of its own, with what was written and
/// why.
pub proof fn write_errors_say_what_happened(error: WriteError)
    ensures
        error.text() == match error {
            WriteError::TimedOut => "write timed out before any byte was transferred"@,
            WriteError::Partial { written } => "write stopped after "@ + text::decimal(
                written as nat,
            ) + " bytes"@,
            WriteError::Unknown => "write outcome is unknown"@,
            WriteError::Lost(reason) => "device lost: "@ + reason@,
            WriteError::Failed { written, reason } => "write failed after "@ + text::decimal(
                written as nat,
            ) + " bytes: "@ + reason@,
        },
        error is TimedOut <==> error.text() == "write timed out before any byte was transferred"@,
        error is Unknown <==> error.text() == "write outcome is unknown"@,
{
    reveal_strlit("write timed out before any byte was transferred");
    reveal_strlit("write outcome is unknown");
    reveal_strlit("write stopped after ");
    reveal_strlit("device lost: ");
    reveal_strlit("write failed after ");
    let text = error.text();
    assert("write timed out before any byte was transferred"@[6] == 't'
        && "write outcome is unknown"@[6] == 'o' && "write outcome is unknown"@[0] == 'w');
    match error {
        WriteError::Partial { .. } => {
            assert(text[6] == 's');
        },
        WriteError::Lost(_) => {
            assert(text[0] == 'd');
            assert("write timed out before any byte was transferred"@[0] == 'w');
        },
        WriteError::Failed { .. } => {
            assert(text[6] == 'f');
        },
        _ => {},
    }
}

/// How a read failed is told in words of its own, with the reason.
pub proof fn read_errors_say_what_happened(error: ReadError)
    ensures
        error.text() == match error {
            ReadError::Lost(reason) => "device lost: "@ + reason@,
            ReadError::Failed(reason) => "read failed: "@ + reason@,
            ReadError::Interrupted => "read interrupted"@,
        },
{
}

} // verus!
