//! Terminator-delimited reply framing.
//!
//! Device replies end with the terminator byte `0x3E` (`>`), which is not
//! part of the payload.  The reader accumulates one byte at a time and
//! bounds the number of tolerated read errors, so that a silent device
//! surfaces as a timeout instead of an endless retry.

use vstd::prelude::*;

use crate::tinymesh_comm::CommError;

verus! {

/// The byte that ends every terminator-delimited device reply.
pub const REPLY_TERMINATOR: u8 = 0x3e;

/// Accumulates a terminator-delimited reply byte by byte.
///
/// Feed every received byte to [`LineReader::on_byte`] and every failed
/// read to [`LineReader::on_read_error`]; when either reports completion,
/// [`LineReader::finish`] hands out the payload or the timeout.
#[derive(Debug)]
pub struct LineReader {
    buffer: Vec<u8>,
    retries_left: u32,
    done: bool,
    timed_out: bool,
}

impl LineReader {
    /// The payload accumulated so far.
    pub closed spec fn payload(&self) -> Seq<u8> {
        self.buffer@
    }

    /// Whether the reply is complete (terminator seen or budget spent).
    pub closed spec fn is_done(&self) -> bool {
        self.done
    }

    /// Whether the read-error budget ran out before the terminator.
    pub closed spec fn is_timed_out(&self) -> bool {
        self.timed_out
    }

    /// How many more read errors will be tolerated.
    pub closed spec fn budget(&self) -> u32 {
        self.retries_left
    }

    pub open spec fn wf(&self) -> bool {
        self.is_timed_out() ==> self.is_done()
    }

    /// A fresh reader that tolerates `retry_budget` failed reads.
    pub fn new(retry_budget: u32) -> (r: LineReader)
        ensures
            r.payload() == Seq::<u8>::empty(),
            r.budget() == retry_budget,
            !r.is_done(),
            !r.is_timed_out(),
            r.wf(),
    {
        LineReader { buffer: Vec::new(), retries_left: retry_budget, done: false, timed_out: false }
    }

    /// Takes one received byte: the terminator completes the reply and is
    /// dropped; any other byte is appended.
    pub fn on_byte(&mut self, b: u8) -> (done: bool)
        requires
            !old(self).is_done(),
            old(self).wf(),
        ensures
            final(self).wf(),
            done == final(self).is_done(),
            final(self).is_done() == (b == REPLY_TERMINATOR),
            !final(self).is_timed_out(),
            final(self).budget() == old(self).budget(),
            final(self).payload() == if b == REPLY_TERMINATOR {
                old(self).payload()
            } else {
                old(self).payload().push(b)
            },
    {
        if b == REPLY_TERMINATOR {
            self.done = true;
            true
        } else {
            self.buffer.push(b);
            false
        }
    }

    /// Takes one failed read: the budget shrinks by one, and a spent
    /// budget completes the reply as timed out.
    pub fn on_read_error(&mut self) -> (done: bool)
        requires
            !old(self).is_done(),
            old(self).wf(),
        ensures
            final(self).wf(),
            done == final(self).is_done(),
            final(self).payload() == old(self).payload(),
            if old(self).budget() == 0 {
                final(self).is_done() && final(self).is_timed_out()
            } else {
                !final(self).is_done() && !final(self).is_timed_out() && final(self).budget()
                    == old(self).budget() - 1
            },
    {
        if self.retries_left == 0 {
            self.done = true;
            self.timed_out = true;
            true
        } else {
            self.retries_left = self.retries_left - 1;
            false
        }
    }

    /// The completed reply: its payload, or a timeout if the budget ran
    /// out first.
    pub fn finish(self) -> (r: Result<Vec<u8>, CommError>)
        requires
            self.is_done(),
        ensures
            if self.is_timed_out() {
                r == Err::<Vec<u8>, CommError>(CommError::Timeout)
            } else {
                r matches Ok(v) && v@ == self.payload()
            },
    {
        if self.timed_out {
            Err(CommError::Timeout)
        } else {
            Ok(self.buffer)
        }
    }
}

} // verus!
