//! Copying a stream in blocks: what to do after each attempt to read.
use vstd::prelude::*;

verus! {

/// The size of the block that is read at a time.
pub const BUFSIZ: usize = 8192;

/// What an attempt to read a block came to.
#[derive(Clone, Copy, Debug, PartialEq, Eq, Structural)]
pub enum ReadOutcome {
    /// This many bytes were read; none means the stream has ended.
    Read(usize),
    /// The read was interrupted, or would have blocked.
    Again,
    /// The read failed.
    Failed,
}

/// What the copier does next.
#[derive(Clone, Copy, Debug, PartialEq, Eq, Structural)]
pub enum CopyStep {
    /// Write the first so many bytes of the block, then read again.
    Write(usize),
    /// Read again.
    Retry,
    /// Stop: the stream has ended, and so many bytes were written in all.
    Finish(u64),
    /// Stop with the error of the read.
    Fail,
}

/// The count of the bytes written so far.
pub struct Copier {
    written: u64,
}

impl Copier {
    /// The number of bytes written so far.
    pub closed spec fn written(&self) -> nat {
        self.written as nat
    }

    /// A copier that has written nothing.
    pub fn new() -> (copier: Self)
        ensures
            copier.written() == 0,
    {
        Self { written: 0 }
    }

    /// Decides the next step from what a read came to. A read of no bytes
    /// ends the copy with the count so far. A read of some bytes has them
    /// written; the count goes up by their number once `wrote` is told. A
    /// read that was interrupted or would have blocked is tried again. Any
    /// other failure ends the copy, and so does a read that claims more
    /// bytes than a block holds.
    pub fn next(&self, outcome: ReadOutcome) -> (step: CopyStep)
        ensures
            step == match outcome {
                ReadOutcome::Read(n) => if n == 0 {
                    CopyStep::Finish(self.written() as u64)
                } else if n <= BUFSIZ {
                    CopyStep::Write(n)
                } else {
                    CopyStep::Fail
                },
                ReadOutcome::Again => CopyStep::Retry,
                ReadOutcome::Failed => CopyStep::Fail,
            },
    {
        match outcome {
            ReadOutcome::Read(n) => if n == 0 {
                CopyStep::Finish(self.written)
            } else if n <= BUFSIZ {
                CopyStep::Write(n)
            } else {
                CopyStep::Fail
            },
            ReadOutcome::Again => CopyStep::Retry,
            ReadOutcome::Failed => CopyStep::Fail,
        }
    }

    /// Counts `n` bytes as written. The count stops at the largest number
    /// that it can hold.
    pub fn wrote(&mut self, n: usize)
        ensures
            final(self).written() == if old(self).written() + n <= u64::MAX {
                old(self).written() + n
            } else {
                u64::MAX as int
            },
    {
        self.written = self.written.saturating_add(n as u64);
    }
}

} // verus!
