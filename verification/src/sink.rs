//! What a sink accepts. Every range that a worker hands over is checked
//! before its bytes go to the file.

use crate::progress::ProgressEntry;
use vstd::prelude::*;

verus! {

/// Why a sink refuses a range.
#[derive(Clone, Copy, Debug, PartialEq, Eq, Structural)]
pub enum PushError {
    /// The range is empty or runs backwards.
    EmptyRange,
    /// There are not as many bytes as the range is long.
    LengthMismatch,
    /// The range does not begin where the last one ended.
    OutOfOrder,
    /// The range reaches beyond the end of the file.
    OutOfBounds,
}

/// The sink for a server that does not serve ranges: it appends, so each
/// range has to begin where the last one ended.
#[derive(Clone, Copy, Debug, PartialEq, Eq, Structural)]
pub struct SeqSink {
    /// Where the next range has to begin.
    pub cursor: u64,
}

/// The sink for a server that serves ranges: a file of a fixed size that
/// is written anywhere.
#[derive(Clone, Copy, Debug, PartialEq, Eq, Structural)]
pub struct RandSink {
    /// The size of the file.
    pub size: u64,
}

/// What stands against `len` bytes for `range`, whatever the sink.
pub open spec fn shape_error(range: ProgressEntry, len: usize) -> Option<PushError> {
    if range.start >= range.end {
        Some(PushError::EmptyRange)
    } else if range.end - range.start != len {
        Some(PushError::LengthMismatch)
    } else {
        None
    }
}

/// Whether `len` bytes can be the bytes of `range`.
pub fn check_shape(range: ProgressEntry, len: usize) -> (r: Result<(), PushError>)
    ensures
        match shape_error(range, len) {
            Some(e) => r == Err::<(), PushError>(e),
            None => r is Ok,
        },
{
    if range.start >= range.end {
        Err(PushError::EmptyRange)
    } else if (range.end - range.start) as u128 != len as u128 {
        Err(PushError::LengthMismatch)
    } else {
        Ok(())
    }
}

impl SeqSink {
    /// A sink that begins at the first byte.
    pub fn new() -> (s: Self)
        ensures
            s.cursor == 0,
    {
        SeqSink { cursor: 0 }
    }

    /// Begins again at the first byte: what was appended is void.
    pub fn restart(&mut self)
        ensures
            final(self).cursor == 0,
    {
        self.cursor = 0;
    }

    /// Takes `len` bytes for `range`: they are accepted if the range is
    /// not empty, is as long as there are bytes, and begins at the cursor;
    /// the cursor then moves to the end of the range. A refused range
    /// leaves the sink as it was.
    pub fn push(&mut self, range: ProgressEntry, len: usize) -> (r: Result<(), PushError>)
        ensures
            match shape_error(range, len) {
                Some(e) => r == Err::<(), PushError>(e) && *final(self) == *old(self),
                None => if range.start != old(self).cursor {
                    r == Err::<(), PushError>(PushError::OutOfOrder) && *final(self) == *old(self)
                } else {
                    r is Ok && final(self).cursor == range.end
                },
            },
    {
        match check_shape(range, len) {
            Err(e) => Err(e),
            Ok(()) => {
                if range.start != self.cursor {
                    Err(PushError::OutOfOrder)
                } else {
                    self.cursor = range.end;
                    Ok(())
                }
            },
        }
    }
}

impl RandSink {
    /// A sink for a file of `size` bytes.
    pub fn new(size: u64) -> (s: Self)
        ensures
            s.size == size,
    {
        RandSink { size }
    }

    /// Whether `len` bytes for `range` are accepted: they are if the range
    /// is not empty, is as long as there are bytes, and lies inside the
    /// file.
    pub fn push(&self, range: ProgressEntry, len: usize) -> (r: Result<(), PushError>)
        ensures
            match shape_error(range, len) {
                Some(e) => r == Err::<(), PushError>(e),
                None => if range.end > self.size {
                    r == Err::<(), PushError>(PushError::OutOfBounds)
                } else {
                    r is Ok
                },
            },
    {
        match check_shape(range, len) {
            Err(e) => Err(e),
            Ok(()) => {
                if range.end > self.size {
                    Err(PushError::OutOfBounds)
                } else {
                    Ok(())
                }
            },
        }
    }
}

} // verus!
