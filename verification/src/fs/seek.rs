//! Seek origins, seek errors, and the arithmetic that both readers share.

use vstd::prelude::*;

verus! {

/// The origin and offset of a seek.
#[derive(Clone, Copy, Debug, PartialEq, Eq, Structural)]
pub enum SeekFrom {
    /// An offset in bytes from the first byte of the reader.
    Start(u64),
    /// An offset in bytes from the end of the reader.
    End(i64),
    /// An offset in bytes from the current position.
    Current(i64),
}

/// Why a seek was refused. The reader stays where it was.
#[derive(Clone, Copy, Debug, PartialEq, Eq, Structural)]
pub enum SeekError {
    /// The position sought lies before the first byte of the reader.
    Negative,
    /// The position sought is beyond what a `u64` can hold.
    Overflow,
}

/// The fixed range of a reader and where it stands, as absolute offsets into
/// its source.
pub struct Window {
    /// Offset of the first byte of the reader.
    pub start: u64,
    /// Offset just beyond the last byte of the reader.
    pub end: u64,
    /// Offset of the next byte to read.
    pub pos: u64,
}

impl Window {
    /// The window `start..end` with the position at `start`.
    pub open spec fn fresh(start: u64, end: u64) -> Window {
        Window { start, end, pos: start }
    }

    /// The range is in order and the position is not before it.
    pub open spec fn wf(self) -> bool {
        self.start <= self.end && self.start <= self.pos
    }

    /// The size of the window in bytes.
    pub open spec fn len(self) -> int {
        self.end - self.start
    }

    /// The position, relative to the start of the window.
    pub open spec fn tell(self) -> int {
        self.pos - self.start
    }

    /// How many bytes lie between the position and the end of the window.
    pub open spec fn remaining(self) -> int {
        if self.pos < self.end {
            self.end - self.pos
        } else {
            0
        }
    }

    /// The same window with the position moved on by `n` bytes.
    pub open spec fn advance(self, n: int) -> Window {
        Window { pos: (self.pos + n) as u64, ..self }
    }

    /// The window after reads that took `counts[0]`, `counts[1]`, ... bytes,
    /// in that order.
    pub open spec fn after_reads(self, counts: Seq<nat>) -> Window
        decreases counts.len(),
    {
        if counts.len() == 0 {
            self
        } else {
            self.after_reads(counts.drop_last()).advance(counts.last() as int)
        }
    }

    /// The absolute offset that a seek asks for.
    pub open spec fn target(self, from: SeekFrom) -> int {
        match from {
            SeekFrom::Start(p) => self.start + p,
            SeekFrom::End(offset) => self.end + offset,
            SeekFrom::Current(offset) => self.pos + offset,
        }
    }

    /// The window after a seek to the absolute offset `target`, or why the
    /// seek is refused: a target before the start of the window is
    /// `Negative`, one beyond `u64` is `Overflow`. A target beyond the end of
    /// the window is accepted.
    pub open spec fn seek_to(self, target: int) -> Result<Window, SeekError> {
        if target < self.start {
            Err(SeekError::Negative)
        } else if target > u64::MAX {
            Err(SeekError::Overflow)
        } else {
            Ok(Window { pos: target as u64, ..self })
        }
    }

    /// The window after a seek, or why the seek is refused.
    pub open spec fn seek(self, from: SeekFrom) -> Result<Window, SeekError> {
        self.seek_to(self.target(from))
    }

    /// Whether a reader that stood at `self` has done a seek to the absolute
    /// offset `target`, stands at `after` and has returned `res`: where the
    /// seek is accepted the reader has moved and returned its new position,
    /// relative to the start of the window; where it is refused the reader
    /// has stayed and returned the reason.
    pub open spec fn sought(self, target: int, after: Window, res: Result<u64, SeekError>) -> bool {
        match self.seek_to(target) {
            Ok(w) => after == w && res == Ok::<u64, SeekError>(w.tell() as u64),
            Err(e) => after == self && res == Err::<u64, SeekError>(e),
        }
    }
}

/// `origin + offset`, or why it is no position.
pub open spec fn checked_offset(origin: u64, offset: i64) -> Result<u64, SeekError> {
    if origin + offset < 0 {
        Err(SeekError::Negative)
    } else if origin + offset > u64::MAX {
        Err(SeekError::Overflow)
    } else {
        Ok((origin + offset) as u64)
    }
}

/// Apply a signed offset to an origin, checking for underflow and overflow.
pub fn offset_from(origin: u64, offset: i64) -> (res: Result<u64, SeekError>)
    ensures
        res == checked_offset(origin, offset),
{
    if offset < 0 {
        let back: u64 = if offset == i64::MIN {
            0x8000_0000_0000_0000
        } else {
            (-offset) as u64
        };
        match origin.checked_sub(back) {
            Some(p) => Ok(p),
            None => Err(SeekError::Negative),
        }
    } else {
        match origin.checked_add(offset as u64) {
            Some(p) => Ok(p),
            None => Err(SeekError::Overflow),
        }
    }
}

/// The sum of `counts`.
pub open spec fn total(counts: Seq<nat>) -> nat
    decreases counts.len(),
{
    if counts.len() == 0 {
        0
    } else {
        total(counts.drop_last()) + counts.last()
    }
}

/// Reads that together take no more than what is left of a window move its
/// position on by their sum, and leave that much less to read.
pub proof fn lemma_reads_add_up(w: Window, counts: Seq<nat>)
    requires
        w.wf(),
        total(counts) <= w.remaining(),
    ensures
        w.after_reads(counts) == w.advance(total(counts) as int),
        w.after_reads(counts).tell() == w.tell() + total(counts),
        w.after_reads(counts).remaining() == w.remaining() - total(counts),
        w.after_reads(counts).wf(),
    decreases counts.len(),
{
    if counts.len() > 0 {
        lemma_reads_add_up(w, counts.drop_last());
    }
}

/// Reads from the start of a window that together take as many bytes as the
/// window is long end at its end: the position then equals the length, and
/// nothing is left, so that any further read takes 0 bytes.
pub proof fn lemma_reads_exhaust(w: Window, counts: Seq<nat>)
    requires
        w.wf(),
        w.tell() == 0,
        total(counts) == w.len(),
    ensures
        w.after_reads(counts).tell() == w.len(),
        w.after_reads(counts).remaining() == 0,
        w.after_reads(counts).pos == w.end,
{
    lemma_reads_add_up(w, counts);
}

/// Seeking to a position that `tell` gave earlier brings a reader back to
/// where it stood then, wherever it stands now.
pub proof fn lemma_seek_to_tell(now: Window, then: Window)
    requires
        now.wf(),
        then.wf(),
        now.start == then.start,
        now.end == then.end,
    ensures
        now.seek(SeekFrom::Start(then.tell() as u64)) == Ok::<Window, SeekError>(then),
{
}

/// A seek that is accepted keeps the range and leaves the window in order;
/// it returns the position that `tell` gives afterwards.
pub proof fn lemma_seek_keeps_range(w: Window, from: SeekFrom)
    requires
        w.wf(),
    ensures
        w.seek(from) matches Ok(after) ==> after.wf() && after.start == w.start && after.end
            == w.end && after.pos == w.target(from) && 0 <= after.tell() <= u64::MAX,
        w.seek(from) is Err <==> w.target(from) < w.start || w.target(from) > u64::MAX,
{
}

} // verus!
