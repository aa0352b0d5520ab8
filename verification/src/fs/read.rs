//! Readers that keep a position of their own over a shared `PosRead`.

use crate::fs::pos_read::PosRead;
use crate::fs::seek::offset_from;
use crate::fs::seek::SeekError;
use crate::fs::seek::SeekFrom;
use crate::fs::seek::Window;
use vstd::prelude::*;

verus! {

/// Sequential reads and seeks over a `PosRead`, using _only_ positioned
/// reads, and by maintaining an instance independent position.
///
/// A fixed `length` is passed on construction and used solely to interpret
/// `SeekFrom::End`. Reads are not constrained by this length. The length is
/// neither checked against nor updated from the inner `PosRead` and could
/// deviate from it. Reads beyond the end of the inner `PosRead` will return 0
/// length. Seeking past the end is allowed.
#[derive(Debug)]
pub struct ReadPos<P: PosRead> {
    pos: u64,
    length: u64,
    pos_read: P,
}

/// Sequential reads and seeks over a `PosRead`, using _only_ positioned
/// reads, and by maintaining instance independent start, end, and position.
///
/// As compared with [`ReadPos`], `ReadSlice` adds a general start offset, and
/// limits access to the start..end range. Seeks are relative, so a seek to
/// `SeekFrom::Start(0)` is always the first byte of the slice.
///
/// Fixed `start` and `end` offsets are passed on construction and used to
/// constrain reads and interpret `SeekFrom::Start` and `SeekFrom::End`. These
/// offsets are neither checked against nor updated from the inner `PosRead`.
/// Reads beyond `end` or the end of the inner `PosRead` will return 0 length.
/// Seeking past the end is allowed.
#[derive(Debug)]
pub struct ReadSlice<P: PosRead> {
    start: u64,
    pos: u64,
    end: u64,
    pos_read: P,
}

/// Types that can be subsliced to a `ReadSlice`.
pub trait ReadSubSlice {
    type ReadSliceType;

    /// Whether `start..end` is a range that `subslice` accepts.
    spec fn admits(&self, start: u64, end: u64) -> bool;

    /// Return a new and independent `ReadSlice` for the range of byte offsets
    /// `start..end`.
    fn subslice(&self, start: u64, end: u64) -> (slice: Self::ReadSliceType)
        requires
            self.admits(start, end),
    ;
}

impl<P: PosRead> View for ReadPos<P> {
    type V = Window;

    /// The window `0..length` and the position.
    closed spec fn view(&self) -> Window {
        Window { start: 0, end: self.length, pos: self.pos }
    }
}

impl<P: PosRead> ReadPos<P> {
    /// The source that this reader reads.
    pub closed spec fn source(&self) -> P {
        self.pos_read
    }

    /// New instance for `PosRead` and fixed length. The initial position is
    /// the start (index 0).
    pub fn new(pos_read: P, length: u64) -> (reader: ReadPos<P>)
        ensures
            reader@ == Window::fresh(0, length),
            reader.source() == pos_read,
    {
        ReadPos { pos: 0, length, pos_read }
    }

    /// Return the length as provided on construction. This may differ from
    /// the inner `PosRead` length.
    pub fn len(&self) -> (len: u64)
        ensures
            len == self@.len(),
            self@.start == 0,
            self@.wf(),
    {
        self.length
    }

    /// Return `true` if length is 0.
    pub fn is_empty(&self) -> (empty: bool)
        ensures
            empty == (self@.len() == 0),
            self@.start == 0,
            self@.wf(),
    {
        self.length == 0
    }

    /// Return the current instance position. This is a convenience shorthand
    /// for `seek(SeekFrom::Current(0))`, is infallible, and does not require
    /// a mutable reference.
    pub fn tell(&self) -> (pos: u64)
        ensures
            pos == self@.tell(),
            self@.start == 0,
            self@.wf(),
    {
        self.pos
    }

    /// A reference to the source that this reader reads.
    pub fn get_ref(&self) -> (source: &P)
        ensures
            *source == self.source(),
    {
        &self.pos_read
    }

    /// Seek by signed offset from an origin, checking for underflow and
    /// overflow.
    pub fn seek_from(&mut self, origin: u64, offset: i64) -> (res: Result<u64, SeekError>)
        ensures
            final(self).source() == old(self).source(),
            old(self)@.sought(origin + offset, final(self)@, res),
    {
        match offset_from(origin, offset) {
            Ok(p) => {
                self.pos = p;
                Ok(p)
            },
            Err(e) => Err(e),
        }
    }

    /// Read from the source at the position of this reader, and move the
    /// position on by the number of bytes read. The length of this reader
    /// sets no limit: at or beyond the end of the source, 0 bytes are read.
    /// Where the source fails, its error is returned and the position stays.
    ///
    /// The source is asked once, with the whole buffer and the position of
    /// this reader, and what it answers is what is returned.
    pub fn read(&mut self, buf: &mut [u8]) -> (res: Result<usize, std::io::Error>)
        ensures
            final(self).source() == old(self).source(),
            final(buf)@.len() == old(buf)@.len(),
            exists|handed: &mut [u8]|
                handed@ == old(buf)@ && final(handed)@ == final(buf)@ && #[trigger] call_ensures(
                    P::pread,
                    (&old(self).source(), handed, old(self)@.pos),
                    res,
                ),
            match res {
                Ok(n) => {
                    &&& final(self)@ == old(self)@.advance(n as int)
                    &&& final(self)@.pos == old(self)@.pos + n
                    &&& crate::fs::pos_read::is_pread(
                        old(self).source().content(),
                        old(self)@.pos,
                        old(buf)@,
                        final(buf)@,
                        n,
                    )
                },
                Err(_) => final(self)@ == old(self)@,
            },
    {
        let answer = self.pos_read.pread(buf, self.pos);
        assert(old(self).source() == old(self).pos_read && old(self)@.pos == old(self).pos);
        self.advance(answer)
    }

    /// Take note of what the source answered to a read at the position of
    /// this reader: move the position on by the number of bytes read, or
    /// leave it where the source failed. The answer is handed on as it came.
    pub fn advance(&mut self, answer: Result<usize, std::io::Error>) -> (res: Result<
        usize,
        std::io::Error,
    >)
        requires
            answer matches Ok(n) ==> old(self)@.pos + n <= u64::MAX,
        ensures
            res == answer,
            final(self).source() == old(self).source(),
            match answer {
                Ok(n) => final(self)@ == old(self)@.advance(n as int),
                Err(_) => final(self)@ == old(self)@,
            },
    {
        match answer {
            Ok(len) => {
                self.pos += len as u64;
                Ok(len)
            },
            Err(e) => Err(e),
        }
    }

    /// Seek to an offset, in bytes. Returns the new position. A position
    /// beyond the length is accepted; one before the start or beyond `u64`
    /// is refused and leaves the reader where it was.
    pub fn seek(&mut self, from: SeekFrom) -> (res: Result<u64, SeekError>)
        ensures
            final(self).source() == old(self).source(),
            old(self)@.sought(old(self)@.target(from), final(self)@, res),
    {
        match from {
            SeekFrom::Start(p) => {
                self.pos = p;
                Ok(p)
            },
            SeekFrom::End(offset) => {
                let origin: u64 = self.length;
                self.seek_from(origin, offset)
            },
            SeekFrom::Current(offset) => {
                let origin: u64 = self.pos;
                self.seek_from(origin, offset)
            },
        }
    }
}

impl<P: PosRead + Clone> Clone for ReadPos<P> {
    /// Return a new, independent `ReadPos` by clone of the inner `PosRead`,
    /// with the same length as self, and at position 0.
    fn clone(&self) -> (reader: ReadPos<P>)
        ensures
            reader@ == Window::fresh(0, self@.end),
            cloned(self.source(), reader.source()),
    {
        ReadPos { pos: 0, length: self.length, pos_read: self.pos_read.clone() }
    }
}

impl<P: PosRead> PosRead for ReadPos<P> {
    open spec fn content(&self) -> Seq<u8> {
        self.source().content()
    }

    /// The read of the source: it gets the buffer and the offset as they
    /// are, and its answer is handed on. The position of this reader plays
    /// no part.
    fn pread(&self, buf: &mut [u8], offset: u64) -> (res: Result<usize, std::io::Error>)
        ensures
            exists|handed: &mut [u8]|
                handed@ == old(buf)@ && final(handed)@ == final(buf)@ && #[trigger] call_ensures(
                    P::pread,
                    (&self.source(), handed, offset),
                    res,
                ),
    {
        let res = self.pos_read.pread(buf, offset);
        assert(self.source() == self.pos_read);
        res
    }
}

/// The bytes that a reader over `start..end` of `content` can reach: those of
/// the range, as far as `content` has them.
pub open spec fn window_content(content: Seq<u8>, start: u64, end: u64) -> Seq<u8> {
    if start <= end && start < content.len() {
        content.subrange(
            start as int,
            if end <= content.len() {
                end as int
            } else {
                content.len() as int
            },
        )
    } else {
        Seq::empty()
    }
}

/// How much of a buffer of `buf_len` bytes a read at `abspos` may fill when
/// no byte at or beyond `end` is to be read.
pub open spec fn clipped(buf_len: nat, end: u64, abspos: u64) -> nat {
    if abspos >= end {
        0
    } else if buf_len <= end - abspos {
        buf_len
    } else {
        (end - abspos) as nat
    }
}

impl<P: PosRead> View for ReadSlice<P> {
    type V = Window;

    /// The window `start..end` and the position.
    closed spec fn view(&self) -> Window {
        Window { start: self.start, end: self.end, pos: self.pos }
    }
}

impl<P: PosRead> ReadSlice<P> {
    #[verifier::type_invariant]
    closed spec fn in_order(&self) -> bool {
        self.start <= self.end && self.start <= self.pos
    }

    /// The source that this reader reads.
    pub closed spec fn source(&self) -> P {
        self.pos_read
    }

    /// New instance by `PosRead`, fixed start and end offsets. The initial
    /// position is at the start (relative offset 0).
    pub fn new(pos_read: P, start: u64, end: u64) -> (reader: ReadSlice<P>)
        requires
            start <= end,
        ensures
            reader@ == Window::fresh(start, end),
            reader@.tell() == 0,
            reader@.len() == end - start,
            reader.source() == pos_read,
    {
        ReadSlice { start, pos: start, end, pos_read }
    }

    /// Return the total size of the slice in bytes. This is based on the
    /// start and end offsets as constructed and can differ from the inner
    /// `PosRead` length.
    pub fn len(&self) -> (len: u64)
        ensures
            len == self@.len(),
            self@.wf(),
    {
        proof {
            use_type_invariant(self);
        }
        self.end - self.start
    }

    /// Return `true` if length is 0.
    pub fn is_empty(&self) -> (empty: bool)
        ensures
            empty == (self@.len() == 0),
            self@.wf(),
    {
        self.len() == 0
    }

    /// Return the current instance position, relative to the slice. This is a
    /// convenience shorthand for `seek(SeekFrom::Current(0))`, is infallible,
    /// and does not require a mutable reference.
    pub fn tell(&self) -> (pos: u64)
        ensures
            pos == self@.tell(),
            self@.wf(),
    {
        proof {
            use_type_invariant(self);
        }
        self.pos - self.start
    }

    /// The offset in the source of the first byte of the slice.
    pub fn start(&self) -> (start: u64)
        ensures
            start == self@.start,
            self@.wf(),
    {
        proof {
            use_type_invariant(self);
        }
        self.start
    }

    /// The offset in the source just beyond the last byte of the slice.
    pub fn end(&self) -> (end: u64)
        ensures
            end == self@.end,
            self@.wf(),
    {
        proof {
            use_type_invariant(self);
        }
        self.end
    }

    /// A reference to the source that this reader reads.
    pub fn get_ref(&self) -> (source: &P)
        ensures
            *source == self.source(),
    {
        &self.pos_read
    }

    /// Like `PosRead::pread`, but using an absolute (internal) position
    /// instead of the external, relative offset. No byte at or beyond the end
    /// of the slice is read: the source gets no more of the buffer than the
    /// slice has bytes left from `abspos`, and is not asked at all where that
    /// is none.
    pub fn pread_abs(&self, buf: &mut [u8], abspos: u64) -> (res: Result<usize, std::io::Error>)
        ensures
            final(buf)@.len() == old(buf)@.len(),
            forall|i: int|
                clipped(old(buf)@.len(), self@.end, abspos) <= i < old(buf)@.len()
                    ==> final(buf)@[i] == old(buf)@[i],
            abspos >= self@.end ==> (res matches Ok(n) && n == 0),
            res matches Ok(n) ==> n <= clipped(old(buf)@.len(), self@.end, abspos)
                && crate::fs::pos_read::is_pread(
                self.source().content(),
                abspos,
                old(buf)@,
                final(buf)@,
                n,
            ),
            abspos < self@.end ==> exists|handed: &mut [u8]|
                {
                    let take = clipped(old(buf)@.len(), self@.end, abspos) as int;
                    &&& handed@ == old(buf)@.take(take)
                    &&& final(handed)@ == final(buf)@.take(take)
                    &&& #[trigger] call_ensures(P::pread, (&self.source(), handed, abspos), res)
                },
    {
        if abspos < self.end {
            let take: usize = self.clip(buf.len(), abspos);
            assert(self.source() == self.pos_read);
            if take == buf.len() {
                let res = self.pos_read.pread(buf, abspos);
                assert(old(buf)@.take(take as int) =~= old(buf)@);
                assert(buf@.take(take as int) =~= buf@);
                res
            } else {
                let (head, _) = buf.split_at_mut(take);
                let res = self.pos_read.pread(head, abspos);
                let ghost filled = head@;
                assert(buf@.take(take as int) =~= filled);
                res
            }
        } else {
            Ok(0)
        }
    }

    /// How much of a buffer of `buf_len` bytes a read at `abspos` may fill:
    /// all of it, or as many bytes as the slice has left from `abspos`, if
    /// that is less.
    pub fn clip(&self, buf_len: usize, abspos: u64) -> (take: usize)
        ensures
            take == clipped(buf_len as nat, self@.end, abspos),
    {
        if abspos < self.end {
            let mlen: u64 = self.end - abspos;  // positive/no-underflow per above
            if (buf_len as u64) <= mlen {
                buf_len
            } else {
                // safe cast: mlen < buf_len which is already usize
                mlen as usize
            }
        } else {
            0
        }
    }

    /// Take note of what the source answered to a read at the position of
    /// this reader: move the position on by the number of bytes read, or
    /// leave it where the source failed. The answer is handed on as it came.
    pub fn advance(&mut self, answer: Result<usize, std::io::Error>) -> (res: Result<
        usize,
        std::io::Error,
    >)
        requires
            answer matches Ok(n) ==> old(self)@.pos + n <= u64::MAX,
        ensures
            res == answer,
            final(self).source() == old(self).source(),
            match answer {
                Ok(n) => final(self)@ == old(self)@.advance(n as int),
                Err(_) => final(self)@ == old(self)@,
            },
    {
        proof {
            use_type_invariant(&*self);
        }
        match answer {
            Ok(len) => {
                self.pos += len as u64;
                Ok(len)
            },
            Err(e) => Err(e),
        }
    }

    /// Seek by signed offset from an (absolute) origin, checking for
    /// underflow and overflow.
    pub fn seek_from(&mut self, origin: u64, offset: i64) -> (res: Result<u64, SeekError>)
        ensures
            final(self).source() == old(self).source(),
            old(self)@.sought(origin + offset, final(self)@, res),
    {
        match offset_from(origin, offset) {
            Ok(p) => self.seek_to(p),
            Err(e) => Err(e),
        }
    }

    /// Seek by absolute position, validated with the start index. Return the
    /// new relative position, or an error if the absolute position is before
    /// start. Positions beyond end are allowed, and this is checked on reads.
    pub fn seek_to(&mut self, abspos: u64) -> (res: Result<u64, SeekError>)
        ensures
            final(self).source() == old(self).source(),
            old(self)@.sought(abspos as int, final(self)@, res),
    {
        proof {
            use_type_invariant(&*self);
        }
        if abspos < self.start {
            Err(SeekError::Negative)
        } else {
            self.pos = abspos;
            Ok(abspos - self.start)
        }
    }

    /// Read from the source at the position of this reader, and move the
    /// position on by the number of bytes read. No byte at or beyond the end
    /// of the slice is read: at or beyond the end, 0 bytes are read and the
    /// source is not asked. Where the source fails, its error is returned
    /// and the position stays.
    pub fn read(&mut self, buf: &mut [u8]) -> (res: Result<usize, std::io::Error>)
        ensures
            final(self).source() == old(self).source(),
            final(buf)@.len() == old(buf)@.len(),
            forall|i: int|
                clipped(old(buf)@.len(), old(self)@.end, old(self)@.pos) <= i < old(buf)@.len()
                    ==> final(buf)@[i] == old(buf)@[i],
            old(self)@.remaining() == 0 ==> (res matches Ok(n) && n == 0),
            old(self)@.remaining() > 0 ==> exists|handed: &mut [u8]|
                {
                    let take = clipped(old(buf)@.len(), old(self)@.end, old(self)@.pos) as int;
                    &&& handed@ == old(buf)@.take(take)
                    &&& final(handed)@ == final(buf)@.take(take)
                    &&& #[trigger] call_ensures(
                        P::pread,
                        (&old(self).source(), handed, old(self)@.pos),
                        res,
                    )
                },
            match res {
                Ok(n) => {
                    &&& final(self)@ == old(self)@.advance(n as int)
                    &&& final(self)@.pos == old(self)@.pos + n
                    &&& n <= old(self)@.remaining()
                    &&& crate::fs::pos_read::is_pread(
                        old(self).source().content(),
                        old(self)@.pos,
                        old(buf)@,
                        final(buf)@,
                        n,
                    )
                },
                Err(_) => final(self)@ == old(self)@,
            },
    {
        let answer = self.pread_abs(buf, self.pos);
        self.advance(answer)
    }

    /// Seek to an offset, in bytes, in the slice. Seeks are relative to the
    /// fixed start offset so a seek to `SeekFrom::Start(0)` is always the
    /// first byte of the slice. Returns the new position, relative to the
    /// slice. A position beyond the end is accepted; one before the start or
    /// beyond `u64` is refused and leaves the reader where it was.
    pub fn seek(&mut self, from: SeekFrom) -> (res: Result<u64, SeekError>)
        ensures
            final(self).source() == old(self).source(),
            old(self)@.sought(old(self)@.target(from), final(self)@, res),
    {
        proof {
            use_type_invariant(&*self);
        }
        match from {
            SeekFrom::Start(p) => {
                match self.start.checked_add(p) {
                    Some(p) => self.seek_to(p),
                    None => Err(SeekError::Overflow),
                }
            },
            SeekFrom::End(offset) => {
                let origin: u64 = self.end;
                self.seek_from(origin, offset)
            },
            SeekFrom::Current(offset) => {
                let origin: u64 = self.pos;
                self.seek_from(origin, offset)
            },
        }
    }

    /// The offset and the length by which the whole slice can be mapped into
    /// memory. There are none for an empty slice, nor where either number is
    /// beyond `usize`.
    pub fn mem_map_region(&self) -> (region: (usize, usize))
        requires
            self@.start <= usize::MAX,
            self@.len() <= usize::MAX,
            self@.len() > 0,
        ensures
            region.0 == self@.start,
            region.1 == self@.len(),
    {
        let offset: u64 = self.start;
        let len: u64 = self.len();
        (offset as usize, len as usize)
    }
}

impl<P: PosRead + Clone> Clone for ReadSlice<P> {
    /// Return a new, independent `ReadSlice` by clone of the inner `PosRead`,
    /// with the same start and end as self, and positioned at start.
    fn clone(&self) -> (reader: ReadSlice<P>)
        ensures
            reader@ == Window::fresh(self@.start, self@.end),
            cloned(self.source(), reader.source()),
    {
        proof {
            use_type_invariant(self);
        }
        ReadSlice {
            start: self.start,
            pos: self.start,
            end: self.end,
            pos_read: self.pos_read.clone(),
        }
    }
}

impl<P: PosRead> PosRead for ReadSlice<P> {
    /// The bytes of the slice, as far as the source has them.
    open spec fn content(&self) -> Seq<u8> {
        window_content(self.source().content(), self@.start, self@.end)
    }

    /// Read at `offset` from the start of the slice. No byte at or beyond
    /// the end of the slice is read: at or beyond the end, 0 bytes are read
    /// and the source is not asked.
    fn pread(&self, buf: &mut [u8], offset: u64) -> (res: Result<usize, std::io::Error>)
        ensures
            offset >= self@.len() ==> (res matches Ok(n) && n == 0),
            res matches Ok(n) ==> offset + n <= self@.len() || n == 0,
            res matches Ok(n) ==> crate::fs::pos_read::is_pread(
                self.source().content(),
                (self@.start + offset) as u64,
                old(buf)@,
                final(buf)@,
                n,
            ) || n == 0,
            forall|i: int|
                clipped(old(buf)@.len(), self@.len() as u64, offset) <= i < old(buf)@.len()
                    ==> final(buf)@[i] == old(buf)@[i],
            offset < self@.len() ==> exists|handed: &mut [u8]|
                {
                    let take = clipped(old(buf)@.len(), self@.len() as u64, offset) as int;
                    &&& handed@ == old(buf)@.take(take)
                    &&& final(handed)@ == final(buf)@.take(take)
                    &&& #[trigger] call_ensures(
                        P::pread,
                        (&self.source(), handed, (self@.start + offset) as u64),
                        res,
                    )
                },
    {
        proof {
            use_type_invariant(self);
        }
        let pos: u64 = self.start.saturating_add(offset);
        if pos < self.end {
            self.pread_abs(buf, pos)
        } else {
            Ok(0)
        }
    }
}

impl<P: PosRead + Clone> ReadSubSlice for ReadPos<P> {
    type ReadSliceType = ReadSlice<P>;

    /// Any range in order is accepted: `end` is not checked against the
    /// length of self.
    open spec fn admits(&self, start: u64, end: u64) -> bool {
        start <= end
    }

    /// Return a new and independent `ReadSlice` by clone of the inner
    /// `PosRead`, for the range of byte offsets `start..end`, and positioned
    /// at start.
    fn subslice(&self, start: u64, end: u64) -> (slice: ReadSlice<P>)
        ensures
            slice@ == Window::fresh(start, end),
            cloned(self.source(), slice.source()),
    {
        ReadSlice::new(self.pos_read.clone(), start, end)
    }
}

impl<P: PosRead + Clone> ReadSubSlice for ReadSlice<P> {
    type ReadSliceType = ReadSlice<P>;

    /// A range in order that lies within self, its offsets taken from the
    /// start of self.
    open spec fn admits(&self, start: u64, end: u64) -> bool {
        start <= end && self@.start + end <= self@.end
    }

    /// Return a new and independent `ReadSlice` by clone of the inner
    /// `PosRead`, for the range of byte offsets `start..end` which are
    /// relative to, and must be fully contained by self. The new slice is
    /// what `ReadSlice::new` makes of the same source and the same range in
    /// absolute offsets.
    fn subslice(&self, start: u64, end: u64) -> (slice: ReadSlice<P>)
        ensures
            slice@ == Window::fresh(
                (self@.start + start) as u64,
                (self@.start + end) as u64,
            ),
            cloned(self.source(), slice.source()),
    {
        proof {
            use_type_invariant(self);
        }
        let abs_start: u64 = self.start + start;
        let abs_end: u64 = self.start + end;
        ReadSlice::new(self.pos_read.clone(), abs_start, abs_end)
    }
}

/// The bytes that a slice within a slice can reach are those that a slice of
/// the same range of the source can reach: the range `sub_start..sub_end` of
/// the window `start..end` is the window `start + sub_start..start + sub_end`.
pub proof fn lemma_subslice_content(
    content: Seq<u8>,
    start: u64,
    end: u64,
    sub_start: u64,
    sub_end: u64,
)
    requires
        start <= end,
        sub_start <= sub_end,
        start + sub_end <= end,
    ensures
        window_content(window_content(content, start, end), sub_start, sub_end) == window_content(
            content,
            (start + sub_start) as u64,
            (start + sub_end) as u64,
        ),
{
    let outer = window_content(content, start, end);
    let nested = window_content(outer, sub_start, sub_end);
    let direct = window_content(content, (start + sub_start) as u64, (start + sub_end) as u64);
    assert(nested =~= direct);
}

} // verus!
