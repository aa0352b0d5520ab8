//! The positioned-read capability.

use std::sync::Arc;
use vstd::prelude::*;

verus! {

/// `std::io::Error`, carried through as it came.
#[verifier::external_type_specification]
#[verifier::external_body]
pub struct ExIoError(std::io::Error);

/// Whether a buffer that held `before` and holds `after` took `n` bytes read
/// at `offset` of `content`: the first `n` bytes of `after` are those of
/// `content` from `offset` on, and the read ended within `content`. At or
/// beyond the end of `content` there is nothing to read, so `n` is 0.
pub open spec fn is_pread(
    content: Seq<u8>,
    offset: u64,
    before: Seq<u8>,
    after: Seq<u8>,
    n: usize,
) -> bool {
    &&& after.len() == before.len()
    &&& n <= before.len()
    &&& offset + n <= u64::MAX
    &&& n > 0 ==> offset + n <= content.len()
    &&& forall|i: int| 0 <= i < n ==> after[i] == content[offset + i]
}

/// Trait offering a uniform `pread` for positioned reads.
///
/// A positioned read names its own offset and neither uses nor moves a
/// position that the source may keep. So any number of readers can share one
/// source.
///
/// An implementation stands for a source whose bytes stay as they are while
/// it is read: `content` names them, and `pread` answers by them. The readers
/// built on this trait promise of the bytes they return no more than the
/// source does.
pub trait PosRead {
    /// The bytes of the source, from its first. An implementation that does
    /// not say what they are stands for some one sequence of bytes, which
    /// only its reads make known.
    open spec fn content(&self) -> Seq<u8> {
        arbitrary::<spec_fn(&Self) -> Seq<u8>>()(self)
    }

    /// Read bytes, starting at the specified offset, into the specified
    /// buffer and return the number of bytes read. The offset is from the
    /// start of the underlying source. Reads beyond the end of available
    /// bytes will return 0 length.
    fn pread(&self, buf: &mut [u8], offset: u64) -> (res: Result<usize, std::io::Error>)
        ensures
            final(buf)@.len() == old(buf)@.len(),
            res matches Ok(n) ==> is_pread(self.content(), offset, old(buf)@, final(buf)@, n),
    ;
}

impl<'a, P: PosRead> PosRead for &'a P {
    open spec fn content(&self) -> Seq<u8> {
        (**self).content()
    }

    /// The read of the source behind a shared reference: it gets the buffer and the
    /// offset as they are, and its answer is handed on.
    fn pread(&self, buf: &mut [u8], offset: u64) -> (res: Result<usize, std::io::Error>)
        ensures
            exists|handed: &mut [u8]|
                handed@ == old(buf)@ && final(handed)@ == final(buf)@ && #[trigger] call_ensures(
                    P::pread,
                    (&**self, handed, offset),
                    res,
                ),
    {
        (**self).pread(buf, offset)
    }
}

impl<P: PosRead> PosRead for Arc<P> {
    open spec fn content(&self) -> Seq<u8> {
        (**self).content()
    }

    /// The read of the source behind a shared handle: it gets the buffer and the
    /// offset as they are, and its answer is handed on.
    fn pread(&self, buf: &mut [u8], offset: u64) -> (res: Result<usize, std::io::Error>)
        ensures
            exists|handed: &mut [u8]|
                handed@ == old(buf)@ && final(handed)@ == final(buf)@ && #[trigger] call_ensures(
                    P::pread,
                    (&**self, handed, offset),
                    res,
                ),
    {
        (**self).pread(buf, offset)
    }
}

impl<P: PosRead> PosRead for Box<P> {
    open spec fn content(&self) -> Seq<u8> {
        (**self).content()
    }

    /// The read of the source behind a box: it gets the buffer and the
    /// offset as they are, and its answer is handed on.
    fn pread(&self, buf: &mut [u8], offset: u64) -> (res: Result<usize, std::io::Error>)
        ensures
            exists|handed: &mut [u8]|
                handed@ == old(buf)@ && final(handed)@ == final(buf)@ && #[trigger] call_ensures(
                    P::pread,
                    (&**self, handed, offset),
                    res,
                ),
    {
        (**self).pread(buf, offset)
    }
}

/// A byte vector is a source that holds its bytes in memory. A read never
/// fails, and takes as many bytes as the buffer and the vector allow.
impl PosRead for Vec<u8> {
    open spec fn content(&self) -> Seq<u8> {
        self@
    }

    fn pread(&self, buf: &mut [u8], offset: u64) -> (res: Result<usize, std::io::Error>)
        ensures
            res matches Ok(n) && n == if offset >= self@.len() {
                0
            } else if old(buf)@.len() <= self@.len() - offset {
                old(buf)@.len() as int
            } else {
                self@.len() - offset
            },
            forall|i: int|
                res.unwrap() <= i < old(buf)@.len() ==> final(buf)@[i] == old(buf)@[i],
    {
        let len: usize = self.len();
        if offset >= len as u64 {
            return Ok(0);
        }
        let from: usize = offset as usize;
        let left: usize = len - from;
        let n: usize = if buf.len() <= left {
            buf.len()
        } else {
            left
        };
        let mut i: usize = 0;
        while i < n
            invariant
                i <= n,
                n <= buf@.len(),
                from + n <= len,
                len == self@.len(),
                buf@.len() == old(buf)@.len(),
                forall|j: int| 0 <= j < i ==> buf@[j] == self@[from + j],
                forall|j: int| i <= j < buf@.len() ==> buf@[j] == old(buf)@[j],
            decreases n - i,
        {
            buf[i] = self[from + i];
            i += 1;
        }
        Ok(n)
    }
}

/// Two reads at one offset of one content give the same bytes, as far as
/// both went.
pub proof fn lemma_reads_agree(
    content: Seq<u8>,
    offset: u64,
    before1: Seq<u8>,
    after1: Seq<u8>,
    n1: usize,
    before2: Seq<u8>,
    after2: Seq<u8>,
    n2: usize,
)
    requires
        is_pread(content, offset, before1, after1, n1),
        is_pread(content, offset, before2, after2, n2),
    ensures
        forall|i: int| 0 <= i < n1 && i < n2 ==> after1[i] == after2[i],
{
}

} // verus!
