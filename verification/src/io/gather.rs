//! One continuous reader over several byte buffers.

use vstd::prelude::*;

verus! {

/// A buffer that can show its bytes. The buffers of a `GatheringReader` are of
/// such a type: byte vectors and byte slices are.
pub trait AsBytes {
    /// The bytes of the buffer.
    spec fn bytes(&self) -> Seq<u8>;

    /// The bytes of the buffer, as a slice.
    fn as_bytes(&self) -> (slice: &[u8])
        ensures
            slice@ == self.bytes(),
    ;
}

impl AsBytes for Vec<u8> {
    open spec fn bytes(&self) -> Seq<u8> {
        self@
    }

    fn as_bytes(&self) -> (slice: &[u8]) {
        self.as_slice()
    }
}

impl<'a> AsBytes for &'a [u8] {
    open spec fn bytes(&self) -> Seq<u8> {
        self@
    }

    fn as_bytes(&self) -> (slice: &[u8]) {
        *self
    }
}

/// `chunks` without the empty chunks at its front.
pub open spec fn strip_empty(chunks: Seq<Seq<u8>>) -> Seq<Seq<u8>>
    decreases chunks.len(),
{
    if chunks.len() == 0 {
        chunks
    } else if chunks[0].len() > 0 {
        chunks
    } else {
        strip_empty(chunks.skip(1))
    }
}

/// All bytes of `chunks`, one chunk after the other.
pub open spec fn gathered(chunks: Seq<Seq<u8>>) -> Seq<u8>
    decreases chunks.len(),
{
    if chunks.len() == 0 {
        Seq::empty()
    } else {
        chunks[0] + gathered(chunks.skip(1))
    }
}

/// How many bytes one read takes from the chunks `pending`, whose first is
/// not empty, into a buffer of `buf_len` bytes: what the buffer holds or what
/// the first chunk has, whichever is less. A read does not go on into the
/// next chunk.
pub open spec fn read_len(pending: Seq<Seq<u8>>, buf_len: nat) -> nat {
    if pending.len() == 0 {
        0
    } else if buf_len <= pending[0].len() {
        buf_len
    } else {
        pending[0].len()
    }
}

/// The chunks that are left of `pending` after a read into a buffer of
/// `buf_len` bytes.
pub open spec fn after_read(pending: Seq<Seq<u8>>, buf_len: nat) -> Seq<Seq<u8>> {
    if pending.len() == 0 || buf_len == 0 {
        pending
    } else {
        strip_empty(
            seq![pending[0].skip(read_len(pending, buf_len) as int)] + pending.skip(1),
        )
    }
}

/// A specialized reader presenting a continuous (gathered) read interface
/// over N non-contiguous byte buffers.
pub struct GatheringReader<'a, T: AsBytes> {
    buffers: &'a [T],
    index: usize,
    offset: usize,
}

impl<'a, T: AsBytes> GatheringReader<'a, T> {
    #[verifier::type_invariant]
    closed spec fn within(&self) -> bool {
        if self.buffers@.len() == 0 {
            self.index == 0 && self.offset == 0
        } else {
            &&& self.index < self.buffers@.len()
            &&& self.offset <= self.buffers@[self.index as int].bytes().len()
        }
    }

    /// What is left of the buffer being read, and the buffers after it.
    closed spec fn chunks(&self) -> Seq<Seq<u8>> {
        if self.buffers@.len() == 0 {
            Seq::empty()
        } else {
            Seq::new(
                (self.buffers@.len() - self.index) as nat,
                |i: int|
                    if i == 0 {
                        self.buffers@[self.index as int].bytes().skip(self.offset as int)
                    } else {
                        self.buffers@[self.index + i].bytes()
                    },
            )
        }
    }

    /// The chunks of bytes that are still to be read, in order, starting
    /// with one that is not empty.
    pub closed spec fn pending(&self) -> Seq<Seq<u8>> {
        strip_empty(self.chunks())
    }

    /// New instance over `buffers`, to be read from the first.
    pub fn new(buffers: &'a [T]) -> (reader: GatheringReader<'a, T>)
        ensures
            reader.pending() == strip_empty(buffers@.map_values(|b: T| b.bytes())),
            strip_empty(reader.pending()) == reader.pending(),
    {
        let reader = GatheringReader { buffers, index: 0, offset: 0 };
        proof {
            assert(reader.chunks() =~~= buffers@.map_values(|b: T| b.bytes()));
            lemma_strip_keeps_bytes(reader.chunks());
        }
        reader
    }

    /// Go on to the next buffer, if there is one.
    fn pop(&mut self) -> (more: bool)
        requires
            old(self).chunks().len() > 0 ==> old(self).chunks()[0].len() == 0,
        ensures
            final(self).buffers@ == old(self).buffers@,
            final(self).pending() == old(self).pending(),
            more ==> final(self).chunks().len() == old(self).chunks().len() - 1,
            !more ==> final(self).pending().len() == 0,
    {
        proof {
            use_type_invariant(&*self);
        }
        if self.buffers.len() > 0 && self.index + 1 < self.buffers.len() {
            proof {
                let before = self.chunks();
                let after = Seq::new(
                    (self.buffers@.len() - self.index - 1) as nat,
                    |i: int| self.buffers@[self.index + 1 + i].bytes(),
                );
                assert(before.skip(1) =~= after);
            }
            *self = GatheringReader { buffers: self.buffers, index: self.index + 1, offset: 0 };
            proof {
                let after = Seq::new(
                    (self.buffers@.len() - self.index) as nat,
                    |i: int| self.buffers@[self.index + i].bytes(),
                );
                assert(self.chunks() =~~= after);
            }
            true
        } else {
            proof {
                if self.chunks().len() > 0 {
                    assert(self.chunks().len() == 1);
                    assert(self.chunks().skip(1).len() == 0);
                    assert(strip_empty(self.chunks().skip(1)).len() == 0);
                }
            }
            false
        }
    }

    /// Read from the first chunk that is not empty, as much as the buffer
    /// holds or the chunk has. Returns the number of bytes read: 0 only for
    /// an empty buffer or where nothing is left to read. Never fails.
    pub fn read(&mut self, buf: &mut [u8]) -> (res: Result<usize, std::io::Error>)
        ensures
            res matches Ok(n) && n == (if old(buf)@.len() == 0 {
                0
            } else {
                read_len(old(self).pending(), old(buf)@.len())
            }),
            final(self).pending() == after_read(old(self).pending(), old(buf)@.len()),
            final(buf)@.len() == old(buf)@.len(),
            forall|i: int|
                0 <= i < res.unwrap() ==> final(buf)@[i] == old(self).pending()[0][i],
            forall|i: int| res.unwrap() <= i < old(buf)@.len() ==> final(buf)@[i] == old(buf)@[i],
    {
        if buf.len() == 0 {
            return Ok(0);
        }
        loop
            invariant
                buf@.len() == old(buf)@.len(),
                buf@ == old(buf)@,
                buf@.len() > 0,
                self.pending() == old(self).pending(),
                self.buffers@ == old(self).buffers@,
            decreases self.chunks().len(),
        {
            proof {
                use_type_invariant(&*self);
            }
            if self.buffers.len() == 0 {
                return Ok(0);
            }
            let current: &[u8] = self.buffers[self.index].as_bytes();
            let left: usize = current.len() - self.offset;
            if left > 0 {
                let n: usize = if buf.len() <= left {
                    buf.len()
                } else {
                    left
                };
                let from: usize = self.offset;
                let ghost chunk = self.chunks()[0];
                proof {
                    assert(chunk.len() == left);
                    assert(self.pending() == self.chunks());
                }
                let mut i: usize = 0;
                while i < n
                    invariant
                        i <= n,
                        n <= buf@.len(),
                        from + n <= current@.len(),
                        from + n <= usize::MAX,
                        buf@.len() == old(buf)@.len(),
                        forall|j: int| 0 <= j < i ==> buf@[j] == current@[from + j],
                        forall|j: int| i <= j < buf@.len() ==> buf@[j] == old(buf)@[j],
                    decreases n - i,
                {
                    buf[i] = current[from + i];
                    i += 1;
                }
                let ghost before = self.chunks();
                self.offset = from + n;
                proof {
                    assert(self.chunks() =~~= seq![chunk.skip(n as int)] + before.skip(1));
                    assert(forall|j: int| 0 <= j < n ==> chunk[j] == current@[from + j]);
                }
                return Ok(n);
            }
            let more: bool = self.pop();
            if !more {
                return Ok(0);
            }
        }
    }
}

/// The empty chunks at the front hold no bytes: without them the same bytes
/// are gathered. What is left starts with a chunk that is not empty, so that
/// nothing more is stripped from it.
pub proof fn lemma_strip_keeps_bytes(chunks: Seq<Seq<u8>>)
    ensures
        gathered(strip_empty(chunks)) == gathered(chunks),
        strip_empty(strip_empty(chunks)) == strip_empty(chunks),
        strip_empty(chunks).len() > 0 ==> strip_empty(chunks)[0].len() > 0,
        strip_empty(chunks).len() == 0 ==> gathered(chunks).len() == 0,
    decreases chunks.len(),
{
    if chunks.len() > 0 && chunks[0].len() == 0 {
        lemma_strip_keeps_bytes(chunks.skip(1));
        assert(chunks[0] + gathered(chunks.skip(1)) =~= gathered(chunks.skip(1)));
    }
}

/// The reads of a `GatheringReader` are those of one continuous stream, the
/// bytes of all chunks in order: a read takes the next bytes of the stream,
/// and leaves the stream without them. It takes none only for an empty
/// buffer or at the end of the stream.
pub proof fn lemma_read_is_continuous(pending: Seq<Seq<u8>>, buf_len: nat)
    requires
        strip_empty(pending) == pending,
    ensures
        ({
            let n = if buf_len == 0 {
                0
            } else {
                read_len(pending, buf_len)
            };
            &&& n <= gathered(pending).len()
            &&& gathered(after_read(pending, buf_len)) == gathered(pending).skip(n as int)
            &&& n > 0 ==> pending[0].take(n as int) == gathered(pending).take(n as int)
            &&& n == 0 ==> buf_len == 0 || gathered(pending).len() == 0
            &&& strip_empty(after_read(pending, buf_len)) == after_read(pending, buf_len)
        }),
{
    lemma_strip_keeps_bytes(pending);
    if pending.len() > 0 && buf_len > 0 {
        let n = read_len(pending, buf_len);
        let rest = seq![pending[0].skip(n as int)] + pending.skip(1);
        lemma_strip_keeps_bytes(rest);
        assert(rest.skip(1) =~= pending.skip(1));
        assert(gathered(rest) =~= gathered(pending).skip(n as int));
        assert(pending[0].take(n as int) =~= gathered(pending).take(n as int));
    } else {
        assert(gathered(pending).skip(0) =~= gathered(pending));
    }
}

} // verus!
