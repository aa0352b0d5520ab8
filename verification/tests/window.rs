use std::io;
use std::sync::Arc;

use olio::fs::seek::offset_from;
use olio::fs::SeekError::{Negative, Overflow};
use olio::fs::SeekFrom::{Current, End, Start};
use olio::fs::{PosRead, ReadPos, ReadSlice, ReadSubSlice};

/// A source that fails every read.
struct Broken;

impl PosRead for Broken {
    fn pread(&self, _buf: &mut [u8], _offset: u64) -> io::Result<usize> {
        Err(io::Error::new(io::ErrorKind::BrokenPipe, "no source"))
    }
}

/// A source that gives one byte at a time.
struct Slow(Vec<u8>);

impl PosRead for Slow {
    fn pread(&self, buf: &mut [u8], offset: u64) -> io::Result<usize> {
        if buf.is_empty() {
            Ok(0)
        } else {
            self.0.pread(&mut buf[..1], offset)
        }
    }
}

fn digits() -> Vec<u8> {
    b"012345678901".to_vec()
}

#[test]
fn offset_from_checks_both_ends() {
    assert_eq!(offset_from(10, 0), Ok(10));
    assert_eq!(offset_from(10, 5), Ok(15));
    assert_eq!(offset_from(10, -10), Ok(0));
    assert_eq!(offset_from(10, -11), Err(Negative));
    assert_eq!(offset_from(0, i64::MIN), Err(Negative));
    assert_eq!(offset_from(1 << 63, i64::MIN), Ok(0));
    assert_eq!(offset_from(u64::MAX, i64::MIN), Ok((1 << 63) - 1));
    assert_eq!(offset_from(u64::MAX, 0), Ok(u64::MAX));
    assert_eq!(offset_from(u64::MAX, 1), Err(Overflow));
    assert_eq!(offset_from(u64::MAX - 5, 5), Ok(u64::MAX));
    assert_eq!(offset_from(u64::MAX - 5, i64::MAX), Err(Overflow));
    assert_eq!(offset_from(0, i64::MAX), Ok((1 << 63) - 1));
}

#[test]
fn a_vector_reads_what_it_holds() {
    let v = b"1234567890".to_vec();
    let mut buf = [0u8; 4];
    assert_eq!(v.pread(&mut buf, 0).unwrap(), 4);
    assert_eq!(&buf, b"1234");
    assert_eq!(v.pread(&mut buf, 8).unwrap(), 2);
    assert_eq!(&buf, b"9034");
    assert_eq!(v.pread(&mut buf, 10).unwrap(), 0);
    assert_eq!(v.pread(&mut buf, u64::MAX).unwrap(), 0);
    assert_eq!(&buf, b"9034");
    assert_eq!(v.pread(&mut buf[..0], 3).unwrap(), 0);

    let shared = Arc::new(v);
    assert_eq!(shared.pread(&mut buf, 5).unwrap(), 4);
    assert_eq!(&buf, b"6789");
    assert_eq!((&shared).pread(&mut buf, 6).unwrap(), 4);
    assert_eq!(&buf, b"7890");
    let boxed = Box::new(b"ab".to_vec());
    assert_eq!(boxed.pread(&mut buf, 1).unwrap(), 1);
    assert_eq!(&buf, b"b890");
}

#[test]
fn a_new_slice_is_at_its_start() {
    for &(start, end) in &[(0u64, 0u64), (0, 10), (1, 12), (7, 7), (5, u64::MAX), (u64::MAX, u64::MAX)] {
        let r = ReadSlice::new(digits(), start, end);
        assert_eq!(r.tell(), 0);
        assert_eq!(r.len(), end - start);
        assert_eq!(r.is_empty(), start == end);
        assert_eq!(r.start(), start);
        assert_eq!(r.end(), end);
    }
    let r = ReadPos::new(digits(), 12);
    assert_eq!(r.tell(), 0);
    assert_eq!(r.len(), 12);
    assert!(!r.is_empty());
    assert!(ReadPos::new(digits(), 0).is_empty());
    assert_eq!(r.get_ref(), &digits());
}

#[test]
fn reads_of_the_whole_slice_end_at_its_end() {
    let mut r = ReadSlice::new(Slow(digits()), 2, 9);
    let mut buf = [0u8; 3];
    let mut all = Vec::new();
    let mut total = 0u64;
    while total < r.len() {
        let n = r.read(&mut buf).unwrap();
        assert_eq!(n, 1);
        all.extend_from_slice(&buf[..n]);
        total += n as u64;
        assert_eq!(r.tell(), total);
    }
    assert_eq!(total, 7);
    assert_eq!(all, b"2345678");
    assert_eq!(r.tell(), r.len());
    assert_eq!(r.read(&mut buf).unwrap(), 0);
    assert_eq!(r.read(&mut buf).unwrap(), 0);
    assert_eq!(r.tell(), 7);

    let mut r = ReadSlice::new(digits(), 2, 9);
    let mut buf = [0u8; 5];
    assert_eq!(r.read(&mut buf).unwrap(), 5);
    assert_eq!(&buf, b"23456");
    assert_eq!(r.read(&mut buf).unwrap(), 2);
    assert_eq!(&buf, b"78456");
    assert_eq!(r.read(&mut buf).unwrap(), 0);
    assert_eq!(&buf, b"78456");
}

#[test]
fn a_read_never_goes_beyond_the_end_of_the_slice() {
    let mut r = ReadSlice::new(digits(), 3, 5);
    let mut buf = [b'-'; 6];
    assert_eq!(r.read(&mut buf).unwrap(), 2);
    assert_eq!(&buf, b"34----");

    // Nor beyond the end of the source, where the slice is longer.
    let mut r = ReadSlice::new(digits(), 10, 20);
    let mut buf = [b'-'; 6];
    assert_eq!(r.len(), 10);
    assert_eq!(r.read(&mut buf).unwrap(), 2);
    assert_eq!(&buf, b"01----");
    assert_eq!(r.read(&mut buf).unwrap(), 0);
    assert_eq!(r.tell(), 2);

    // An empty slice, and a position beyond the end.
    let mut r = ReadSlice::new(digits(), 4, 4);
    assert_eq!(r.read(&mut buf).unwrap(), 0);
    let mut r = ReadSlice::new(digits(), 0, 4);
    assert_eq!(r.seek(Start(9)), Ok(9));
    assert_eq!(r.read(&mut buf).unwrap(), 0);
    assert_eq!(r.tell(), 9);
    assert_eq!(&buf, b"01----");
}

#[test]
fn seeking_back_to_a_position_reads_the_same_bytes() {
    let mut r = ReadSlice::new(digits(), 1, 11);
    let mut first = [0u8; 4];
    let mut again = [0u8; 4];
    for step in 0..10u64 {
        assert_eq!(r.seek(Start(step)), Ok(step));
        let at = r.tell();
        let n = r.read(&mut first).unwrap();
        assert_eq!(r.tell(), at + n as u64);

        assert_eq!(r.seek(End(0)), Ok(10));
        assert_eq!(r.seek(Start(at)), Ok(at));
        assert_eq!(r.tell(), at);
        let m = r.read(&mut again).unwrap();
        assert_eq!(n, m);
        assert_eq!(&first[..n], &again[..m]);
    }

    let mut r = ReadPos::new(digits(), 12);
    assert_eq!(r.seek(Current(3)), Ok(3));
    let at = r.tell();
    assert_eq!(r.read(&mut first).unwrap(), 4);
    assert_eq!(&first, b"3456");
    assert_eq!(r.seek(Start(at)), Ok(3));
    assert_eq!(r.read(&mut again).unwrap(), 4);
    assert_eq!(&again, b"3456");
}

#[test]
fn a_subslice_is_the_slice_of_the_same_range() {
    let source = Arc::new(digits());
    let parent = ReadSlice::new(source.clone(), 1, 12);
    let mut sub = parent.subslice(0, 10);
    let mut own = ReadSlice::new(source.clone(), 1, 11);
    assert_eq!(sub.start(), own.start());
    assert_eq!(sub.end(), own.end());
    assert_eq!(sub.len(), 10);

    let mut a = [0u8; 3];
    let mut b = [0u8; 3];
    for from in [Current(0), Current(1), End(-5), Start(9), Current(-20), Start(12), End(1), Current(-3)] {
        assert_eq!(sub.seek(from), own.seek(from));
        assert_eq!(sub.tell(), own.tell());
        let n = sub.read(&mut a).unwrap();
        let m = own.read(&mut b).unwrap();
        assert_eq!(n, m);
        assert_eq!(&a[..n], &b[..m]);
        assert_eq!(sub.tell(), own.tell());
    }

    let mut inner = parent.subslice(2, 5);
    assert_eq!(inner.start(), 3);
    assert_eq!(inner.end(), 6);
    assert_eq!(inner.tell(), 0);
    let mut buf = [b'-'; 5];
    assert_eq!(inner.read(&mut buf).unwrap(), 3);
    assert_eq!(&buf, b"345--");

    // The whole of the parent, and an empty range at its end.
    assert_eq!(parent.subslice(0, 11).len(), 11);
    assert_eq!(parent.subslice(11, 11).start(), 12);

    // A subslice starts at its start, wherever the parent stands.
    let mut parent = parent;
    assert_eq!(parent.seek(Start(7)), Ok(7));
    assert_eq!(parent.subslice(1, 2).tell(), 0);
    assert_eq!(parent.tell(), 7);
}

#[test]
fn a_subslice_of_a_read_pos_is_not_held_to_its_length() {
    let r = ReadPos::new(Arc::new(digits()), 4);
    let mut s = r.subslice(2, 30);
    assert_eq!(s.len(), 28);
    let mut buf = [0u8; 16];
    assert_eq!(s.read(&mut buf).unwrap(), 10);
    assert_eq!(&buf[..10], b"2345678901");
}

#[test]
fn a_clone_starts_over() {
    let mut r = ReadSlice::new(Arc::new(digits()), 2, 8);
    assert_eq!(r.seek(Start(4)), Ok(4));
    let mut c = r.clone();
    assert_eq!(c.tell(), 0);
    assert_eq!(c.start(), 2);
    assert_eq!(c.end(), 8);
    assert_eq!(r.tell(), 4);
    let mut buf = [0u8; 2];
    assert_eq!(c.read(&mut buf).unwrap(), 2);
    assert_eq!(&buf, b"23");
    assert_eq!(r.read(&mut buf).unwrap(), 2);
    assert_eq!(&buf, b"67");

    let mut r = ReadPos::new(Arc::new(digits()), 12);
    assert_eq!(r.seek(End(-1)), Ok(11));
    let c = r.clone();
    assert_eq!(c.tell(), 0);
    assert_eq!(c.len(), 12);
    assert_eq!(r.tell(), 11);
}

#[test]
fn a_slice_refuses_to_seek_before_its_start() {
    let mut r = ReadSlice::new(digits(), 4, 10);
    assert_eq!(r.seek(Current(-1)), Err(Negative));
    assert_eq!(r.seek(End(-7)), Err(Negative));
    assert_eq!(r.seek(End(-6)), Ok(0));
    assert_eq!(r.seek(End(i64::MIN)), Err(Negative));
    assert_eq!(r.seek(Start(3)), Ok(3));
    // Absolute position 3 is not negative, but it is before the slice.
    assert_eq!(r.seek(Current(-4)), Err(Negative));
    assert_eq!(r.tell(), 3);
    assert_eq!(r.seek_to(3), Err(Negative));
    assert_eq!(r.seek_to(4), Ok(0));
    assert_eq!(r.seek_from(10, -7), Err(Negative));
    assert_eq!(r.seek_from(3, -7), Err(Negative));
    assert_eq!(r.seek_from(10, -1), Ok(5));
    assert_eq!(r.tell(), 5);
}

#[test]
fn a_slice_refuses_to_seek_beyond_u64() {
    let mut r = ReadSlice::new(digits(), 4, 10);
    assert_eq!(r.seek(Start(u64::MAX)), Err(Overflow));
    assert_eq!(r.seek(Start(u64::MAX - 3)), Err(Overflow));
    assert_eq!(r.tell(), 0);
    assert_eq!(r.seek(Start(u64::MAX - 4)), Ok(u64::MAX - 4));
    assert_eq!(r.seek(Current(1)), Err(Overflow));
    assert_eq!(r.seek(Current(i64::MAX)), Err(Overflow));
    assert_eq!(r.tell(), u64::MAX - 4);
    assert_eq!(r.seek(Current(0)), Ok(u64::MAX - 4));
    let mut buf = [0u8; 2];
    assert_eq!(r.read(&mut buf).unwrap(), 0);
    assert_eq!(r.seek(End(i64::MAX)), Ok(6 + i64::MAX as u64));

    let mut r = ReadSlice::new(digits(), u64::MAX - 1, u64::MAX);
    assert_eq!(r.seek(End(0)), Ok(1));
    assert_eq!(r.seek(End(1)), Err(Overflow));
    assert_eq!(r.seek(Start(2)), Err(Overflow));
    assert_eq!(r.tell(), 1);
}

#[test]
fn a_read_pos_seeks_anywhere_in_u64() {
    let mut r = ReadPos::new(digits(), 12);
    assert_eq!(r.seek(Current(-1)), Err(Negative));
    assert_eq!(r.seek(End(-13)), Err(Negative));
    assert_eq!(r.seek(End(i64::MIN)), Err(Negative));
    assert_eq!(r.tell(), 0);
    assert_eq!(r.seek(End(-12)), Ok(0));
    assert_eq!(r.seek(End(5)), Ok(17));
    let mut buf = [0u8; 2];
    assert_eq!(r.read(&mut buf).unwrap(), 0);
    assert_eq!(r.seek(Start(u64::MAX)), Ok(u64::MAX));
    assert_eq!(r.seek(Current(1)), Err(Overflow));
    assert_eq!(r.tell(), u64::MAX);
    assert_eq!(r.seek(Current(i64::MIN)), Ok((1 << 63) - 1));
    assert_eq!(r.seek_from(5, -6), Err(Negative));
    assert_eq!(r.seek_from(5, -5), Ok(0));
    assert_eq!(r.seek_from(u64::MAX, 1), Err(Overflow));
    assert_eq!(r.tell(), 0);
}

#[test]
fn the_length_of_a_read_pos_does_not_limit_reads() {
    let mut r = ReadPos::new(digits(), 5);
    assert_eq!(r.seek(End(0)), Ok(5));
    let mut buf = [0u8; 4];
    assert_eq!(r.read(&mut buf).unwrap(), 4);
    assert_eq!(&buf, b"5678");
    assert_eq!(r.tell(), 9);
    assert_eq!(r.pread(&mut buf, 1).unwrap(), 4);
    assert_eq!(&buf, b"1234");
    assert_eq!(r.tell(), 9);
}

#[test]
fn a_slice_is_a_source_of_its_own_bytes() {
    let mut r = ReadSlice::new(digits(), 2, 7);
    let mut buf = [b'-'; 4];
    assert_eq!(r.pread(&mut buf, 0).unwrap(), 4);
    assert_eq!(&buf, b"2345");
    assert_eq!(r.pread(&mut buf, 3).unwrap(), 2);
    assert_eq!(&buf, b"5645");
    assert_eq!(r.pread(&mut buf, 5).unwrap(), 0);
    assert_eq!(r.pread(&mut buf, 6).unwrap(), 0);
    assert_eq!(r.pread(&mut buf, u64::MAX).unwrap(), 0);
    assert_eq!(r.tell(), 0);
    assert_eq!(r.pread_abs(&mut buf, 6).unwrap(), 1);
    assert_eq!(&buf, b"6645");
    assert_eq!(r.pread_abs(&mut buf, 7).unwrap(), 0);
    assert_eq!(r.seek(Start(1)), Ok(1));
    assert_eq!(r.tell(), 1);

    // A slice of a slice.
    let mut nested = ReadSlice::new(ReadSlice::new(digits(), 2, 7), 1, 9);
    let mut buf = [b'-'; 8];
    assert_eq!(nested.read(&mut buf).unwrap(), 4);
    assert_eq!(&buf, b"3456----");
}

#[test]
fn an_error_of_the_source_leaves_the_position() {
    let mut r = ReadSlice::new(Broken, 0, 10);
    let mut buf = [0u8; 4];
    assert_eq!(r.seek(Start(3)), Ok(3));
    let e = r.read(&mut buf).unwrap_err();
    assert_eq!(e.kind(), io::ErrorKind::BrokenPipe);
    assert_eq!(r.tell(), 3);
    // At the end the source is not asked.
    assert_eq!(r.seek(End(0)), Ok(10));
    assert_eq!(r.read(&mut buf).unwrap(), 0);
    assert_eq!(r.pread(&mut buf, 10).unwrap(), 0);
    assert!(r.pread(&mut buf, 9).is_err());

    let mut r = ReadPos::new(Broken, 10);
    assert_eq!(r.seek(Start(3)), Ok(3));
    let e = r.read(&mut buf).unwrap_err();
    assert_eq!(e.kind(), io::ErrorKind::BrokenPipe);
    assert_eq!(r.tell(), 3);
}

#[test]
fn the_region_to_map_is_the_slice() {
    let r = ReadSlice::new(digits(), 3, 11);
    assert_eq!(r.mem_map_region(), (3, 8));
    let r = ReadSlice::new(digits(), 0, 1);
    assert_eq!(r.mem_map_region(), (0, 1));
}

#[test]
fn clip_is_the_lesser_of_buffer_and_slice() {
    let r = ReadSlice::new(digits(), 4, 10);
    assert_eq!(r.clip(3, 4), 3);
    assert_eq!(r.clip(6, 4), 6);
    assert_eq!(r.clip(7, 4), 6);
    assert_eq!(r.clip(7, 9), 1);
    assert_eq!(r.clip(7, 10), 0);
    assert_eq!(r.clip(7, 11), 0);
    assert_eq!(r.clip(0, 5), 0);
    assert_eq!(r.clip(usize::MAX, 0), 10);
    let r = ReadSlice::new(digits(), 0, u64::MAX);
    assert_eq!(r.clip(usize::MAX, 0), usize::MAX);
    assert_eq!(r.clip(9, u64::MAX - 2), 2);
}

#[test]
fn advance_follows_the_answer_of_the_source() {
    let mut r = ReadSlice::new(digits(), 4, 10);
    assert_eq!(r.advance(Ok(0)).unwrap(), 0);
    assert_eq!(r.tell(), 0);
    assert_eq!(r.advance(Ok(3)).unwrap(), 3);
    assert_eq!(r.tell(), 3);
    let e = r
        .advance(Err(io::Error::new(io::ErrorKind::TimedOut, "late")))
        .unwrap_err();
    assert_eq!(e.kind(), io::ErrorKind::TimedOut);
    assert_eq!(r.tell(), 3);

    let mut r = ReadPos::new(digits(), 12);
    assert_eq!(r.advance(Ok(5)).unwrap(), 5);
    assert_eq!(r.advance(Ok(2)).unwrap(), 2);
    assert_eq!(r.tell(), 7);
    let e = r
        .advance(Err(io::Error::new(io::ErrorKind::TimedOut, "late")))
        .unwrap_err();
    assert_eq!(e.kind(), io::ErrorKind::TimedOut);
    assert_eq!(r.tell(), 7);
}

#[test]
fn readers_of_one_source_keep_their_own_positions() {
    let rule = b"1234567890";
    let source = Arc::new(rule.to_vec());

    // All readers seek, then all readers read: none moves another.
    let mut readers = Vec::with_capacity(50);
    for i in 0..50 {
        let mut rpc = ReadPos::new(source.clone(), rule.len() as u64);
        let p = i % rule.len();
        assert_eq!(rpc.seek(Start(p as u64)), Ok(p as u64));
        readers.push((p, rpc));
    }
    for (p, rpc) in readers.iter_mut().rev() {
        let l = 5.min(rule.len() - *p);
        let mut buf = vec![0u8; l];
        assert_eq!(rpc.read(&mut buf).unwrap(), l);
        assert_eq!(&buf[..], &rule[*p..(*p + l)]);
    }
    for (p, rpc) in readers.iter() {
        let l = 5.min(rule.len() - *p);
        assert_eq!(rpc.tell(), (*p + l) as u64);
    }
}

/// A source that notes with what it was asked.
struct Noting {
    bytes: Vec<u8>,
    asked: std::cell::RefCell<Vec<(usize, u64)>>,
}

impl PosRead for Noting {
    fn pread(&self, buf: &mut [u8], offset: u64) -> io::Result<usize> {
        self.asked.borrow_mut().push((buf.len(), offset));
        self.bytes.pread(buf, offset)
    }
}

fn noting() -> Noting {
    Noting { bytes: digits(), asked: std::cell::RefCell::new(Vec::new()) }
}

#[test]
fn the_source_is_asked_for_no_more_than_the_slice_has() {
    let mut r = ReadSlice::new(noting(), 2, 9);
    let mut buf = [b'-'; 5];

    assert_eq!(r.read(&mut buf).unwrap(), 5);
    assert_eq!(r.read(&mut buf).unwrap(), 2);
    assert_eq!(&buf, b"78456");
    // At the end the source is not asked.
    assert_eq!(r.read(&mut buf).unwrap(), 0);
    assert_eq!(r.pread_abs(&mut buf, 9).unwrap(), 0);
    assert_eq!(r.pread(&mut buf, 7).unwrap(), 0);
    assert_eq!(*r.get_ref().asked.borrow(), vec![(5, 2), (2, 7)]);

    // Before the end it is, with what is left of the slice.
    assert_eq!(r.pread_abs(&mut buf, 8).unwrap(), 1);
    assert_eq!(r.pread_abs(&mut buf[..0], 3).unwrap(), 0);
    assert_eq!(r.pread(&mut buf, 4).unwrap(), 3);
    assert_eq!(r.pread(&mut buf[..2], 0).unwrap(), 2);
    assert_eq!(
        *r.get_ref().asked.borrow(),
        vec![(5, 2), (2, 7), (1, 8), (0, 3), (3, 6), (2, 2)]
    );
}

#[test]
fn a_read_pos_asks_the_source_with_the_whole_buffer() {
    let mut r = ReadPos::new(Arc::new(Box::new(noting())), 4);
    let mut buf = [b'-'; 5];

    assert_eq!(r.read(&mut buf).unwrap(), 5);
    assert_eq!(r.seek(Start(10)), Ok(10));
    assert_eq!(r.read(&mut buf).unwrap(), 2);
    assert_eq!(r.read(&mut buf).unwrap(), 0);
    assert_eq!(r.pread(&mut buf[..3], 1).unwrap(), 3);
    assert_eq!(&buf, b"12334");
    assert_eq!((&r).pread(&mut buf[..1], 40).unwrap(), 0);
    assert_eq!(
        *r.get_ref().asked.borrow(),
        vec![(5, 0), (5, 10), (5, 12), (3, 1), (1, 40)]
    );
}
