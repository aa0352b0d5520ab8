//! Handles to one shared memory region, each with an advice level of its own.

use crate::mem::advice::effective_change;
use crate::mem::advice::next_advisors;
use crate::mem::advice::MemAdvice;
use std::ops::Deref;
use std::sync::atomic::AtomicU64;
use std::sync::atomic::Ordering;
use std::sync::Arc;
use vstd::prelude::*;

verus! {

/// Possible error with the platform's advisory call.
#[derive(Debug)]
pub struct MemAdviseError {
    ecode: i32,
}

impl MemAdviseError {
    /// The return code of the platform call, as a plain number.
    pub closed spec fn code(&self) -> i32 {
        self.ecode
    }

    /// An error for the return code `ecode` of the platform call.
    pub fn new(ecode: i32) -> (error: MemAdviseError)
        ensures
            error.code() == ecode,
    {
        MemAdviseError { ecode }
    }

    /// The return code of the platform call.
    pub fn ecode(&self) -> (ecode: i32)
        ensures
            ecode == self.code(),
    {
        self.ecode
    }
}

/// The result of a change of request, from the effective advice after it and
/// the answer of the platform, which was asked to apply that advice: the
/// advice where the platform took it, else the error of the platform.
pub open spec fn relayed_as(effective: MemAdvice, answer: Result<(), MemAdviseError>) -> Result<
    MemAdvice,
    MemAdviseError,
> {
    match answer {
        Ok(_) => Ok(effective),
        Err(e) => Err(e),
    }
}

/// Whether `res` is the result of a change of request that came to `change`
/// (the effective advice, and whether the platform is to be told of it) with
/// `relay` to tell the platform: where the platform is to be told, `relay`
/// was called with the effective advice, gave `answer`, and `res` is what
/// `relayed_as` makes of it; where not, `res` is the effective advice.
pub open spec fn advised_with<F: FnOnce(MemAdvice) -> Result<(), MemAdviseError>>(
    relay: F,
    change: (MemAdvice, bool),
    answer: Result<(), MemAdviseError>,
    res: Result<MemAdvice, MemAdviseError>,
) -> bool {
    if change.1 {
        call_ensures(relay, (change.0,), answer) && res == relayed_as(change.0, answer)
    } else {
        res == Ok::<MemAdvice, MemAdviseError>(change.0)
    }
}

/// The result of a change of request, from the effective advice after it and
/// the answer of the platform, which was asked to apply that advice.
pub fn relayed(effective: MemAdvice, answer: Result<(), MemAdviseError>) -> (res: Result<
    MemAdvice,
    MemAdviseError,
>)
    ensures
        res == relayed_as(effective, answer),
{
    match answer {
        Ok(_) => Ok(effective),
        Err(e) => Err(e),
    }
}

/// The level that a handle has stored as `word`. A word that stands for no
/// level counts as the baseline: nothing was registered for it.
pub fn stored_level(word: u64) -> (level: MemAdvice)
    ensures
        level == match MemAdvice::of_field(word) {
            Some(l) => l,
            None => MemAdvice::Normal,
        },
    opens_invariants none
    no_unwind
{
    match MemAdvice::from_repr(word) {
        Some(level) => level,
        None => MemAdvice::Normal,
    }
}

/// RAM access advice where the platform has no such concept: a no-op that
/// succeeds.
pub fn advise<T: Deref<Target = [u8]>>(_mem: &T, _advice: MemAdvice) -> (res: Result<
    (),
    MemAdviseError,
>)
    ensures
        res is Ok,
{
    Ok(())
}

/// `AtomicU64::load`, with `Ordering::Acquire`. The value is whatever the
/// cell holds at that moment, so nothing is stated of it. Assumed here: with
/// this ordering the load does not panic.
#[verifier::external_body]
fn load_acquire(cell: &AtomicU64) -> (word: u64)
    opens_invariants none
    no_unwind
{
    cell.load(Ordering::Acquire)
}

/// `AtomicU64::fetch_update`, with `Ordering::SeqCst` to store and
/// `Ordering::Acquire` to load: the cell's word is replaced by what
/// `next_advisors` makes of it, in one atomic step that is tried again
/// whenever another thread changed the word in between. Returns the word that
/// was replaced. That word is whatever the cell held, so nothing is stated of
/// it. Assumed here: with these orderings the call does not panic.
#[verifier::external_body]
fn fetch_update_advisors(cell: &AtomicU64, prior: MemAdvice, advice: MemAdvice) -> (observed: u64)
    opens_invariants none
    no_unwind
{
    match cell.fetch_update(
        Ordering::SeqCst,
        Ordering::Acquire,
        |word| next_advisors(word, prior, advice),
    ) {
        Ok(word) => word,
        Err(word) => word,
    }
}

/// The shared state of all handles to one buffer.
#[derive(Debug)]
struct Mem<T: Deref<Target = [u8]>> {
    mem: T,
    advisors: AtomicU64,
}

impl<T: Deref<Target = [u8]>> Mem<T> {
    /// The buffer that all handles share.
    pub closed spec fn buffer(&self) -> T {
        self.mem
    }

    fn new(mem: T) -> (shared: Mem<T>)
        ensures
            shared.mem == mem,
    {
        Mem { mem, advisors: AtomicU64::new(0) }
    }

    /// Move one request from `prior` to `advice` in the shared counts.
    /// Returns the effective advice after the move, and whether it differs
    /// from the effective advice before: the platform is to be told only
    /// then.
    fn adjust_advice(&self, prior: MemAdvice, advice: MemAdvice) -> (change: (MemAdvice, bool))
        requires
            prior != advice,
        ensures
            change.0.rank() >= advice.rank(),
            exists|observed: u64|
                change == #[trigger] crate::mem::advice::advised(prior, observed, advice),
        opens_invariants none
        no_unwind
    {
        let observed: u64 = fetch_update_advisors(&self.advisors, prior, advice);
        let change = effective_change(observed, prior, advice);
        assert(change == crate::mem::advice::advised(prior, observed, advice));
        change
    }
}

impl<T: Deref<Target = [u8]>> Deref for Mem<T> {
    type Target = [u8];

    /// The bytes of the buffer, as the buffer itself gives them.
    fn deref(&self) -> (bytes: &[u8])
        ensures
            call_ensures(T::deref, (&self.buffer(),), bytes),
    {
        self.mem.deref()
    }
}

/// Wrapper over a byte buffer, supporting concurrent memory access advice,
/// where the highest priority advice wins.
///
/// This is likely to only be useful for memory mapped regions and memory
/// mapped files in particular.
///
/// Cloning the handle is inexpensive: the clones share the buffer and the
/// counts of requests. Each new and cloned handle starts with the implicit
/// `MemAdvice::Normal`. Each level has room for 1023 requesting handles; a
/// request beyond that is not counted.
#[derive(Debug)]
pub struct MemHandle<T: Deref<Target = [u8]>> {
    mem: Arc<Mem<T>>,
    advice: AtomicU64,
}

impl<T: Deref<Target = [u8]>> MemHandle<T> {
    /// The buffer that this handle and its clones share.
    pub closed spec fn buffer(&self) -> T {
        self.mem.buffer()
    }

    /// Wrap an owned instance of a byte slice buffer. Additional references
    /// to the underlying buffer can then be created by `clone` of this
    /// handle.
    pub fn new(mem: T) -> (handle: MemHandle<T>)
        ensures
            handle.buffer() == mem,
    {
        MemHandle { mem: Arc::new(Mem::new(mem)), advice: AtomicU64::new(0) }
    }

    /// Record that this handle now requests `advice`. Returns the effective
    /// advice, and whether the platform is to be told of it. Nothing is
    /// counted anew where the handle requested `advice` already.
    fn request(&self, advice: MemAdvice) -> (change: (MemAdvice, bool))
        ensures
            change.0.rank() >= advice.rank(),
            exists|prior: MemAdvice, observed: u64|
                change == #[trigger] crate::mem::advice::advised(prior, observed, advice),
    {
        let prior: MemAdvice = stored_level(self.advice.swap(advice.repr(), Ordering::SeqCst));
        if advice == prior {
            assert((prior, false) == crate::mem::advice::advised(prior, 0, advice));
            (prior, false)
        } else {
            self.mem.adjust_advice(prior, advice)
        }
    }

    /// Advise on access plans for the underlying memory, on a platform
    /// without an advisory call. There may be multiple cloned handles to the
    /// same memory region: returns the highest priority advice among those
    /// that the surviving handles have made, as found when this one was
    /// counted.
    pub fn advise(&self, advice: MemAdvice) -> (res: Result<MemAdvice, MemAdviseError>)
        ensures
            res matches Ok(effective) && effective.rank() >= advice.rank(),
            exists|prior: MemAdvice, observed: u64|
                res == Ok::<MemAdvice, MemAdviseError>(
                    (#[trigger] crate::mem::advice::advised(prior, observed, advice)).0,
                ),
    {
        let (effective, changed) = self.request(advice);
        if changed {
            // Note, may fail after adjustments
            relayed(effective, self::advise(&self.mem.mem, effective))
        } else {
            Ok(effective)
        }
    }

    /// Advise on access plans for the underlying memory, and have `relay`
    /// tell the platform. There may be multiple cloned handles to the same
    /// memory region, so `relay` is only called if the highest priority
    /// advice among the surviving handles has changed, and then with that
    /// advice. On success, returns the advice as relayed, or a snapshot of
    /// the current, highest priority advice. Returns the error of `relay` if
    /// it fails; the request stays counted all the same.
    pub fn advise_with<F: FnOnce(MemAdvice) -> Result<(), MemAdviseError>>(
        &self,
        advice: MemAdvice,
        relay: F,
    ) -> (res: Result<MemAdvice, MemAdviseError>)
        requires
            forall|level: MemAdvice| call_requires(relay, (level,)),
        ensures
            res matches Ok(effective) ==> effective.rank() >= advice.rank(),
            exists|prior: MemAdvice, observed: u64, answer: Result<(), MemAdviseError>|
                #[trigger] advised_with(
                    relay,
                    crate::mem::advice::advised(prior, observed, advice),
                    answer,
                    res,
                ),
    {
        let (effective, changed) = self.request(advice);
        let ghost (prior, observed) = choose|prior: MemAdvice, observed: u64|
            (effective, changed) == #[trigger] crate::mem::advice::advised(prior, observed, advice);
        if changed {
            // Note, may fail after adjustments
            let answer = relay(effective);
            let res = relayed(effective, answer);
            proof {
                let change = crate::mem::advice::advised(prior, observed, advice);
                assert(advised_with(relay, change, answer, res));
            }
            res
        } else {
            let res = Ok(effective);
            proof {
                let change = crate::mem::advice::advised(prior, observed, advice);
                assert(advised_with(relay, change, Ok::<(), MemAdviseError>(()), res));
            }
            res
        }
    }
}

impl<T: Deref<Target = [u8]>> Clone for MemHandle<T> {
    /// A new handle to the same buffer and the same counts, at the baseline:
    /// the level of `self` is not copied.
    fn clone(&self) -> (handle: MemHandle<T>)
        ensures
            handle.buffer() == self.buffer(),
    {
        MemHandle { mem: self.mem.clone(), advice: AtomicU64::new(0) }
    }
}

impl<T: Deref<Target = [u8]>> Drop for MemHandle<T> {
    /// Withdraw the request of this handle, if it has one. The platform is
    /// not told: a holder that relays its advice requests `MemAdvice::Normal`
    /// through `advise_with` before it lets go of the handle.
    fn drop(&mut self)
        opens_invariants none
        no_unwind
    {
        let advice: MemAdvice = stored_level(load_acquire(&self.advice));
        if advice != MemAdvice::Normal {
            let _ = self.mem.adjust_advice(advice, MemAdvice::Normal);
        }
    }
}

impl<T: Deref<Target = [u8]>> Deref for MemHandle<T> {
    type Target = [u8];

    /// Read-only access to the underlying buffer, whatever was advised: the
    /// bytes are those that the buffer itself gives.
    fn deref(&self) -> (bytes: &[u8])
        ensures
            call_ensures(T::deref, (&self.buffer(),), bytes),
    {
        (*self.mem).deref()
    }
}

} // verus!
