//! Advice levels and the packed word that counts the handles requesting each.
//!
//! One `u64` holds a ten bit count for every level above `Normal`: bits 0-9
//! count the handles requesting `Random`, bits 10-19 those requesting
//! `Sequential`. `Normal` is the baseline and is not counted. A count never
//! leaves its field: it stops at 1023 and at 0.
//!
//! As a number, the word is `random + 1024 * sequential + 1024 * 1024 *
//! spare`, with both counts below 1024. The contracts here speak of those
//! three numbers.

use vstd::prelude::*;

verus! {

/// Memory access pattern advice, in ascending order of priority.
#[derive(Clone, Copy, Debug, PartialEq, Eq, PartialOrd, Ord, Structural)]
pub enum MemAdvice {
    /// The baseline. Not counted.
    Normal,
    /// Expect random access.
    Random,
    /// Expect sequential access.
    Sequential,
}

/// The largest number of handles that one field can count.
pub const FIELD_MAX: u64 = 0x3FF;

/// The bits of the packed word that count `Random` requests.
pub const RANDOM_FIELD: u64 = 0x003FF;

/// The bits of the packed word that count `Sequential` requests.
pub const SEQUENTIAL_FIELD: u64 = 0xFFC00;

impl MemAdvice {
    /// Priority of the level: a greater rank wins.
    pub open spec fn rank(self) -> nat {
        match self {
            MemAdvice::Normal => 0,
            MemAdvice::Random => 1,
            MemAdvice::Sequential => 2,
        }
    }

    /// The field of the packed word that counts this level, which is also the
    /// word a handle stores for its own level. `Normal` has no field.
    pub open spec fn field(self) -> u64 {
        match self {
            MemAdvice::Normal => 0,
            MemAdvice::Random => 0x003FF,
            MemAdvice::Sequential => 0xFFC00,
        }
    }

    /// The level whose field is `word`, if there is one.
    pub open spec fn of_field(word: u64) -> Option<MemAdvice> {
        if word == 0 {
            Some(MemAdvice::Normal)
        } else if word == 0x003FF {
            Some(MemAdvice::Random)
        } else if word == 0xFFC00 {
            Some(MemAdvice::Sequential)
        } else {
            None
        }
    }

    /// The word a handle stores for this level.
    pub fn repr(self) -> (word: u64)
        ensures
            word == self.field(),
            MemAdvice::of_field(word) == Some(self),
        opens_invariants none
        no_unwind
    {
        match self {
            MemAdvice::Normal => 0,
            MemAdvice::Random => RANDOM_FIELD,
            MemAdvice::Sequential => SEQUENTIAL_FIELD,
        }
    }

    /// The level that `word` stands for, or `None` where it is the field of
    /// no level.
    pub fn from_repr(word: u64) -> (level: Option<MemAdvice>)
        ensures
            level == MemAdvice::of_field(word),
        opens_invariants none
        no_unwind
    {
        if word == 0 {
            Some(MemAdvice::Normal)
        } else if word == RANDOM_FIELD {
            Some(MemAdvice::Random)
        } else if word == SEQUENTIAL_FIELD {
            Some(MemAdvice::Sequential)
        } else {
            None
        }
    }
}

/// How many handles request each level above the baseline.
pub struct Advisors {
    pub random: nat,
    pub sequential: nat,
}

impl Advisors {
    /// The number of handles counted at `level`. The baseline counts none.
    pub open spec fn at(self, level: MemAdvice) -> nat {
        match level {
            MemAdvice::Normal => 0,
            MemAdvice::Random => self.random,
            MemAdvice::Sequential => self.sequential,
        }
    }

    /// The effective advice: the highest level that any handle requests,
    /// the baseline if none does.
    pub open spec fn top(self) -> MemAdvice {
        if self.sequential > 0 {
            MemAdvice::Sequential
        } else if self.random > 0 {
            MemAdvice::Random
        } else {
            MemAdvice::Normal
        }
    }

    /// The counts after one more handle requests `level`. A full field stays
    /// full.
    pub open spec fn request(self, level: MemAdvice) -> Advisors {
        match level {
            MemAdvice::Normal => self,
            MemAdvice::Random => Advisors { random: saturating_succ(self.random), ..self },
            MemAdvice::Sequential => Advisors {
                sequential: saturating_succ(self.sequential),
                ..self
            },
        }
    }

    /// The counts after one handle gives up its request of `level`. An empty
    /// field stays empty.
    pub open spec fn withdraw(self, level: MemAdvice) -> Advisors {
        match level {
            MemAdvice::Normal => self,
            MemAdvice::Random => Advisors { random: saturating_pred(self.random), ..self },
            MemAdvice::Sequential => Advisors {
                sequential: saturating_pred(self.sequential),
                ..self
            },
        }
    }

    /// The counts after a handle moves its request from `prior` to `advice`.
    pub open spec fn change(self, prior: MemAdvice, advice: MemAdvice) -> Advisors {
        self.withdraw(prior).request(advice)
    }

    /// The counts after `n` more handles request `level`.
    pub open spec fn request_times(self, level: MemAdvice, n: nat) -> Advisors
        decreases n,
    {
        if n == 0 {
            self
        } else {
            self.request_times(level, (n - 1) as nat).request(level)
        }
    }
}

/// One more, up to the capacity of a field.
pub open spec fn saturating_succ(count: nat) -> nat {
    if count < 0x3FF {
        count + 1
    } else {
        count
    }
}

/// One less, down to zero.
pub open spec fn saturating_pred(count: nat) -> nat {
    if count > 0 {
        (count - 1) as nat
    } else {
        0
    }
}

/// The counts that the packed word `word` holds.
pub open spec fn advisors_of(word: u64) -> Advisors {
    Advisors { random: (word % 0x400) as nat, sequential: ((word / 0x400) % 0x400) as nat }
}

/// The bits of `word` above the two fields. No operation here changes them.
pub open spec fn spare_bits(word: u64) -> u64 {
    word / 0x10_0000
}

/// Given packed advisors state, and prior advice, return decremented state.
pub fn decr_advisors(advisors: u64, prior: MemAdvice) -> (next: u64)
    ensures
        advisors_of(next) == advisors_of(advisors).withdraw(prior),
        spare_bits(next) == spare_bits(advisors),
    opens_invariants none
    no_unwind
{
    match prior {
        MemAdvice::Normal => advisors,
        MemAdvice::Random => {
            let mut p: u64 = advisors & RANDOM_FIELD;
            assert(p <= advisors && p == advisors % 0x400) by (bit_vector)
                requires
                    p == advisors & 0x3FF,
            ;
            let rest: u64 = advisors - p;
            if p > 0 {
                p -= 1;
            }
            let next: u64 = rest | p;
            assert(next % 0x400 == p && (next / 0x400) % 0x400 == (advisors / 0x400) % 0x400 && next
                / 0x10_0000 == advisors / 0x10_0000) by (bit_vector)
                requires
                    rest == advisors - (advisors & 0x3FF),
                    p <= 0x3FF,
                    next == rest | p,
            ;
            next
        },
        MemAdvice::Sequential => {
            let field: u64 = advisors & SEQUENTIAL_FIELD;
            assert(field <= advisors) by (bit_vector)
                requires
                    field == advisors & 0xFFC00,
            ;
            let rest: u64 = advisors - field;
            let mut p: u64 = field >> 10;
            assert(p == (advisors / 0x400) % 0x400 && p <= 0x3FF) by (bit_vector)
                requires
                    p == (advisors & 0xFFC00) >> 10,
            ;
            if p > 0 {
                p -= 1;
            }
            let next: u64 = rest | (p << 10);
            assert(next % 0x400 == advisors % 0x400 && (next / 0x400) % 0x400 == p && next
                / 0x10_0000 == advisors / 0x10_0000) by (bit_vector)
                requires
                    rest == advisors - (advisors & 0xFFC00),
                    p <= 0x3FF,
                    next == rest | (p << 10),
            ;
            next
        },
    }
}

/// Given packed advisors state, and new advice, return incremented state.
pub fn incr_advisors(advisors: u64, advice: MemAdvice) -> (next: u64)
    ensures
        advisors_of(next) == advisors_of(advisors).request(advice),
        spare_bits(next) == spare_bits(advisors),
    opens_invariants none
    no_unwind
{
    match advice {
        MemAdvice::Normal => advisors,
        MemAdvice::Random => {
            let mut cur: u64 = advisors & RANDOM_FIELD;
            assert(cur <= advisors && cur == advisors % 0x400) by (bit_vector)
                requires
                    cur == advisors & 0x3FF,
            ;
            let rest: u64 = advisors - cur;
            if cur < FIELD_MAX {
                cur += 1;
            }
            let next: u64 = rest | cur;
            assert(next % 0x400 == cur && (next / 0x400) % 0x400 == (advisors / 0x400) % 0x400
                && next / 0x10_0000 == advisors / 0x10_0000) by (bit_vector)
                requires
                    rest == advisors - (advisors & 0x3FF),
                    cur <= 0x3FF,
                    next == rest | cur,
            ;
            next
        },
        MemAdvice::Sequential => {
            let field: u64 = advisors & SEQUENTIAL_FIELD;
            assert(field <= advisors) by (bit_vector)
                requires
                    field == advisors & 0xFFC00,
            ;
            let rest: u64 = advisors - field;
            let mut cur: u64 = field >> 10;
            assert(cur == (advisors / 0x400) % 0x400 && cur <= 0x3FF) by (bit_vector)
                requires
                    cur == (advisors & 0xFFC00) >> 10,
            ;
            if cur < FIELD_MAX {
                cur += 1;
            }
            let next: u64 = rest | (cur << 10);
            assert(next % 0x400 == advisors % 0x400 && (next / 0x400) % 0x400 == cur && next
                / 0x10_0000 == advisors / 0x10_0000) by (bit_vector)
                requires
                    rest == advisors - (advisors & 0xFFC00),
                    cur <= 0x3FF,
                    next == rest | (cur << 10),
            ;
            next
        },
    }
}

/// Return top most advice from advisors state.
pub fn top_most(advisors: u64) -> (top: MemAdvice)
    ensures
        top == advisors_of(advisors).top(),
    opens_invariants none
    no_unwind
{
    assert((advisors & 0xFFC00 > 0) == ((advisors / 0x400) % 0x400 > 0) && advisors & 0x3FF
        == advisors % 0x400) by (bit_vector);
    if (advisors & SEQUENTIAL_FIELD) > 0 {
        MemAdvice::Sequential
    } else if (advisors & RANDOM_FIELD) > 0 {
        MemAdvice::Random
    } else {
        MemAdvice::Normal
    }
}

/// The packed word that replaces `advisors` when a handle moves its request
/// from `prior` to `advice`: the field of `prior` decremented, then the field
/// of `advice` incremented. There always is one.
pub fn next_advisors(advisors: u64, prior: MemAdvice, advice: MemAdvice) -> (next: Option<u64>)
    ensures
        next matches Some(word) && advisors_of(word) == advisors_of(advisors).change(prior, advice)
            && spare_bits(word) == spare_bits(advisors),
    opens_invariants none
    no_unwind
{
    Some(incr_advisors(decr_advisors(advisors, prior), advice))
}

/// What follows from a change of request that found the packed word
/// `observed`: the effective advice after the change, and whether it differs
/// from the effective advice before, in which case it is to be relayed to the
/// platform.
pub fn effective_change(observed: u64, prior: MemAdvice, advice: MemAdvice) -> (change: (
    MemAdvice,
    bool,
))
    ensures
        change.0 == advisors_of(observed).change(prior, advice).top(),
        change.1 == (change.0 != advisors_of(observed).top()),
    opens_invariants none
    no_unwind
{
    let old_top: MemAdvice = top_most(observed);
    let new_adv: u64 = incr_advisors(decr_advisors(observed, prior), advice);
    let new_top: MemAdvice = top_most(new_adv);
    (new_top, new_top != old_top)
}

/// What a handle that had requested `prior` gets for its request of `advice`
/// when the shared counts are those of the packed word `observed`: the
/// effective advice, and whether the platform is to be told of it. A handle
/// that requests what it requested before gets its own level back, and
/// nothing is counted.
pub open spec fn advised(prior: MemAdvice, observed: u64, advice: MemAdvice) -> (MemAdvice, bool) {
    if advice == prior {
        (prior, false)
    } else {
        let after = advisors_of(observed).change(prior, advice);
        (after.top(), after.top() != advisors_of(observed).top())
    }
}

/// A packed word is its two counts and its spare bits, and nothing more.
pub proof fn lemma_word_determined(a: u64, b: u64)
    requires
        advisors_of(a) == advisors_of(b),
        spare_bits(a) == spare_bits(b),
    ensures
        a == b,
{
    assert(a == b) by (bit_vector)
        requires
            a % 0x400 == b % 0x400,
            (a / 0x400) % 0x400 == (b / 0x400) % 0x400,
            a / 0x10_0000 == b / 0x10_0000,
    ;
}

/// No packed word holds a count above the capacity of a field.
pub proof fn lemma_counts_bounded(word: u64)
    ensures
        advisors_of(word).random <= FIELD_MAX,
        advisors_of(word).sequential <= FIELD_MAX,
{
}

/// The effective advice after a handle requested `advice` is never below
/// `advice`, whatever the counts were and whatever the handle requested
/// before.
pub proof fn lemma_effective_at_least_requested(
    counts: Advisors,
    prior: MemAdvice,
    advice: MemAdvice,
)
    ensures
        counts.change(prior, advice).top().rank() >= advice.rank(),
{
}

/// While no more than 1023 handles request one level at a time, the counts
/// are the numbers of the handles that request each level: a handle that
/// was counted at `prior` and moves to `advice`, where there is room, takes
/// one from the count of `prior`, adds one to the count of `advice`, and
/// leaves the third level alone.
pub proof fn lemma_counts_follow_handles(
    counts: Advisors,
    prior: MemAdvice,
    advice: MemAdvice,
    level: MemAdvice,
)
    requires
        prior != advice,
        prior != MemAdvice::Normal ==> counts.at(prior) > 0,
        advice != MemAdvice::Normal ==> counts.at(advice) < FIELD_MAX,
        level != MemAdvice::Normal,
    ensures
        counts.change(prior, advice).at(level) == counts.at(level) + (if level == advice {
            1int
        } else {
            0int
        }) - (if level == prior {
            1int
        } else {
            0int
        }),
{
}

/// One handle moving its request from `prior` to `advice`.
pub struct Move {
    pub prior: MemAdvice,
    pub advice: MemAdvice,
}

impl Advisors {
    /// The numbers of handles that request each level after one of them
    /// has moved its request: numbers of handles, which no field bounds.
    pub open spec fn moved(self, m: Move) -> Advisors {
        Advisors {
            random: (self.random + (if m.advice == MemAdvice::Random {
                1int
            } else {
                0int
            }) - (if m.prior == MemAdvice::Random {
                1int
            } else {
                0int
            })) as nat,
            sequential: (self.sequential + (if m.advice == MemAdvice::Sequential {
                1int
            } else {
                0int
            }) - (if m.prior == MemAdvice::Sequential {
                1int
            } else {
                0int
            })) as nat,
        }
    }

    /// Whether a handle can make the move `m` where `self` are the numbers
    /// of handles: it changes its request, it is one of those that request
    /// `m.prior`, and the field of `m.advice` has room for it.
    pub open spec fn admits(self, m: Move) -> bool {
        &&& m.prior != m.advice
        &&& m.prior != MemAdvice::Normal ==> self.at(m.prior) > 0
        &&& m.advice != MemAdvice::Normal ==> self.at(m.advice) < FIELD_MAX
    }

    /// Whether the handles can make the moves `moves`, one after the other.
    pub open spec fn admits_all(self, moves: Seq<Move>) -> bool
        decreases moves.len(),
    {
        moves.len() > 0 ==> self.admits_all(moves.drop_last()) && self.moved_all(
            moves.drop_last(),
        ).admits(moves.last())
    }

    /// The numbers of handles after the moves `moves`.
    pub open spec fn moved_all(self, moves: Seq<Move>) -> Advisors
        decreases moves.len(),
    {
        if moves.len() == 0 {
            self
        } else {
            self.moved_all(moves.drop_last()).moved(moves.last())
        }
    }

    /// The counts after the moves `moves`, each counted as a packed word
    /// counts it.
    pub open spec fn changed_all(self, moves: Seq<Move>) -> Advisors
        decreases moves.len(),
    {
        if moves.len() == 0 {
            self
        } else {
            self.changed_all(moves.drop_last()).change(moves.last().prior, moves.last().advice)
        }
    }
}

/// While no more than 1023 handles request one level at a time, the counts
/// of a packed word are the numbers of handles that request each level,
/// whatever the handles do. So the effective advice is the highest level
/// that any handle requests.
pub proof fn lemma_counts_are_the_handles(handles: Advisors, moves: Seq<Move>)
    requires
        handles.admits_all(moves),
    ensures
        handles.changed_all(moves) == handles.moved_all(moves),
        handles.changed_all(moves).top() == handles.moved_all(moves).top(),
    decreases moves.len(),
{
    if moves.len() > 0 {
        lemma_counts_are_the_handles(handles, moves.drop_last());
        let before = handles.moved_all(moves.drop_last());
        let m = moves.last();
        lemma_counts_follow_handles(before, m.prior, m.advice, MemAdvice::Random);
        lemma_counts_follow_handles(before, m.prior, m.advice, MemAdvice::Sequential);
    }
}

/// Saturation: after `n` more requests of `level` its count is the sum, or
/// the capacity of the field where the sum is beyond it; the other count is
/// untouched. So the requests beyond the capacity change nothing.
pub proof fn lemma_requests_saturate(counts: Advisors, level: MemAdvice, n: nat)
    requires
        counts.random <= FIELD_MAX,
        counts.sequential <= FIELD_MAX,
    ensures
        level != MemAdvice::Normal ==> counts.request_times(level, n).at(level) == if counts.at(
            level,
        ) + n <= FIELD_MAX {
            counts.at(level) + n
        } else {
            FIELD_MAX as nat
        },
        forall|other: MemAdvice|
            other != level ==> counts.request_times(level, n).at(other) == counts.at(other),
        n > 0 ==> counts.request_times(level, n).top().rank() >= level.rank(),
    decreases n,
{
    if n > 0 {
        lemma_requests_saturate(counts, level, (n - 1) as nat);
    }
}

/// Arbitration between two handles over the same region. From counts at
/// which nobody requests anything, one handle requests `high` and another the
/// lower `low`: the effective advice is `high`. Once the first handle is gone
/// (its request withdrawn), the effective advice is `low`.
pub proof fn lemma_highest_request_wins(counts: Advisors, high: MemAdvice, low: MemAdvice)
    requires
        counts.random == 0,
        counts.sequential == 0,
        high.rank() > low.rank(),
    ensures
        counts.request(high).top() == high,
        counts.request(high).request(low).top() == high,
        counts.request(high).request(low).withdraw(high).top() == low,
{
}

} // verus!
