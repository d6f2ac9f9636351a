//! Animations that are made of others: the times of a sequence, whose parts
//! run one after the other, and of tracks, which run side by side. The parts
//! themselves are kept by the owner, who hands in what they say of
//! themselves.

use vstd::prelude::*;
use crate::tween::tweenable::{TotalDuration, TweenState};
use crate::tween::{saturating_add, spec_saturating_add, MAX_NANOS};

verus! {

/// The sum of the times.
pub open spec fn total(durations: Seq<u128>) -> int
    decreases durations.len(),
{
    if durations.len() == 0 {
        0
    } else {
        total(durations.drop_last()) + durations.last()
    }
}

/// The part that is running when `elapsed` has run from the start of part
/// `from`: the first part from `from` on that is not yet over. Where all
/// are over, the number of parts.
pub open spec fn running_part(durations: Seq<u128>, from: int, elapsed: int) -> int
    decreases durations.len() - from,
{
    if from < 0 || from >= durations.len() {
        durations.len() as int
    } else if elapsed < durations[from] {
        from
    } else {
        running_part(durations, from + 1, elapsed - durations[from])
    }
}

/// The sum of the times does not shrink with more of them.
pub proof fn lemma_total_grows(durations: Seq<u128>, k: int)
    requires
        0 <= k <= durations.len(),
    ensures
        0 <= total(durations.take(k)) <= total(durations),
    decreases durations.len() - k,
{
    if k < durations.len() {
        lemma_total_grows(durations, k + 1);
        assert(durations.take(k + 1).drop_last() =~= durations.take(k));
        lemma_total_nonnegative(durations.take(k));
    } else {
        assert(durations.take(k) =~= durations);
        lemma_total_nonnegative(durations);
    }
}

/// The sum of the times is not negative.
pub proof fn lemma_total_nonnegative(durations: Seq<u128>)
    ensures
        0 <= total(durations),
    decreases durations.len(),
{
    if durations.len() > 0 {
        lemma_total_nonnegative(durations.drop_last());
    }
}

/// The times of a sequence: which part is running, the time that the
/// sequence takes, and the time that has run.
#[derive(Debug, Clone, Copy, PartialEq, Eq, Structural)]
pub struct Sequence {
    pub index: usize,
    pub duration: u128,
    pub elapsed: u128,
}

impl Sequence {
    /// A sequence without parts, at its start.
    pub fn with_capacity(capacity: usize) -> (r: Sequence)
        ensures
            r == (Sequence { index: 0, duration: 0, elapsed: 0 }),
    {
        Sequence { index: 0, duration: 0, elapsed: 0 }
    }

    /// A sequence of parts that take `durations`, at its start. It takes
    /// the sum of their times, which must be a time that can be measured.
    pub fn new(durations: &Vec<u128>) -> (r: Sequence)
        requires
            durations@.len() > 0,
            total(durations@) <= MAX_NANOS,
        ensures
            r == (Sequence { index: 0, duration: total(durations@) as u128, elapsed: 0 }),
    {
        let mut sum: u128 = 0;
        let mut i: usize = 0;
        proof {
            assert(durations@.take(0) =~= Seq::<u128>::empty());
        }
        while i < durations.len()
            invariant
                i <= durations@.len(),
                total(durations@) <= MAX_NANOS,
                sum == total(durations@.take(i as int)),
            decreases durations@.len() - i,
        {
            proof {
                lemma_total_grows(durations@, i + 1);
                assert(durations@.take(i + 1).drop_last() =~= durations@.take(i as int));
            }
            sum = sum + durations[i];
            i += 1;
        }
        proof {
            assert(durations@.take(durations@.len() as int) =~= durations@);
        }
        Sequence { index: 0, duration: sum, elapsed: 0 }
    }

    /// This sequence with one more part, which takes `duration`.
    pub fn then(self, duration: u128) -> (r: Sequence)
        requires
            self.duration + duration <= MAX_NANOS,
        ensures
            r == (Sequence { duration: (self.duration + duration) as u128, ..self }),
    {
        Sequence { index: self.index, duration: self.duration + duration, elapsed: self.elapsed }
    }

    /// The part that is running, or the last of the `parts` where all are
    /// over.
    pub fn index(&self, parts: usize) -> (index: usize)
        requires
            parts > 0,
        ensures
            index == (if self.index < parts {
                self.index
            } else {
                (parts - 1) as usize
            }),
    {
        if self.index < parts {
            self.index
        } else {
            parts - 1
        }
    }

    /// The time that the sequence takes.
    pub fn duration(&self) -> (duration: u128)
        ensures
            duration == self.duration,
    {
        self.duration
    }

    /// The time that the sequence runs in all: the time that it takes.
    pub fn total_duration(&self) -> (total: TotalDuration)
        ensures
            total == TotalDuration::Finite(self.duration),
    {
        TotalDuration::Finite(self.duration)
    }

    /// The time that has run.
    pub fn elapsed(&self) -> (elapsed: u128)
        ensures
            elapsed == self.elapsed,
    {
        self.elapsed
    }

    /// Sets the time that has run to `elapsed`, and finds the part that is
    /// then running among the parts that take `durations`. The result holds
    /// the time to set each part to, from the first part to the running
    /// one: each part before the running one is set to the time that it
    /// takes, and the running one to what is left of `elapsed`. Where all
    /// parts are over, each is set to the time that it takes.
    pub fn set_elapsed(&mut self, durations: &Vec<u128>, elapsed: u128) -> (set: Vec<u128>)
        requires
            total(durations@) <= MAX_NANOS,
        ensures
            final(self).elapsed == elapsed,
            final(self).duration == old(self).duration,
            final(self).index == running_part(durations@, 0, elapsed as int),
            final(self).index < durations@.len() ==> set@ == durations@.take(
                final(self).index as int,
            ).push((elapsed - total(durations@.take(final(self).index as int))) as u128),
            final(self).index >= durations@.len() ==> set@ == durations@,
    {
        self.elapsed = elapsed;
        let n = durations.len();
        let mut set: Vec<u128> = Vec::new();
        let mut accum: u128 = 0;
        let mut index: usize = 0;
        proof {
            assert(durations@.take(0) =~= Seq::<u128>::empty());
        }
        while index < n
            invariant
                n == durations@.len(),
                index <= n,
                total(durations@) <= MAX_NANOS,
                accum == total(durations@.take(index as int)),
                accum <= elapsed,
                set@ == durations@.take(index as int),
                running_part(durations@, index as int, elapsed - accum) == running_part(
                    durations@,
                    0,
                    elapsed as int,
                ),
                self.elapsed == elapsed,
                self.duration == old(self).duration,
            decreases n - index,
        {
            let part = durations[index];
            proof {
                lemma_total_grows(durations@, index + 1);
                assert(durations@.take(index + 1).drop_last() =~= durations@.take(index as int));
            }
            if elapsed < accum + part {
                self.index = index;
                set.push(elapsed - accum);
                return set;
            }
            set.push(part);
            accum = accum + part;
            index += 1;
            proof {
                assert(set@ =~= durations@.take(index as int));
            }
        }
        proof {
            assert(durations@.take(n as int) =~= durations@);
        }
        self.index = n;
        set
    }

    /// Starts a tick of `delta`: the time that has run grows by it, up to
    /// the time that the sequence takes.
    pub fn start_tick(&mut self, delta: u128)
        requires
            old(self).elapsed <= MAX_NANOS,
            delta <= MAX_NANOS,
        ensures
            *final(self) == (Sequence {
                elapsed: if spec_saturating_add(old(self).elapsed, delta) <= old(self).duration {
                    spec_saturating_add(old(self).elapsed, delta)
                } else {
                    old(self).duration
                },
                ..*old(self)
            }),
    {
        let run = saturating_add(self.elapsed, delta);
        self.elapsed = if run <= self.duration {
            run
        } else {
            self.duration
        };
    }

    /// Whether a part is left to tick, of `parts` in all.
    pub fn is_running(&self, parts: usize) -> (running: bool)
        ensures
            running == (self.index < parts),
    {
        self.index < parts
    }

    /// What a part that takes `duration` and has run for `elapsed` has left
    /// to run.
    pub fn remaining(duration: u128, elapsed: u128) -> (left: u128)
        requires
            elapsed <= duration,
        ensures
            left == duration - elapsed,
    {
        duration - elapsed
    }

    /// Goes on to the next part when the running one has completed in a
    /// tick of `delta`, before which it had `remaining` left to run. The
    /// result is what is left of the tick for the next part.
    pub fn next_part(&mut self, delta: u128, remaining: u128) -> (left: u128)
        requires
            remaining <= delta,
            old(self).index < usize::MAX,
        ensures
            left == delta - remaining,
            *final(self) == (Sequence { index: (old(self).index + 1) as usize, ..*old(self) }),
    {
        self.index = self.index + 1;
        delta - remaining
    }

    /// Takes the sequence back to its start.
    pub fn rewind(&mut self)
        ensures
            *final(self) == (Sequence { index: 0, elapsed: 0, ..*old(self) }),
    {
        self.elapsed = 0;
        self.index = 0;
    }
}

/// The longest of the times, or no time where there is none.
pub open spec fn longest(durations: Seq<u128>) -> u128
    decreases durations.len(),
{
    if durations.len() == 0 {
        0
    } else {
        let rest = longest(durations.drop_last());
        if durations.last() > rest {
            durations.last()
        } else {
            rest
        }
    }
}

/// Some of the animations still runs.
pub open spec fn any_active(states: Seq<TweenState>) -> bool {
    exists|i: int| 0 <= i < states.len() && #[trigger] states[i] == TweenState::Active
}

/// The times of tracks: the time that they take and the time that has run.
#[derive(Debug, Clone, Copy, PartialEq, Eq, Structural)]
pub struct Tracks {
    pub duration: u128,
    pub elapsed: u128,
}

impl Tracks {
    /// Tracks that take `durations`, at their start. They take as long as
    /// the longest of them.
    pub fn new(durations: &Vec<u128>) -> (r: Tracks)
        requires
            durations@.len() > 0,
        ensures
            r == (Tracks { duration: longest(durations@), elapsed: 0 }),
    {
        let mut most: u128 = 0;
        let mut i: usize = 0;
        proof {
            assert(durations@.take(0) =~= Seq::<u128>::empty());
        }
        while i < durations.len()
            invariant
                i <= durations@.len(),
                most == longest(durations@.take(i as int)),
            decreases durations@.len() - i,
        {
            proof {
                assert(durations@.take(i + 1).drop_last() =~= durations@.take(i as int));
            }
            if durations[i] > most {
                most = durations[i];
            }
            i += 1;
        }
        proof {
            assert(durations@.take(durations@.len() as int) =~= durations@);
        }
        Tracks { duration: most, elapsed: 0 }
    }

    /// The time that the tracks take.
    pub fn duration(&self) -> (duration: u128)
        ensures
            duration == self.duration,
    {
        self.duration
    }

    /// The time that the tracks run in all: the time that they take.
    pub fn total_duration(&self) -> (total: TotalDuration)
        ensures
            total == TotalDuration::Finite(self.duration),
    {
        TotalDuration::Finite(self.duration)
    }

    /// The time that has run.
    pub fn elapsed(&self) -> (elapsed: u128)
        ensures
            elapsed == self.elapsed,
    {
        self.elapsed
    }

    /// Sets the time that has run. Each track is to be set to the same.
    pub fn set_elapsed(&mut self, elapsed: u128)
        ensures
            *final(self) == (Tracks { elapsed, ..*old(self) }),
    {
        self.elapsed = elapsed;
    }

    /// Starts a tick of `delta`: the time that has run grows by it, up to
    /// the time that the tracks take. Each track is to be ticked by `delta`.
    pub fn start_tick(&mut self, delta: u128)
        requires
            old(self).elapsed <= MAX_NANOS,
            delta <= MAX_NANOS,
        ensures
            *final(self) == (Tracks {
                elapsed: if spec_saturating_add(old(self).elapsed, delta) <= old(self).duration {
                    spec_saturating_add(old(self).elapsed, delta)
                } else {
                    old(self).duration
                },
                ..*old(self)
            }),
    {
        let run = saturating_add(self.elapsed, delta);
        self.elapsed = if run <= self.duration {
            run
        } else {
            self.duration
        };
    }

    /// Whether the tracks still run, given what each track says after its
    /// tick: they run as long as one of them does.
    pub fn state(states: &Vec<TweenState>) -> (state: TweenState)
        ensures
            state == (if any_active(states@) {
                TweenState::Active
            } else {
                TweenState::Completed
            }),
    {
        let mut i: usize = 0;
        while i < states.len()
            invariant
                i <= states@.len(),
                forall|k: int| 0 <= k < i ==> #[trigger] states@[k] != TweenState::Active,
            decreases states@.len() - i,
        {
            match states[i] {
                TweenState::Active => {
                    return TweenState::Active;
                },
                TweenState::Completed => {},
            }
            i += 1;
        }
        TweenState::Completed
    }

    /// Takes the tracks back to their start.
    pub fn rewind(&mut self)
        ensures
            *final(self) == (Tracks { elapsed: 0, ..*old(self) }),
    {
        self.elapsed = 0;
    }
}

} // verus!
