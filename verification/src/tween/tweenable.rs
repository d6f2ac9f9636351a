//! The clock of one animation, and the animations built on it.

use vstd::prelude::*;
use crate::tween::{
    saturating_add, saturating_mul, spec_saturating_add, spec_saturating_mul, RepeatCount,
    RepeatStrategy, TweeningDirection, MAX_NANOS,
};

verus! {

/// Whether an animation still runs.
#[derive(Debug, Clone, Copy, PartialEq, Eq, Structural)]
pub enum TweenState {
    /// It has not reached its end yet.
    Active,
    /// It has reached its end and stays there. An animation that repeats
    /// without end never gets here.
    Completed,
}

/// The notice that an animation has completed one play.
#[derive(Debug, Clone, Copy, PartialEq, Eq, Structural)]
pub struct TweenCompleted {
    /// The entity that the animation belongs to.
    pub entity: u64,
    /// The number that the animation was given for its notices.
    pub user_data: u64,
}

/// How long an animation runs in all, repeats included.
#[derive(Debug, Clone, Copy, PartialEq, Eq, Structural)]
pub enum TotalDuration {
    /// For a time, in nanoseconds.
    Finite(u128),
    /// Without end.
    Infinite,
}

/// The time that an animation runs in all, given the time that one play
/// takes and how often it plays.
pub open spec fn spec_total_duration(duration: u128, count: RepeatCount) -> TotalDuration {
    match count {
        RepeatCount::Finite(times) => TotalDuration::Finite(spec_saturating_mul(duration, times)),
        RepeatCount::For(time) => TotalDuration::Finite(time),
        RepeatCount::Infinite => TotalDuration::Infinite,
    }
}

/// The time that an animation runs in all.
pub fn compute_total_duration(duration: u128, count: RepeatCount) -> (total: TotalDuration)
    requires
        duration <= MAX_NANOS,
    ensures
        total == spec_total_duration(duration, count),
{
    match count {
        RepeatCount::Finite(times) => TotalDuration::Finite(saturating_mul(duration, times)),
        RepeatCount::For(time) => TotalDuration::Finite(time),
        RepeatCount::Infinite => TotalDuration::Infinite,
    }
}

/// The clock of an animation: the time that has run, the time that one play
/// takes, the time that it runs in all, and what it does between plays.
#[derive(Debug, Clone, Copy)]
pub struct AnimClock {
    pub elapsed: u128,
    pub duration: u128,
    pub total_duration: TotalDuration,
    pub strategy: RepeatStrategy,
}

/// The low 32 bits of a count, as a signed number.
pub open spec fn as_signed(count: u32) -> int {
    if count < 0x8000_0000 {
        count as int
    } else {
        count - 0x1_0000_0000
    }
}

/// A difference of two signed 32-bit numbers, as a signed 32-bit number.
pub open spec fn wrapped(difference: int) -> int {
    if difference < -0x8000_0000 {
        difference + 0x1_0000_0000
    } else if difference >= 0x8000_0000 {
        difference - 0x1_0000_0000
    } else {
        difference
    }
}

impl AnimClock {
    /// The times are times that can be measured.
    pub open spec fn wf(&self) -> bool {
        self.elapsed <= MAX_NANOS && self.duration <= MAX_NANOS
    }

    /// The number of plays that have completed, in 32 bits.
    pub open spec fn spec_times_completed(&self) -> u32 {
        ((self.elapsed / self.duration) % 0x1_0000_0000) as u32
    }

    /// The state of a clock that has run for `elapsed`.
    pub open spec fn state_at(&self, elapsed: u128) -> TweenState {
        match self.total_duration {
            TotalDuration::Finite(total) => if elapsed >= total {
                TweenState::Completed
            } else {
                TweenState::Active
            },
            TotalDuration::Infinite => TweenState::Active,
        }
    }

    /// The time that the clock shows when it is set to `elapsed`: no more
    /// than the time that the animation runs in all.
    pub open spec fn clamped(&self, elapsed: u128) -> u128 {
        match self.total_duration {
            TotalDuration::Finite(total) => if elapsed >= total {
                total
            } else {
                elapsed
            },
            TotalDuration::Infinite => elapsed,
        }
    }

    /// A clock at 0 for an animation that plays once and takes `duration`.
    pub fn new(duration: u128) -> (clock: AnimClock)
        requires
            duration <= MAX_NANOS,
        ensures
            clock == (AnimClock {
                elapsed: 0,
                duration,
                total_duration: TotalDuration::Finite(duration),
                strategy: RepeatStrategy::Repeat,
            }),
            clock.wf(),
    {
        assert(spec_saturating_mul(duration, 1) == duration);
        AnimClock {
            elapsed: 0,
            duration,
            total_duration: compute_total_duration(duration, RepeatCount::Finite(1)),
            strategy: RepeatStrategy::Repeat,
        }
    }

    /// Moves the clock on by `tick`. The result is as for `set_elapsed`.
    pub fn tick(&mut self, tick: u128) -> (r: (TweenState, i32))
        requires
            old(self).wf(),
            old(self).duration > 0,
            tick <= MAX_NANOS,
        ensures
            final(self).elapsed == old(self).clamped(spec_saturating_add(old(self).elapsed, tick)),
            final(self).duration == old(self).duration,
            final(self).total_duration == old(self).total_duration,
            final(self).strategy == old(self).strategy,
            r.0 == old(self).state_at(spec_saturating_add(old(self).elapsed, tick)),
            r.1 == wrapped(
                as_signed(final(self).spec_times_completed()) - as_signed(
                    old(self).spec_times_completed(),
                ),
            ),
    {
        let elapsed = saturating_add(self.elapsed, tick);
        self.set_elapsed(elapsed)
    }

    /// The number of plays that have completed, in 32 bits.
    pub fn times_completed(&self) -> (times: u32)
        requires
            self.duration > 0,
        ensures
            times == self.spec_times_completed(),
    {
        ((self.elapsed / self.duration) % 0x1_0000_0000) as u32
    }

    /// Sets the clock to `elapsed`, or to the end of the animation where
    /// `elapsed` lies beyond it. The result is the state, and the number of
    /// plays that have completed since, as the difference of the two counts
    /// in signed 32 bits.
    pub fn set_elapsed(&mut self, elapsed: u128) -> (r: (TweenState, i32))
        requires
            old(self).duration > 0,
        ensures
            final(self).elapsed == old(self).clamped(elapsed),
            final(self).duration == old(self).duration,
            final(self).total_duration == old(self).total_duration,
            final(self).strategy == old(self).strategy,
            r.0 == old(self).state_at(elapsed),
            r.1 == wrapped(
                as_signed(final(self).spec_times_completed()) - as_signed(
                    old(self).spec_times_completed(),
                ),
            ),
    {
        let before = self.times_completed();
        self.elapsed = elapsed;
        let state = match self.total_duration {
            TotalDuration::Finite(total) => {
                if self.elapsed >= total {
                    self.elapsed = total;
                    TweenState::Completed
                } else {
                    TweenState::Active
                }
            },
            TotalDuration::Infinite => TweenState::Active,
        };
        let after = self.times_completed();
        (state, signed(after).wrapping_sub(signed(before)))
    }

    /// The time that has run.
    pub fn elapsed(&self) -> (elapsed: u128)
        ensures
            elapsed == self.elapsed,
    {
        self.elapsed
    }

    /// Whether the animation has reached its end.
    pub fn state(&self) -> (state: TweenState)
        ensures
            state == self.state_at(self.elapsed),
    {
        match self.total_duration {
            TotalDuration::Finite(total) => {
                if self.elapsed >= total {
                    TweenState::Completed
                } else {
                    TweenState::Active
                }
            },
            TotalDuration::Infinite => TweenState::Active,
        }
    }

    /// Sets the clock back to 0.
    pub fn reset(&mut self)
        ensures
            *final(self) == (AnimClock { elapsed: 0, ..*old(self) }),
    {
        self.elapsed = 0;
    }
}

/// The low 32 bits of a count, as a signed number.
pub fn signed(count: u32) -> (r: i32)
    ensures
        r == as_signed(count),
{
    if count < 0x8000_0000 {
        count as i32
    } else {
        (count - 0x8000_0000) as i32 - 0x4000_0000 - 0x4000_0000
    }
}

/// Tests whether a number is odd.
pub fn is_odd(x: i32) -> (odd: bool)
    ensures
        odd == (x as int % 2 != 0),
{
    if x >= 0 {
        x % 2 == 1
    } else {
        (-(x + 1)) % 2 == 0
    }
}

/// What a tick of an animation asks of its owner.
#[derive(Debug, Clone, Copy, PartialEq, Eq, Structural)]
pub struct Tick {
    /// Whether the animation still runs.
    pub state: TweenState,
    /// The animated value is to be set anew.
    pub applies: bool,
    /// A play has completed in this tick: the callback is due, if there is
    /// one.
    pub completed: bool,
    /// The notice to send.
    pub event: Option<TweenCompleted>,
}

/// The notice that an animation with the number `event_data` sends for
/// `entity` when a play has completed.
pub open spec fn notice(completed: bool, event_data: Option<u64>, entity: u64) -> Option<
    TweenCompleted,
> {
    match event_data {
        Some(user_data) => if completed {
            Some(TweenCompleted { entity, user_data })
        } else {
            None
        },
        None => None,
    }
}

/// The notice to send.
pub fn notice_for(completed: bool, event_data: Option<u64>, entity: u64) -> (event: Option<
    TweenCompleted,
>)
    ensures
        event == notice(completed, event_data, entity),
{
    match event_data {
        Some(user_data) => if completed {
            Some(TweenCompleted { entity, user_data })
        } else {
            None
        },
        None => None,
    }
}

/// One animation: its clock, its direction, and what it does when a play
/// completes. `C` is the callback that its owner keeps in it.
pub struct Tween<C> {
    clock: AnimClock,
    direction: TweeningDirection,
    on_completed: Option<C>,
    event_data: Option<u64>,
}

/// The plays that count for the direction of a mirrored animation: those
/// that have completed in a tick, but for the last one where the animation
/// has come to its end.
pub open spec fn turns(state: TweenState, times_completed: int) -> int {
    match state {
        TweenState::Active => times_completed,
        TweenState::Completed => if times_completed > 1 {
            times_completed - 1
        } else {
            0
        },
    }
}

impl<C> Tween<C> {
    /// The clock.
    pub closed spec fn clock(&self) -> AnimClock {
        self.clock
    }

    /// The direction.
    pub closed spec fn spec_direction(&self) -> TweeningDirection {
        self.direction
    }

    /// The callback, if there is one.
    pub closed spec fn spec_on_completed(&self) -> Option<C> {
        self.on_completed
    }

    /// The number that is sent with the notice, if one is sent.
    pub closed spec fn spec_event_data(&self) -> Option<u64> {
        self.event_data
    }

    /// The clock's times are times that can be measured.
    pub open spec fn wf(&self) -> bool {
        self.clock().wf()
    }

    /// An animation that plays once, forwards, and takes `duration`.
    pub fn new(duration: u128) -> (tween: Tween<C>)
        requires
            duration <= MAX_NANOS,
        ensures
            tween.clock() == (AnimClock {
                elapsed: 0,
                duration,
                total_duration: TotalDuration::Finite(duration),
                strategy: RepeatStrategy::Repeat,
            }),
            tween.spec_direction() == TweeningDirection::Forward,
            tween.spec_on_completed().is_none(),
            tween.spec_event_data().is_none(),
            tween.wf(),
    {
        Tween {
            clock: AnimClock::new(duration),
            direction: TweeningDirection::Forward,
            on_completed: None,
            event_data: None,
        }
    }

    /// This animation, sending a notice with `user_data` whenever a play
    /// completes.
    pub fn with_completed_event(self, user_data: u64) -> (tween: Tween<C>)
        ensures
            tween.clock() == self.clock(),
            tween.spec_direction() == self.spec_direction(),
            tween.spec_on_completed() == self.spec_on_completed(),
            tween.spec_event_data() == Some(user_data),
    {
        let mut tween = self;
        tween.event_data = Some(user_data);
        tween
    }

    /// This animation, with `callback` due whenever a play completes.
    pub fn with_completed(self, callback: C) -> (tween: Tween<C>)
        ensures
            tween.clock() == self.clock(),
            tween.spec_direction() == self.spec_direction(),
            tween.spec_on_completed() == Some(callback),
            tween.spec_event_data() == self.spec_event_data(),
    {
        let mut tween = self;
        tween.on_completed = Some(callback);
        tween
    }

    /// Sets the direction.
    pub fn set_direction(&mut self, direction: TweeningDirection)
        ensures
            final(self).clock() == old(self).clock(),
            final(self).spec_direction() == direction,
            final(self).spec_on_completed() == old(self).spec_on_completed(),
            final(self).spec_event_data() == old(self).spec_event_data(),
    {
        self.direction = direction;
    }

    /// This animation, playing in `direction`.
    pub fn with_direction(self, direction: TweeningDirection) -> (tween: Tween<C>)
        ensures
            tween.clock() == self.clock(),
            tween.spec_direction() == direction,
            tween.spec_on_completed() == self.spec_on_completed(),
            tween.spec_event_data() == self.spec_event_data(),
    {
        let mut tween = self;
        tween.direction = direction;
        tween
    }

    /// The direction.
    pub fn direction(&self) -> (direction: TweeningDirection)
        ensures
            direction == self.spec_direction(),
    {
        self.direction
    }

    /// This animation, playing as often as `count` says.
    pub fn with_repeat_count(self, count: RepeatCount) -> (tween: Tween<C>)
        requires
            self.wf(),
        ensures
            tween.clock() == (AnimClock {
                total_duration: spec_total_duration(self.clock().duration, count),
                ..self.clock()
            }),
            tween.spec_direction() == self.spec_direction(),
            tween.spec_on_completed() == self.spec_on_completed(),
            tween.spec_event_data() == self.spec_event_data(),
    {
        let mut tween = self;
        tween.clock.total_duration = compute_total_duration(tween.clock.duration, count);
        tween
    }

    /// This animation, doing between plays what `strategy` says.
    pub fn with_repeat_strategy(self, strategy: RepeatStrategy) -> (tween: Tween<C>)
        ensures
            tween.clock() == (AnimClock { strategy, ..self.clock() }),
            tween.spec_direction() == self.spec_direction(),
            tween.spec_on_completed() == self.spec_on_completed(),
            tween.spec_event_data() == self.spec_event_data(),
    {
        let mut tween = self;
        tween.clock.strategy = strategy;
        tween
    }

    /// Sets the callback that is due whenever a play completes.
    pub fn set_completed(&mut self, callback: C)
        ensures
            final(self).clock() == old(self).clock(),
            final(self).spec_direction() == old(self).spec_direction(),
            final(self).spec_on_completed() == Some(callback),
            final(self).spec_event_data() == old(self).spec_event_data(),
    {
        self.on_completed = Some(callback);
    }

    /// Takes the callback away.
    pub fn clear_completed(&mut self)
        ensures
            final(self).clock() == old(self).clock(),
            final(self).spec_direction() == old(self).spec_direction(),
            final(self).spec_on_completed().is_none(),
            final(self).spec_event_data() == old(self).spec_event_data(),
    {
        self.on_completed = None;
    }

    /// Has a notice with `user_data` sent whenever a play completes.
    pub fn set_completed_event(&mut self, user_data: u64)
        ensures
            final(self).clock() == old(self).clock(),
            final(self).spec_direction() == old(self).spec_direction(),
            final(self).spec_on_completed() == old(self).spec_on_completed(),
            final(self).spec_event_data() == Some(user_data),
    {
        self.event_data = Some(user_data);
    }

    /// Has no notice sent.
    pub fn clear_completed_event(&mut self)
        ensures
            final(self).clock() == old(self).clock(),
            final(self).spec_direction() == old(self).spec_direction(),
            final(self).spec_on_completed() == old(self).spec_on_completed(),
            final(self).spec_event_data().is_none(),
    {
        self.event_data = None;
    }

    /// The callback, if there is one.
    pub fn on_completed(&self) -> (callback: Option<&C>)
        ensures
            match callback {
                Some(found) => self.spec_on_completed() == Some(*found),
                None => self.spec_on_completed().is_none(),
            },
    {
        self.on_completed.as_ref()
    }

    /// The time that one play takes.
    pub fn duration(&self) -> (duration: u128)
        ensures
            duration == self.clock().duration,
    {
        self.clock.duration
    }

    /// The time that the animation runs in all.
    pub fn total_duration(&self) -> (total: TotalDuration)
        ensures
            total == self.clock().total_duration,
    {
        self.clock.total_duration
    }

    /// Sets the time that has run, as the clock's `set_elapsed` does.
    pub fn set_elapsed(&mut self, elapsed: u128)
        requires
            old(self).clock().duration > 0,
        ensures
            final(self).clock() == (AnimClock {
                elapsed: old(self).clock().clamped(elapsed),
                ..old(self).clock()
            }),
            final(self).spec_direction() == old(self).spec_direction(),
            final(self).spec_on_completed() == old(self).spec_on_completed(),
            final(self).spec_event_data() == old(self).spec_event_data(),
    {
        let _ = self.clock.set_elapsed(elapsed);
    }

    /// The time that has run.
    pub fn elapsed(&self) -> (elapsed: u128)
        ensures
            elapsed == self.clock().elapsed,
    {
        self.clock.elapsed()
    }

    /// Whether the animation has reached its end: its progress is then 1.
    pub fn state(&self) -> (state: TweenState)
        ensures
            state == self.clock().state_at(self.clock().elapsed),
    {
        self.clock.state()
    }

    /// The number of plays that have completed, in 32 bits.
    pub fn times_completed(&self) -> (times: u32)
        requires
            self.clock().duration > 0,
        ensures
            times == self.clock().spec_times_completed(),
    {
        self.clock.times_completed()
    }

    /// Moves the animation on by `delta`, for the entity `entity`.
    ///
    /// An animation that has reached its end stays as it is, and nothing is
    /// asked of the owner. Else the clock moves on, a mirrored animation
    /// turns round if an odd number of plays count for its direction, the
    /// animated value is to be set anew, and where a play has completed the
    /// notice and the callback are due.
    pub fn tick(&mut self, delta: u128, entity: u64) -> (tick: Tick)
        requires
            old(self).wf(),
            old(self).clock().duration > 0,
            delta <= MAX_NANOS,
        ensures
            final(self).spec_on_completed() == old(self).spec_on_completed(),
            final(self).spec_event_data() == old(self).spec_event_data(),
            final(self).wf(),
            old(self).clock().state_at(old(self).clock().elapsed) == TweenState::Completed ==> {
                &&& final(self).clock() == old(self).clock()
                &&& final(self).spec_direction() == old(self).spec_direction()
                &&& tick == (Tick {
                    state: TweenState::Completed,
                    applies: false,
                    completed: false,
                    event: None,
                })
            },
            old(self).clock().state_at(old(self).clock().elapsed) == TweenState::Active ==> {
                let run = spec_saturating_add(old(self).clock().elapsed, delta);
                let times = wrapped(
                    as_signed(final(self).clock().spec_times_completed()) - as_signed(
                        old(self).clock().spec_times_completed(),
                    ),
                );
                &&& final(self).clock() == (AnimClock {
                    elapsed: old(self).clock().clamped(run),
                    ..old(self).clock()
                })
                &&& tick.state == old(self).clock().state_at(run)
                &&& final(self).spec_direction() == (if old(self).clock().strategy
                    == RepeatStrategy::MirroredRepeat && turns(tick.state, times) % 2 != 0 {
                    old(self).spec_direction().spec_flipped()
                } else {
                    old(self).spec_direction()
                })
                &&& tick.applies
                &&& tick.completed == (times > 0)
                &&& tick.event == notice(times > 0, old(self).spec_event_data(), entity)
            },
    {
        match self.clock.state() {
            TweenState::Completed => {
                return Tick {
                    state: TweenState::Completed,
                    applies: false,
                    completed: false,
                    event: None,
                };
            },
            TweenState::Active => {},
        }
        let (state, times_completed) = self.clock.tick(delta);
        let for_direction = match state {
            TweenState::Active => times_completed,
            TweenState::Completed => if times_completed > 1 {
                times_completed - 1
            } else {
                0
            },
        };
        match self.clock.strategy {
            RepeatStrategy::MirroredRepeat => {
                if is_odd(for_direction) {
                    self.direction = self.direction.flipped();
                }
            },
            RepeatStrategy::Repeat => {},
        }
        let completed = times_completed > 0;
        Tick { state, applies: true, completed, event: notice_for(completed, self.event_data, entity) }
    }

    /// Takes the animation back to its start. A mirrored animation turns
    /// round if it has turned round an odd number of times: as often as
    /// plays have completed, but for the last one where the animation has
    /// come to its end. The number of plays is counted in 32 bits.
    pub fn rewind(&mut self)
        requires
            old(self).clock().duration > 0,
        ensures
            final(self).clock() == (AnimClock { elapsed: 0, ..old(self).clock() }),
            final(self).spec_on_completed() == old(self).spec_on_completed(),
            final(self).spec_event_data() == old(self).spec_event_data(),
            final(self).spec_direction() == (if old(self).clock().strategy
                == RepeatStrategy::MirroredRepeat && old(self).turns_made() % 2 != 0 {
                old(self).spec_direction().spec_flipped()
            } else {
                old(self).spec_direction()
            }),
    {
        match self.clock.strategy {
            RepeatStrategy::MirroredRepeat => {
                let mut times = self.clock.times_completed();
                match self.clock.state() {
                    TweenState::Completed => {
                        times = times.wrapping_sub(1);
                    },
                    TweenState::Active => {},
                }
                if times % 2 != 0 {
                    self.direction = self.direction.flipped();
                }
            },
            RepeatStrategy::Repeat => {},
        }
        self.clock.reset();
    }

    /// How often the animation has turned round since its start, in 32 bits.
    pub open spec fn turns_made(&self) -> int {
        let times = self.clock().spec_times_completed() as int;
        match self.clock().state_at(self.clock().elapsed) {
            TweenState::Active => times,
            TweenState::Completed => if times == 0 {
                0xffff_ffff
            } else {
                times - 1
            },
        }
    }
}

/// A pause: an animation that does nothing for a time. `C` is the callback
/// that its owner keeps in it.
pub struct Delay<C> {
    elapsed: u128,
    duration: u128,
    finished: bool,
    on_completed: Option<C>,
    event_data: Option<u64>,
}

impl<C> Delay<C> {
    /// The time that has run.
    pub closed spec fn spec_elapsed(&self) -> u128 {
        self.elapsed
    }

    /// The time that the pause takes.
    pub closed spec fn spec_duration(&self) -> u128 {
        self.duration
    }

    /// The pause is over.
    pub closed spec fn finished(&self) -> bool {
        self.finished
    }

    /// The callback, if there is one.
    pub closed spec fn spec_on_completed(&self) -> Option<C> {
        self.on_completed
    }

    /// The number that is sent with the notice, if one is sent.
    pub closed spec fn spec_event_data(&self) -> Option<u64> {
        self.event_data
    }

    /// The times of `self` and `other` are the same.
    pub open spec fn same_time(&self, other: &Delay<C>) -> bool {
        &&& self.spec_elapsed() == other.spec_elapsed()
        &&& self.spec_duration() == other.spec_duration()
        &&& self.finished() == other.finished()
    }

    /// A pause of `duration`, which is more than no time.
    pub fn new(duration: u128) -> (delay: Delay<C>)
        requires
            0 < duration <= MAX_NANOS,
        ensures
            delay.spec_elapsed() == 0,
            delay.spec_duration() == duration,
            !delay.finished(),
            delay.spec_on_completed().is_none(),
            delay.spec_event_data().is_none(),
    {
        Delay { elapsed: 0, duration, finished: false, on_completed: None, event_data: None }
    }

    /// This pause, sending a notice with `user_data` when it is over.
    pub fn with_completed_event(self, user_data: u64) -> (delay: Delay<C>)
        ensures
            delay.same_time(&self),
            delay.spec_on_completed() == self.spec_on_completed(),
            delay.spec_event_data() == Some(user_data),
    {
        let mut delay = self;
        delay.event_data = Some(user_data);
        delay
    }

    /// This pause, with `callback` due when it is over.
    pub fn with_completed(self, callback: C) -> (delay: Delay<C>)
        ensures
            delay.same_time(&self),
            delay.spec_on_completed() == Some(callback),
            delay.spec_event_data() == self.spec_event_data(),
    {
        let mut delay = self;
        delay.on_completed = Some(callback);
        delay
    }

    /// The pause is over.
    pub fn is_completed(&self) -> (over: bool)
        ensures
            over == self.finished(),
    {
        self.finished
    }

    /// Whether the pause still runs.
    pub fn state(&self) -> (state: TweenState)
        ensures
            state == (if self.finished() {
                TweenState::Completed
            } else {
                TweenState::Active
            }),
    {
        if self.is_completed() {
            TweenState::Completed
        } else {
            TweenState::Active
        }
    }

    /// Sets the callback that is due when the pause is over.
    pub fn set_completed(&mut self, callback: C)
        ensures
            final(self).same_time(old(self)),
            final(self).spec_on_completed() == Some(callback),
            final(self).spec_event_data() == old(self).spec_event_data(),
    {
        self.on_completed = Some(callback);
    }

    /// Takes the callback away.
    pub fn clear_completed(&mut self)
        ensures
            final(self).same_time(old(self)),
            final(self).spec_on_completed().is_none(),
            final(self).spec_event_data() == old(self).spec_event_data(),
    {
        self.on_completed = None;
    }

    /// Has a notice with `user_data` sent when the pause is over.
    pub fn set_completed_event(&mut self, user_data: u64)
        ensures
            final(self).same_time(old(self)),
            final(self).spec_on_completed() == old(self).spec_on_completed(),
            final(self).spec_event_data() == Some(user_data),
    {
        self.event_data = Some(user_data);
    }

    /// Has no notice sent.
    pub fn clear_completed_event(&mut self)
        ensures
            final(self).same_time(old(self)),
            final(self).spec_on_completed() == old(self).spec_on_completed(),
            final(self).spec_event_data().is_none(),
    {
        self.event_data = None;
    }

    /// The callback, if there is one.
    pub fn on_completed(&self) -> (callback: Option<&C>)
        ensures
            match callback {
                Some(found) => self.spec_on_completed() == Some(*found),
                None => self.spec_on_completed().is_none(),
            },
    {
        self.on_completed.as_ref()
    }

    /// The time that the pause takes.
    pub fn duration(&self) -> (duration: u128)
        ensures
            duration == self.spec_duration(),
    {
        self.duration
    }

    /// The time that the pause runs in all: the time that it takes.
    pub fn total_duration(&self) -> (total: TotalDuration)
        ensures
            total == TotalDuration::Finite(self.spec_duration()),
    {
        TotalDuration::Finite(self.duration)
    }

    /// The time that has run.
    pub fn elapsed(&self) -> (elapsed: u128)
        ensures
            elapsed == self.spec_elapsed(),
    {
        self.elapsed
    }

    /// Sets the time that has run to `elapsed`, or to the time that the
    /// pause takes where `elapsed` is no less: the pause is then over.
    pub fn set_elapsed(&mut self, elapsed: u128)
        ensures
            final(self).spec_duration() == old(self).spec_duration(),
            final(self).finished() == (elapsed >= old(self).spec_duration()),
            final(self).spec_elapsed() == (if elapsed >= old(self).spec_duration() {
                old(self).spec_duration()
            } else {
                elapsed
            }),
            final(self).spec_on_completed() == old(self).spec_on_completed(),
            final(self).spec_event_data() == old(self).spec_event_data(),
    {
        self.finished = elapsed >= self.duration;
        self.elapsed = if self.finished {
            self.duration
        } else {
            elapsed
        };
    }

    /// Moves the pause on by `delta`, for the entity `entity`. A pause that
    /// is over stays as it is. When the pause comes to its end, the notice
    /// and the callback are due.
    pub fn tick(&mut self, delta: u128, entity: u64) -> (tick: Tick)
        requires
            old(self).finished() || old(self).spec_elapsed() + delta <= MAX_NANOS,
        ensures
            final(self).spec_duration() == old(self).spec_duration(),
            final(self).spec_on_completed() == old(self).spec_on_completed(),
            final(self).spec_event_data() == old(self).spec_event_data(),
            old(self).finished() ==> final(self).same_time(old(self)),
            !old(self).finished() ==> {
                let run = old(self).spec_elapsed() + delta;
                &&& final(self).finished() == (run >= old(self).spec_duration())
                &&& final(self).spec_elapsed() == (if run >= old(self).spec_duration() {
                    old(self).spec_duration() as int
                } else {
                    run
                })
            },
            tick == (Tick {
                state: if final(self).finished() {
                    TweenState::Completed
                } else {
                    TweenState::Active
                },
                applies: false,
                completed: final(self).finished() && !old(self).finished(),
                event: notice(
                    final(self).finished() && !old(self).finished(),
                    old(self).spec_event_data(),
                    entity,
                ),
            }),
    {
        let was_completed = self.is_completed();
        if !self.finished {
            let run = self.elapsed + delta;
            self.finished = run >= self.duration;
            self.elapsed = if self.finished {
                self.duration
            } else {
                run
            };
        }
        let state = self.state();
        let completed = self.finished && !was_completed;
        Tick { state, applies: false, completed, event: notice_for(completed, self.event_data, entity) }
    }

    /// Takes the pause back to its start.
    pub fn rewind(&mut self)
        ensures
            final(self).spec_elapsed() == 0,
            !final(self).finished(),
            final(self).spec_duration() == old(self).spec_duration(),
            final(self).spec_on_completed() == old(self).spec_on_completed(),
            final(self).spec_event_data() == old(self).spec_event_data(),
    {
        self.elapsed = 0;
        self.finished = false;
    }
}

} // verus!
