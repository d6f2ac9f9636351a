//! Clocks for animations: how far an animation has run, how often it has
//! completed, in which direction it plays, and when it is over. Times are
//! whole nanoseconds.

pub mod group;
pub mod tweenable;

use vstd::prelude::*;

verus! {

/// The longest time that can be measured, in nanoseconds: 2^64 - 1 seconds
/// and 999 999 999 nanoseconds.
pub const MAX_NANOS: u128 = 18_446_744_073_709_551_615_999_999_999;

/// The sum of two times, or the longest time where the sum is longer.
pub open spec fn spec_saturating_add(a: u128, b: u128) -> u128 {
    if a + b <= MAX_NANOS {
        (a + b) as u128
    } else {
        MAX_NANOS
    }
}

/// A time taken a number of times, or the longest time where that is longer.
pub open spec fn spec_saturating_mul(a: u128, times: u32) -> u128 {
    if a * times <= MAX_NANOS {
        (a * times) as u128
    } else {
        MAX_NANOS
    }
}

/// The sum of two times, or the longest time where the sum is longer.
pub fn saturating_add(a: u128, b: u128) -> (sum: u128)
    requires
        a <= MAX_NANOS,
        b <= MAX_NANOS,
    ensures
        sum == spec_saturating_add(a, b),
        sum <= MAX_NANOS,
{
    if a + b <= MAX_NANOS {
        a + b
    } else {
        MAX_NANOS
    }
}

/// A time taken a number of times, or the longest time where that is longer.
pub fn saturating_mul(a: u128, times: u32) -> (product: u128)
    requires
        a <= MAX_NANOS,
    ensures
        product == spec_saturating_mul(a, times),
        product <= MAX_NANOS,
{
    assert(a * times <= MAX_NANOS * 0xffff_ffff) by (nonlinear_arith)
        requires
            a <= MAX_NANOS,
            times <= 0xffff_ffff,
    ;
    let wide = a * (times as u128);
    if wide <= MAX_NANOS {
        wide
    } else {
        MAX_NANOS
    }
}

/// How often an animation plays.
#[derive(Debug, Clone, Copy, PartialEq, Eq, Structural)]
pub enum RepeatCount {
    /// A number of times.
    Finite(u32),
    /// For a time, in nanoseconds.
    For(u128),
    /// Without end.
    Infinite,
}

/// What an animation does when it has played once and plays again.
#[derive(Debug, Clone, Copy, PartialEq, Eq, Structural)]
pub enum RepeatStrategy {
    /// It starts over.
    Repeat,
    /// It plays backwards, then forwards again, and so on.
    MirroredRepeat,
}

/// The direction in which an animation plays.
#[derive(Debug, Clone, Copy, PartialEq, Eq, Structural)]
pub enum TweeningDirection {
    /// From its start to its end.
    Forward,
    /// From its end to its start.
    Backward,
}

impl TweeningDirection {
    /// The other direction.
    pub open spec fn spec_flipped(self) -> TweeningDirection {
        match self {
            TweeningDirection::Forward => TweeningDirection::Backward,
            TweeningDirection::Backward => TweeningDirection::Forward,
        }
    }

    /// The other direction.
    #[verifier::when_used_as_spec(spec_flipped)]
    pub fn flipped(self) -> (r: TweeningDirection)
        ensures
            r == self.spec_flipped(),
    {
        match self {
            TweeningDirection::Forward => TweeningDirection::Backward,
            TweeningDirection::Backward => TweeningDirection::Forward,
        }
    }

    /// The direction is forward.
    pub fn is_forward(&self) -> (r: bool)
        ensures
            r == (*self == TweeningDirection::Forward),
    {
        match self {
            TweeningDirection::Forward => true,
            TweeningDirection::Backward => false,
        }
    }

    /// The direction is backward.
    pub fn is_backward(&self) -> (r: bool)
        ensures
            r == (*self == TweeningDirection::Backward),
    {
        match self {
            TweeningDirection::Forward => false,
            TweeningDirection::Backward => true,
        }
    }
}

} // verus!
