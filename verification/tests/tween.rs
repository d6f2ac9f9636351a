use std::time::Duration;

use bevy::time::{Timer, TimerMode};
use gamekit::tween::tweenable::{
    compute_total_duration, is_odd, notice_for, signed, AnimClock, Delay, Tick, TotalDuration,
    Tween, TweenCompleted, TweenState,
};
use gamekit::tween::{
    saturating_add, saturating_mul, RepeatCount, RepeatStrategy, TweeningDirection, MAX_NANOS,
};

const SECOND: u128 = 1_000_000_000;

fn duration(nanos: u128) -> Duration {
    Duration::new((nanos / SECOND) as u64, (nanos % SECOND) as u32)
}

#[test]
fn the_longest_time_is_that_of_the_standard_library() {
    assert_eq!(MAX_NANOS, Duration::MAX.as_nanos());
}

#[test]
fn times_add_and_multiply_as_durations_do() {
    let times = [0, 1, 999_999_999, SECOND, 3 * SECOND / 2, MAX_NANOS / 2, MAX_NANOS - 1, MAX_NANOS];
    for a in times {
        for b in times {
            assert_eq!(saturating_add(a, b), duration(a).saturating_add(duration(b)).as_nanos());
        }
        for k in [0u32, 1, 2, 3, 1000, u32::MAX] {
            assert_eq!(saturating_mul(a, k), duration(a).saturating_mul(k).as_nanos());
        }
    }
    assert_eq!(saturating_add(SECOND, 2 * SECOND), 3 * SECOND);
    assert_eq!(saturating_add(MAX_NANOS, 1), MAX_NANOS);
    assert_eq!(saturating_mul(SECOND, 3), 3 * SECOND);
    assert_eq!(saturating_mul(MAX_NANOS / 2 + 1, 2), MAX_NANOS);
}

#[test]
fn total_duration_follows_the_repeat_count() {
    assert_eq!(compute_total_duration(SECOND, RepeatCount::Finite(3)), TotalDuration::Finite(3 * SECOND));
    assert_eq!(compute_total_duration(SECOND, RepeatCount::Finite(0)), TotalDuration::Finite(0));
    assert_eq!(compute_total_duration(SECOND, RepeatCount::For(5)), TotalDuration::Finite(5));
    assert_eq!(compute_total_duration(SECOND, RepeatCount::Infinite), TotalDuration::Infinite);
    assert_eq!(
        compute_total_duration(MAX_NANOS, RepeatCount::Finite(2)),
        TotalDuration::Finite(MAX_NANOS)
    );
}

#[test]
fn signed_reads_the_bits_as_a_signed_number() {
    for count in [0u32, 1, 2, 0x7fff_ffff, 0x8000_0000, 0x8000_0001, u32::MAX] {
        assert_eq!(signed(count), count as i32);
    }
    for x in [0i32, 1, 2, 3, -1, -2, -3, i32::MAX, i32::MIN, i32::MIN + 1] {
        assert_eq!(is_odd(x), x & 1 != 0);
    }
}

#[test]
fn a_new_clock_plays_once() {
    let clock = AnimClock::new(SECOND);
    assert_eq!(clock.elapsed(), 0);
    assert_eq!(clock.duration, SECOND);
    assert_eq!(clock.total_duration, TotalDuration::Finite(SECOND));
    assert_eq!(clock.strategy, RepeatStrategy::Repeat);
    assert_eq!(clock.state(), TweenState::Active);
    assert_eq!(clock.times_completed(), 0);
}

#[test]
fn a_clock_counts_the_plays_that_complete() {
    let mut clock = AnimClock::new(SECOND);
    clock.total_duration = compute_total_duration(SECOND, RepeatCount::Finite(5));
    assert_eq!(clock.tick(SECOND / 2), (TweenState::Active, 0));
    assert_eq!(clock.tick(SECOND / 2), (TweenState::Active, 1));
    assert_eq!(clock.tick(5 * SECOND / 2), (TweenState::Active, 2));
    assert_eq!(clock.elapsed(), 7 * SECOND / 2);
    assert_eq!(clock.times_completed(), 3);
    assert_eq!(clock.tick(10 * SECOND), (TweenState::Completed, 2));
    assert_eq!(clock.elapsed(), 5 * SECOND);
    assert_eq!(clock.state(), TweenState::Completed);
    assert_eq!(clock.set_elapsed(SECOND), (TweenState::Active, -4));
    clock.reset();
    assert_eq!(clock.elapsed(), 0);
    assert_eq!(clock.duration, SECOND);
}

#[test]
fn a_clock_without_end_stays_active() {
    let mut clock = AnimClock::new(SECOND);
    clock.total_duration = TotalDuration::Infinite;
    assert_eq!(clock.tick(100 * SECOND), (TweenState::Active, 100));
    assert_eq!(clock.tick(MAX_NANOS), (TweenState::Active, signed(((MAX_NANOS / SECOND) % (1 << 32)) as u32).wrapping_sub(100)));
    assert_eq!(clock.elapsed(), MAX_NANOS);
    assert_eq!(clock.state(), TweenState::Active);
}

#[test]
fn a_clock_counts_in_32_bits() {
    let mut clock = AnimClock::new(1);
    clock.total_duration = TotalDuration::Infinite;
    assert_eq!(clock.set_elapsed(0x7fff_ffff), (TweenState::Active, i32::MAX));
    assert_eq!(clock.set_elapsed(0x8000_0000), (TweenState::Active, 1));
    assert_eq!(clock.times_completed(), 0x8000_0000);
    assert_eq!(clock.set_elapsed(0x1_0000_0005), (TweenState::Active, 5i32.wrapping_sub(i32::MIN)));
    assert_eq!(clock.times_completed(), 5);
}

type Plain = Tween<()>;

#[test]
fn a_tween_plays_once_forwards_by_default() {
    let mut tween = Plain::new(SECOND);
    assert_eq!(tween.duration(), SECOND);
    assert_eq!(tween.total_duration(), TotalDuration::Finite(SECOND));
    assert_eq!(tween.direction(), TweeningDirection::Forward);
    assert!(tween.on_completed().is_none());
    let tick = tween.tick(SECOND / 4, 7);
    assert_eq!(
        tick,
        Tick { state: TweenState::Active, applies: true, completed: false, event: None }
    );
    assert_eq!(tween.elapsed(), SECOND / 4);
    let tick = tween.tick(SECOND, 7);
    assert_eq!(
        tick,
        Tick { state: TweenState::Completed, applies: true, completed: true, event: None }
    );
    assert_eq!(tween.elapsed(), SECOND);
    assert_eq!(tween.times_completed(), 1);
    assert_eq!(tween.state(), TweenState::Completed);
    let tick = tween.tick(SECOND, 7);
    assert_eq!(
        tick,
        Tick { state: TweenState::Completed, applies: false, completed: false, event: None }
    );
    assert_eq!(tween.elapsed(), SECOND);
}

#[test]
fn a_tween_sends_its_notice_when_a_play_completes() {
    let mut tween = Plain::new(SECOND)
        .with_repeat_count(RepeatCount::Finite(2))
        .with_completed_event(42)
        .with_completed(());
    assert!(tween.on_completed().is_some());
    assert_eq!(tween.tick(SECOND / 2, 9).event, None);
    let tick = tween.tick(SECOND / 2, 9);
    assert_eq!(tick.event, Some(TweenCompleted { entity: 9, user_data: 42 }));
    assert!(tick.completed);
    assert_eq!(tick.state, TweenState::Active);
    tween.clear_completed_event();
    let tick = tween.tick(SECOND, 9);
    assert_eq!(tick.event, None);
    assert!(tick.completed);
    assert_eq!(tick.state, TweenState::Completed);
    tween.set_completed_event(1);
    tween.clear_completed();
    assert!(tween.on_completed().is_none());
    tween.set_completed(());
    assert!(tween.on_completed().is_some());
    assert_eq!(notice_for(true, Some(1), 2), Some(TweenCompleted { entity: 2, user_data: 1 }));
    assert_eq!(notice_for(false, Some(1), 2), None);
    assert_eq!(notice_for(true, None, 2), None);
}

#[test]
fn a_mirrored_tween_turns_round_after_each_play() {
    let mut tween = Plain::new(SECOND)
        .with_repeat_count(RepeatCount::Finite(4))
        .with_repeat_strategy(RepeatStrategy::MirroredRepeat);
    tween.tick(SECOND / 2, 0);
    assert_eq!(tween.direction(), TweeningDirection::Forward);
    tween.tick(SECOND, 0);
    assert_eq!(tween.direction(), TweeningDirection::Backward);
    tween.tick(2 * SECOND, 0);
    assert_eq!(tween.direction(), TweeningDirection::Backward);
    let tick = tween.tick(SECOND, 0);
    assert_eq!(tick.state, TweenState::Completed);
    assert_eq!(tween.direction(), TweeningDirection::Backward);
    assert_eq!(tween.times_completed(), 4);
    tween.rewind();
    assert_eq!(tween.direction(), TweeningDirection::Forward);
    assert_eq!(tween.elapsed(), 0);
}

#[test]
fn a_mirrored_tween_ignores_the_play_that_ends_it() {
    let mut tween = Plain::new(SECOND)
        .with_repeat_count(RepeatCount::Finite(2))
        .with_repeat_strategy(RepeatStrategy::MirroredRepeat);
    let tick = tween.tick(5 * SECOND, 0);
    assert_eq!(tick.state, TweenState::Completed);
    assert_eq!(tween.direction(), TweeningDirection::Backward);
    tween.rewind();
    assert_eq!(tween.direction(), TweeningDirection::Forward);
    let mut once = Plain::new(SECOND).with_repeat_strategy(RepeatStrategy::MirroredRepeat);
    once.tick(SECOND, 0);
    assert_eq!(once.direction(), TweeningDirection::Forward);
    once.rewind();
    assert_eq!(once.direction(), TweeningDirection::Forward);
}

#[test]
fn a_repeating_tween_keeps_its_direction() {
    let mut tween = Plain::new(SECOND)
        .with_repeat_count(RepeatCount::Infinite)
        .with_direction(TweeningDirection::Backward);
    tween.tick(3 * SECOND, 0);
    assert_eq!(tween.direction(), TweeningDirection::Backward);
    tween.rewind();
    assert_eq!(tween.direction(), TweeningDirection::Backward);
    tween.set_direction(TweeningDirection::Forward);
    assert!(tween.direction().is_forward());
    assert!(!tween.direction().is_backward());
    assert_eq!(tween.direction().flipped(), TweeningDirection::Backward);
}

#[test]
fn a_tween_can_be_set_to_a_time() {
    let mut tween = Plain::new(SECOND).with_repeat_count(RepeatCount::For(5 * SECOND / 2));
    tween.set_elapsed(2 * SECOND);
    assert_eq!(tween.elapsed(), 2 * SECOND);
    assert_eq!(tween.state(), TweenState::Active);
    tween.set_elapsed(3 * SECOND);
    assert_eq!(tween.elapsed(), 5 * SECOND / 2);
    assert_eq!(tween.state(), TweenState::Completed);
    assert_eq!(tween.times_completed(), 2);
}

#[test]
fn a_delay_is_over_after_its_time() {
    let mut delay: Delay<()> = Delay::new(SECOND).with_completed_event(5).with_completed(());
    assert_eq!(delay.duration(), SECOND);
    assert_eq!(delay.total_duration(), TotalDuration::Finite(SECOND));
    assert!(!delay.is_completed());
    assert_eq!(delay.state(), TweenState::Active);
    let tick = delay.tick(SECOND / 2, 3);
    assert_eq!(tick, Tick { state: TweenState::Active, applies: false, completed: false, event: None });
    let tick = delay.tick(SECOND, 3);
    assert_eq!(
        tick,
        Tick {
            state: TweenState::Completed,
            applies: false,
            completed: true,
            event: Some(TweenCompleted { entity: 3, user_data: 5 }),
        }
    );
    assert_eq!(delay.elapsed(), SECOND);
    assert!(delay.is_completed());
    let tick = delay.tick(SECOND, 3);
    assert_eq!(tick, Tick { state: TweenState::Completed, applies: false, completed: false, event: None });
    delay.rewind();
    assert_eq!(delay.elapsed(), 0);
    assert!(!delay.is_completed());
    delay.clear_completed_event();
    delay.clear_completed();
    assert!(delay.on_completed().is_none());
    assert_eq!(delay.tick(SECOND, 3).event, None);
    delay.set_completed_event(8);
    delay.set_completed(());
    delay.set_elapsed(SECOND / 2);
    assert_eq!(delay.state(), TweenState::Active);
    assert_eq!(delay.tick(SECOND, 4).event, Some(TweenCompleted { entity: 4, user_data: 8 }));
}

#[test]
fn a_delay_keeps_time_as_a_timer_that_runs_once() {
    let steps: [u128; 9] = [0, 1, SECOND / 3, SECOND / 3, SECOND / 3, 1, 2 * SECOND, 0, 5];
    for length in [1u128, SECOND / 2, SECOND, SECOND + 1, 10 * SECOND] {
        let mut delay: Delay<()> = Delay::new(length);
        let mut timer = Timer::new(duration(length), TimerMode::Once);
        for step in steps {
            let was = timer.finished();
            timer.tick(duration(step));
            let tick = delay.tick(step, 0);
            assert_eq!(delay.elapsed(), timer.elapsed().as_nanos());
            assert_eq!(delay.is_completed(), timer.finished());
            assert_eq!(tick.completed, timer.finished() && !was);
        }
        for set in [0u128, 1, length - 1, length, length + 1, 100 * SECOND] {
            timer.reset();
            timer.set_elapsed(duration(set));
            timer.tick(Duration::ZERO);
            delay.set_elapsed(set);
            assert_eq!(delay.elapsed(), timer.elapsed().as_nanos());
            assert_eq!(delay.is_completed(), timer.finished());
        }
        timer.reset();
        delay.rewind();
        assert_eq!(delay.elapsed(), timer.elapsed().as_nanos());
        assert_eq!(delay.is_completed(), timer.finished());
    }
}
