//! The adaptive polling interval that relay and client share.
use vstd::prelude::*;

verus! {

/// Sleep after a cycle that found work.
pub const PIPELINE_INTERVAL_MS: u64 = 100;

/// What each empty cycle adds to the next sleep.
pub const IDLE_BACKOFF_STEP_MS: u64 = 200;

/// The longest idle sleep.
pub const MAX_IDLE_INTERVAL_MS: u64 = 5000;

/// The sleep after `streak` empty cycles in a row.
pub open spec fn idle_interval(baseline_ms: nat, streak: nat) -> nat {
    let ramp = baseline_ms + IDLE_BACKOFF_STEP_MS as nat * streak;
    if ramp < MAX_IDLE_INTERVAL_MS {
        ramp
    } else {
        MAX_IDLE_INTERVAL_MS as nat
    }
}

/// The count of empty cycles after one more cycle.
pub open spec fn next_streak(found_work: bool, streak: u64) -> u64 {
    if found_work {
        0
    } else if streak == u64::MAX {
        streak
    } else {
        (streak + 1) as u64
    }
}

/// The sleep after a cycle, by the count of empty cycles that it leaves.
pub open spec fn sleep(baseline_ms: nat, found_work: bool, streak: nat) -> nat {
    if found_work {
        PIPELINE_INTERVAL_MS as nat
    } else {
        idle_interval(baseline_ms, streak)
    }
}

/// The next sleep: short after work, otherwise the baseline plus a step for
/// every empty cycle in a row, up to a cap.
pub fn adapt_interval(baseline_ms: u64, found_work: bool, empty_streak: &mut u64) -> (interval: u64)
    ensures
        *final(empty_streak) == next_streak(found_work, *old(empty_streak)),
        interval == sleep(baseline_ms as nat, found_work, *final(empty_streak) as nat),
{
    if found_work {
        *empty_streak = 0;
        PIPELINE_INTERVAL_MS
    } else {
        *empty_streak = empty_streak.saturating_add(1);
        let streak: u128 = *empty_streak as u128;
        assert(IDLE_BACKOFF_STEP_MS * streak == 200 * streak);
        let ramp: u128 = baseline_ms as u128 + (IDLE_BACKOFF_STEP_MS as u128) * streak;
        if ramp < MAX_IDLE_INTERVAL_MS as u128 {
            ramp as u64
        } else {
            MAX_IDLE_INTERVAL_MS
        }
    }
}

/// The count of empty cycles after `n` of them, from a cycle that found work.
pub open spec fn streak_after(n: nat) -> u64
    decreases n,
{
    if n == 0 {
        next_streak(true, 0)
    } else {
        next_streak(false, streak_after((n - 1) as nat))
    }
}

/// The sleep never exceeds the cap.
pub proof fn law_idle_interval_capped(baseline_ms: nat, streak: nat)
    ensures
        idle_interval(baseline_ms, streak) <= MAX_IDLE_INTERVAL_MS,
{
}

/// Staying idle never shortens the sleep.
pub proof fn law_idle_interval_monotone(baseline_ms: nat, a: nat, b: nat)
    requires
        a <= b,
    ensures
        idle_interval(baseline_ms, a) <= idle_interval(baseline_ms, b),
{
    assert(IDLE_BACKOFF_STEP_MS as nat * a <= IDLE_BACKOFF_STEP_MS as nat * b) by (nonlinear_arith)
        requires
            a <= b,
    ;
}

/// After `n` empty cycles in a row the count is `n`, whatever went before, so
/// one cycle with work resets the ramp.
pub proof fn law_streak_counts_empty_cycles(n: nat)
    requires
        n <= u64::MAX,
    ensures
        streak_after(n) == n,
    decreases n,
{
    if n > 0 {
        law_streak_counts_empty_cycles((n - 1) as nat);
    }
}

/// A cycle that found work is followed by the next one after 100 ms, whatever
/// the baseline, and starts the count of empty cycles again.
pub proof fn law_work_is_followed_at_once(baseline_ms: nat, streak: u64, later: nat)
    ensures
        sleep(baseline_ms, true, later) == 100,
        next_streak(true, streak) == 0,
        sleep(baseline_ms, false, next_streak(false, next_streak(true, streak)) as nat) == (
        if baseline_ms + 200 < 5000 {
            baseline_ms + 200
        } else {
            5000nat
        }),
{
}

/// The `n`-th empty cycle in a row is followed by a sleep of the baseline and
/// 200 ms for each of these cycles, and of 5 s at most.
pub proof fn law_idle_sleep_grows_evenly(baseline_ms: nat, n: nat)
    requires
        n <= u64::MAX,
    ensures
        baseline_ms + 200 * n <= 5000 ==> sleep(baseline_ms, false, streak_after(n) as nat)
            == baseline_ms + 200 * n,
        baseline_ms + 200 * n >= 5000 ==> sleep(baseline_ms, false, streak_after(n) as nat) == 5000,
{
    law_streak_counts_empty_cycles(n);
}

} // verus!
