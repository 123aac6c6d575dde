use rahgozar::schedule::{
    adapt_interval, IDLE_BACKOFF_STEP_MS, MAX_IDLE_INTERVAL_MS, PIPELINE_INTERVAL_MS,
};

#[test]
fn poll_adapt_interval_resets_on_work() {
    let mut streak = 5;
    let next = adapt_interval(300, true, &mut streak);
    assert_eq!(next, PIPELINE_INTERVAL_MS);
    assert_eq!(streak, 0);
}

#[test]
fn poll_adapt_interval_ramps_on_empty() {
    let mut streak = 0;
    let n1 = adapt_interval(300, false, &mut streak);
    assert_eq!(streak, 1);
    assert_eq!(n1, 300 + IDLE_BACKOFF_STEP_MS);
    let n2 = adapt_interval(300, false, &mut streak);
    assert_eq!(streak, 2);
    assert_eq!(n2, 300 + 2 * IDLE_BACKOFF_STEP_MS);
}

#[test]
fn poll_adapt_interval_caps_at_max_idle() {
    let mut streak = 0;
    for _ in 0..100 {
        let v = adapt_interval(300, false, &mut streak);
        assert!(v <= MAX_IDLE_INTERVAL_MS, "exceeded cap: {}", v);
    }
    assert_eq!(
        adapt_interval(300, false, &mut streak),
        MAX_IDLE_INTERVAL_MS
    );
}

#[test]
fn adapt_interval_does_not_underflow_with_zero_baseline() {
    let mut streak = 0;
    let v = adapt_interval(0, false, &mut streak);
    assert_eq!(v, IDLE_BACKOFF_STEP_MS);
    let v = adapt_interval(0, true, &mut streak);
    assert_eq!(v, PIPELINE_INTERVAL_MS);
}

#[test]
fn adapt_interval_pipeline_does_not_grow_streak() {
    let mut streak = 7;
    let _ = adapt_interval(300, true, &mut streak);
    assert_eq!(streak, 0, "found_work resets the streak");
}

#[test]
fn drive_client_adapt_interval_resets_on_work() {
    let mut streak = 5;
    let next = adapt_interval(300, true, &mut streak);
    assert_eq!(next, PIPELINE_INTERVAL_MS);
    assert_eq!(streak, 0);
}

#[test]
fn drive_client_adapt_interval_ramps_on_empty() {
    let mut streak = 0;
    let n1 = adapt_interval(300, false, &mut streak);
    assert_eq!(streak, 1);
    assert_eq!(n1, 300 + IDLE_BACKOFF_STEP_MS);
    let n2 = adapt_interval(300, false, &mut streak);
    assert_eq!(streak, 2);
    assert_eq!(n2, 300 + 2 * IDLE_BACKOFF_STEP_MS);
}

#[test]
fn drive_client_adapt_interval_caps_at_max_idle() {
    let mut streak = 0;
    for _ in 0..100 {
        let v = adapt_interval(300, false, &mut streak);
        assert!(v <= MAX_IDLE_INTERVAL_MS, "exceeded cap: {}", v);
    }
    assert_eq!(
        adapt_interval(300, false, &mut streak),
        MAX_IDLE_INTERVAL_MS
    );
}

#[test]
fn extreme_values_saturate() {
    let mut streak = u64::MAX;
    assert_eq!(adapt_interval(u64::MAX, false, &mut streak), MAX_IDLE_INTERVAL_MS);
    assert_eq!(streak, u64::MAX);
}
