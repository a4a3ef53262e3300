use pgwire::retry::{backoff_ms, max_retries, next_step, RetryStep};

#[test]
fn backoff_doubles_from_one_hundred() {
    assert_eq!(backoff_ms(0), 100);
    assert_eq!(backoff_ms(1), 200);
    assert_eq!(backoff_ms(4), 1600);
    assert_eq!(backoff_ms(32), 100 * (1u64 << 32));
}

#[test]
fn queries_are_retried_five_times() {
    assert_eq!(max_retries(true), 5);
    assert_eq!(max_retries(false), 0);
}

#[test]
fn retry_steps() {
    assert_eq!(next_step(0, 5, true), RetryStep::Done);
    assert_eq!(next_step(0, 5, false), RetryStep::Sleep(100));
    assert_eq!(next_step(4, 5, false), RetryStep::Sleep(1600));
    assert_eq!(next_step(5, 5, false), RetryStep::GiveUp);
    assert_eq!(next_step(0, 0, false), RetryStep::GiveUp);
}
