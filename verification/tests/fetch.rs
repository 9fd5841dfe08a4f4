use hyprsnipe_checker::fetch::{
    Decision, Outcome, RetryReason, RetryState, RATE_LIMITED, RETRY_DELAY_MS,
};

#[test]
fn a_fetch_begins_with_nothing_repeated() {
    let state = RetryState::new();
    assert_eq!(state.retry_count, 0);
    assert_eq!(state.retry_delay_ms, 1000);
    assert_eq!(RETRY_DELAY_MS, 1000);
    assert_eq!(RATE_LIMITED, 429);
}

#[test]
fn two_rate_limits_then_a_status() {
    let mut state = RetryState::new();
    let mut delays: Vec<u64> = Vec::new();
    let mut last = None;
    for status in [429u16, 429, 200] {
        match state.on_outcome(Outcome::Status(status)) {
            Decision::Retry { attempt, delay_ms, reason } => {
                assert_eq!(attempt as usize, delays.len() + 1);
                assert_eq!(reason, RetryReason::RateLimited);
                delays.push(delay_ms);
            },
            other => last = Some(other),
        }
    }
    assert_eq!(delays, vec![1000, 1000]);
    assert_eq!(last, Some(Decision::Done { status: 200 }));
    assert_eq!(state.retry_count, 2);
}

#[test]
fn every_other_status_ends_the_fetch() {
    for status in [100u16, 200, 301, 400, 404, 428, 430, 500, 503, 999] {
        let mut state = RetryState::new();
        assert_eq!(state.on_outcome(Outcome::Status(status)), Decision::Done { status });
        assert_eq!(state, RetryState::new());
    }
}

#[test]
fn timeouts_and_failed_connections_are_repeated_without_end() {
    let mut state = RetryState::new();
    let transient = [
        Outcome::Transport { timeout: true, connect: false },
        Outcome::Transport { timeout: false, connect: true },
        Outcome::Transport { timeout: true, connect: true },
    ];
    for round in 0..1000u32 {
        let outcome = transient[(round % 3) as usize];
        assert!(outcome.transient());
        assert_eq!(
            state.on_outcome(outcome),
            Decision::Retry {
                attempt: round + 1,
                delay_ms: 1000,
                reason: RetryReason::Unreachable
            }
        );
    }
    assert_eq!(state.retry_count, 1000);
    assert_eq!(state.on_outcome(Outcome::Status(503)), Decision::Done { status: 503 });
}

#[test]
fn any_other_failure_is_final() {
    let mut state = RetryState::new();
    let outcome = Outcome::Transport { timeout: false, connect: false };
    assert!(!outcome.transient());
    assert_eq!(state.on_outcome(outcome), Decision::Fail);
    assert_eq!(state.retry_count, 0);
}

#[test]
fn a_failure_after_retries_is_still_final() {
    let mut state = RetryState::new();
    state.on_outcome(Outcome::Status(429));
    state.on_outcome(Outcome::Transport { timeout: true, connect: false });
    assert_eq!(
        state.on_outcome(Outcome::Transport { timeout: false, connect: false }),
        Decision::Fail
    );
    assert_eq!(state.retry_count, 2);
}

#[test]
fn the_outcome_of_a_status_is_its_number() {
    let status = reqwest::StatusCode::from_u16(429).unwrap();
    assert_eq!(Outcome::from_status(&status), Outcome::Status(429));
    assert_eq!(Outcome::from_status(&reqwest::StatusCode::OK), Outcome::Status(200));
    assert_eq!(Outcome::from_status(&reqwest::StatusCode::BAD_REQUEST), Outcome::Status(400));
}

#[test]
fn a_malformed_url_is_no_transient_failure() {
    let error = reqwest::blocking::Client::new().get("not a url").send().unwrap_err();
    let outcome = Outcome::from_error(&error);
    assert_eq!(outcome, Outcome::Transport { timeout: false, connect: false });
    assert_eq!(RetryState::new().on_outcome(outcome), Decision::Fail);
}

#[test]
fn a_refused_connection_is_transient() {
    let client = reqwest::blocking::Client::builder().no_proxy().build().unwrap();
    let error = client.get("http://127.0.0.1:1/").send().unwrap_err();
    let outcome = Outcome::from_error(&error);
    assert_eq!(
        outcome,
        Outcome::Transport { timeout: error.is_timeout(), connect: error.is_connect() }
    );
    assert!(error.is_connect());
    assert!(outcome.transient());
}

#[test]
fn a_request_that_runs_out_of_time_is_transient() {
    let client = reqwest::blocking::Client::builder()
        .no_proxy()
        .timeout(std::time::Duration::from_nanos(1))
        .build()
        .unwrap();
    let error = client.get("http://127.0.0.1:1/").send().unwrap_err();
    let outcome = Outcome::from_error(&error);
    assert_eq!(
        outcome,
        Outcome::Transport { timeout: error.is_timeout(), connect: error.is_connect() }
    );
    assert!(error.is_timeout() || error.is_connect());
    assert!(outcome.transient());
}

#[test]
fn the_count_of_repetitions_stops_at_the_largest_number_and_the_retries_go_on() {
    let mut state = RetryState { retry_count: u32::MAX - 1, retry_delay_ms: 1000 };
    assert_eq!(
        state.on_outcome(Outcome::Status(429)),
        Decision::Retry { attempt: u32::MAX, delay_ms: 1000, reason: RetryReason::RateLimited }
    );
    assert_eq!(state.retry_count, u32::MAX);
    for _ in 0..3 {
        assert_eq!(
            state.on_outcome(Outcome::Transport { timeout: true, connect: false }),
            Decision::Retry { attempt: u32::MAX, delay_ms: 1000, reason: RetryReason::Unreachable }
        );
        assert_eq!(state.retry_count, u32::MAX);
    }
    assert_eq!(state.on_outcome(Outcome::Status(204)), Decision::Done { status: 204 });
    assert_eq!(
        state.on_outcome(Outcome::Transport { timeout: false, connect: false }),
        Decision::Fail
    );
}

#[test]
fn the_delay_of_a_state_is_the_delay_of_its_retries() {
    let mut state = RetryState { retry_count: 0, retry_delay_ms: 250 };
    assert_eq!(
        state.on_outcome(Outcome::Transport { timeout: true, connect: false }),
        Decision::Retry { attempt: 1, delay_ms: 250, reason: RetryReason::Unreachable }
    );
}
