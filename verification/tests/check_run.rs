use hyprsnipe_checker::buckets::{classify, Bucket, Buckets};
use hyprsnipe_checker::driver::{target_url, CheckRun, Step, THROTTLE_MS};
use hyprsnipe_checker::fetch::{Outcome, RetryReason};

fn codes(items: &[&str]) -> Vec<String> {
    items.iter().map(|item| item.to_string()).collect()
}

/// Feeds `statuses` to a run over `list`, one final status for each usable code.
fn run_with(list: &[&str], statuses: &[u16]) -> Buckets {
    let mut run = CheckRun::new("https://example.test/c/".to_string(), codes(list));
    for status in statuses {
        assert!(run.target().is_some());
        let (next, step) = run.on_outcome(Outcome::Status(*status));
        assert!(matches!(step, Step::Checked { .. }));
        run = next;
    }
    assert_eq!(run.target(), None);
    assert!(run.is_finished());
    run.into_buckets().unwrap()
}

#[test]
fn statuses_are_sorted_by_equality() {
    assert_eq!(classify(200), Bucket::Ok200);
    assert_eq!(classify(400), Bucket::Bad400);
    for status in [0u16, 100, 199, 201, 204, 301, 399, 401, 404, 429, 500, 999, u16::MAX] {
        assert_eq!(classify(status), Bucket::Other);
    }
}

#[test]
fn recording_appends_to_one_bucket() {
    let mut buckets = Buckets::new();
    buckets.record("A1".to_string(), 200);
    buckets.record("B2".to_string(), 400);
    buckets.record("C3".to_string(), 500);
    buckets.record("D4".to_string(), 200);
    assert_eq!(buckets.ok, codes(&["A1", "D4"]));
    assert_eq!(buckets.bad, codes(&["B2"]));
    assert_eq!(buckets.other, vec![("C3".to_string(), 500)]);
}

#[test]
fn every_code_lands_in_one_bucket_in_order() {
    let buckets = run_with(&["a", "b", "c", "d", "e", "f"], &[404, 200, 400, 200, 500, 400]);
    assert_eq!(buckets.ok, codes(&["b", "d"]));
    assert_eq!(buckets.bad, codes(&["c", "f"]));
    assert_eq!(buckets.other, vec![("a".to_string(), 404), ("e".to_string(), 500)]);
    assert_eq!(buckets.ok.len() + buckets.bad.len() + buckets.other.len(), 6);
}

#[test]
fn a_code_that_occurs_twice_is_checked_twice() {
    let buckets = run_with(&["a", "a"], &[200, 400]);
    assert_eq!(buckets.ok, codes(&["a"]));
    assert_eq!(buckets.bad, codes(&["a"]));
    assert!(buckets.other.is_empty());
}

#[test]
fn blank_codes_are_passed_over_and_the_others_trimmed() {
    let list = codes(&["", "  ", " A1 ", "\t", "B2", " "]);
    let mut run = CheckRun::new("http://h/".to_string(), list);
    assert_eq!(run.target(), Some("http://h/A1".to_string()));
    let (next, step) = run.on_outcome(Outcome::Status(200));
    run = next;
    assert_eq!(
        step,
        Step::Checked { code: "A1".to_string(), status: 200, bucket: Bucket::Ok200, pause_ms: 1000 }
    );
    assert_eq!(run.target(), Some("http://h/B2".to_string()));
    let (next, _) = run.on_outcome(Outcome::Status(302));
    run = next;
    assert_eq!(run.target(), None);
    let buckets = run.into_buckets().unwrap();
    assert_eq!(buckets.ok, codes(&["A1"]));
    assert_eq!(buckets.other, vec![("B2".to_string(), 302)]);
}

#[test]
fn a_run_over_nothing_is_finished_at_once() {
    let run = CheckRun::new("http://h/".to_string(), codes(&["", " "]));
    assert_eq!(run.target(), None);
    assert!(run.is_finished());
    assert_eq!(run.into_buckets(), Some(Buckets::new()));
}

#[test]
fn the_url_is_the_base_and_the_code_with_nothing_between() {
    assert_eq!(target_url("http://h/x?c=", "A1"), "http://h/x?c=A1");
    assert_eq!(target_url("http://h", "A1"), "http://hA1");
    assert_eq!(target_url("http://h/", "/A1"), "http://h//A1");
    assert_eq!(target_url("", ""), "");
}

#[test]
fn two_rate_limits_delay_twice_and_the_next_code_starts_afresh() {
    let mut run = CheckRun::new("http://h/".to_string(), codes(&["A1", "B2"]));
    let mut delays = 0;
    for (round, status) in [429u16, 429, 200].into_iter().enumerate() {
        assert_eq!(run.target(), Some("http://h/A1".to_string()));
        assert_eq!(run.retry_count() as usize, round);
        let (next, step) = run.on_outcome(Outcome::Status(status));
        run = next;
        match step {
            Step::Retry { attempt, delay_ms, reason } => {
                delays += 1;
                assert_eq!(attempt, delays);
                assert_eq!(delay_ms, 1000);
                assert_eq!(reason, RetryReason::RateLimited);
            },
            Step::Checked { code, status, bucket, pause_ms } => {
                assert_eq!(code, "A1");
                assert_eq!(status, 200);
                assert_eq!(bucket, Bucket::Ok200);
                assert_eq!(pause_ms, THROTTLE_MS);
            },
            Step::Abort => panic!("the run must go on"),
        }
    }
    assert_eq!(delays, 2);
    assert_eq!(run.retry_count(), 0);
    assert_eq!(run.target(), Some("http://h/B2".to_string()));
    let (next, step) = run.on_outcome(Outcome::Transport { timeout: true, connect: false });
    assert_eq!(step, Step::Retry { attempt: 1, delay_ms: 1000, reason: RetryReason::Unreachable });
    let (next, _) = next.on_outcome(Outcome::Status(400));
    let buckets = next.into_buckets().unwrap();
    assert_eq!(buckets.ok, codes(&["A1"]));
    assert_eq!(buckets.bad, codes(&["B2"]));
}

#[test]
fn a_lasting_failure_ends_the_run_without_a_report() {
    let run = CheckRun::new("http://h/".to_string(), codes(&["A1", "B2", "C3"]));
    let (run, _) = run.on_outcome(Outcome::Status(200));
    let (run, step) = run.on_outcome(Outcome::Transport { timeout: false, connect: false });
    assert_eq!(step, Step::Abort);
    assert!(run.is_aborted());
    assert!(!run.is_finished());
    assert_eq!(run.target(), None);
    assert_eq!(run.into_buckets(), None);
}

#[test]
fn an_unfinished_run_has_no_report() {
    let run = CheckRun::new("http://h/".to_string(), codes(&["A1", "B2"]));
    let (run, _) = run.on_outcome(Outcome::Status(200));
    assert!(!run.is_finished());
    assert!(!run.is_aborted());
    assert_eq!(run.into_buckets(), None);
}

#[test]
fn the_pause_after_a_code_is_a_second() {
    assert_eq!(THROTTLE_MS, 1000);
}
