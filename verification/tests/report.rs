use hyprsnipe_checker::buckets::Buckets;
use hyprsnipe_checker::report::render_report;

#[test]
fn report_of_one_code_in_each_bucket() {
    let buckets = Buckets {
        ok: vec!["A1".to_string()],
        bad: vec!["B2".to_string()],
        other: vec![("C3".to_string(), 500)],
    };
    assert_eq!(render_report(&buckets), "200:\nA1\n\n400:\nB2\n\nOTHER:\n500: C3\n");
}

#[test]
fn report_of_nothing_has_the_three_headings() {
    assert_eq!(render_report(&Buckets::new()), "200:\n\n400:\n\nOTHER:\n");
}

#[test]
fn report_lists_each_bucket_in_order() {
    let mut buckets = Buckets::new();
    for (code, status) in [("z", 200u16), ("a", 200), ("m", 404), ("b", 400), ("c", 301)] {
        buckets.record(code.to_string(), status);
    }
    assert_eq!(render_report(&buckets), "200:\nz\na\n\n400:\nb\n\nOTHER:\n404: m\n301: c\n");
}

#[test]
fn statuses_are_written_in_decimal() {
    for status in [0u16, 7, 10, 99, 100, 429, 999, 1000, 10000, 65535] {
        let buckets = Buckets { ok: vec![], bad: vec![], other: vec![("x".to_string(), status)] };
        assert_eq!(render_report(&buckets), format!("200:\n\n400:\n\nOTHER:\n{status}: x\n"));
    }
}
