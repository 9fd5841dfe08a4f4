//! The check run: the codes of a list are checked one after another, each by one fetch, and
//! every status that a fetch ends with is sorted into the buckets.
//!
//! The run does no request itself. It names the URL to request, is told how each attempt
//! ended, and answers with what to do next.

use crate::buckets::{
    bucket_of, classify, codes_of, lemma_every_result_in_one_bucket, lemma_sorted_empty,
    lemma_sorted_push, place, sorted, Bucket, Buckets, CheckResult,
};
use crate::codes::{lemma_usable_push, usable};
use crate::fetch::{
    count_up, counted, Decision, Outcome, RetryReason, RetryState, RATE_LIMITED, RETRY_DELAY_MS,
};
use crate::text::{trim, trimmed};
use vstd::prelude::*;
use vstd::string::StringExecFns;

verus! {

/// The pause after each checked code, in milliseconds.
pub const THROTTLE_MS: u64 = 1000;

/// The state of a run.
pub struct RunView {
    /// The text that each code is appended to.
    pub base_url: Seq<char>,
    /// The codes as they were given.
    pub codes: Seq<Seq<char>>,
    /// The position in `codes` of the code that is being checked.
    pub cursor: nat,
    /// How often the request for that code has been repeated, as far as the count goes.
    pub retries: nat,
    /// The codes checked so far, each with its status.
    pub results: Seq<CheckResult>,
    /// Whether a fetch has failed for good.
    pub aborted: bool,
}

/// What to do after an attempt.
#[derive(Debug, PartialEq, Eq)]
pub enum Step {
    /// Wait `delay_ms` milliseconds and request the same URL again.
    Retry { attempt: u32, delay_ms: u64, reason: RetryReason },
    /// The code has its status and stands in `bucket`. Wait `pause_ms` milliseconds and go on
    /// with the next code.
    Checked { code: String, status: u16, bucket: Bucket, pause_ms: u64 },
    /// The run has failed. There is nothing more to request and nothing to report.
    Abort,
}

/// A run over a list of codes.
pub struct CheckRun {
    base_url: String,
    codes: Vec<String>,
    cursor: usize,
    retry: RetryState,
    buckets: Buckets,
    aborted: bool,
    results: Ghost<Seq<CheckResult>>,
}

/// The first position from `from` on at which `codes` holds more than white space, or the
/// length of `codes` if there is none.
pub open spec fn next_usable(codes: Seq<Seq<char>>, from: nat) -> nat
    decreases codes.len() - from,
{
    if from >= codes.len() {
        codes.len()
    } else if trimmed(codes[from as int]).len() > 0 {
        from
    } else {
        next_usable(codes, from + 1)
    }
}

impl RunView {
    /// The state in which a run begins: at the first usable code, with nothing checked.
    pub open spec fn start(base_url: Seq<char>, codes: Seq<Seq<char>>) -> RunView {
        RunView {
            base_url,
            codes,
            cursor: next_usable(codes, 0),
            retries: 0,
            results: Seq::empty(),
            aborted: false,
        }
    }

    /// What holds in every state of a run: the cursor stands on a usable code or at the end
    /// of the list, the results are those of the usable codes before the cursor, in the
    /// order of the list, and no result holds the status of the rate limit, which is never
    /// the end of a fetch.
    pub open spec fn wf(self) -> bool {
        &&& self.cursor <= self.codes.len()
        &&& self.cursor < self.codes.len() ==> trimmed(self.codes[self.cursor as int]).len() > 0
        &&& codes_of(self.results) == usable(self.codes.take(self.cursor as int))
        &&& forall|i: int|
            0 <= i < self.results.len() ==> (#[trigger] self.results[i]).1 != RATE_LIMITED
    }

    /// Whether there is a request to make.
    pub open spec fn active(self) -> bool {
        !self.aborted && self.cursor < self.codes.len()
    }

    /// Whether every code has been checked.
    pub open spec fn finished(self) -> bool {
        !self.aborted && self.cursor >= self.codes.len()
    }

    /// The code that is being checked.
    pub open spec fn code(self) -> Seq<char> {
        trimmed(self.codes[self.cursor as int])
    }

    /// The URL to request for the code that is being checked: the base URL with the code
    /// appended, nothing between them.
    pub open spec fn url(self) -> Seq<char> {
        self.base_url + self.code()
    }

    /// The state after an attempt that ended in `outcome`. A transient outcome counts as one
    /// more repetition. Any other status is the result for the code: the run moves on to the
    /// next usable code, with nothing repeated yet. Any other failure ends the run.
    pub open spec fn after(self, outcome: Outcome) -> RunView {
        if outcome.is_transient() {
            RunView { retries: count_up(self.retries), ..self }
        } else {
            match outcome {
                Outcome::Status(status) => RunView {
                    cursor: next_usable(self.codes, self.cursor + 1),
                    retries: 0,
                    results: self.results.push((self.code(), status)),
                    ..self
                },
                Outcome::Transport { .. } => RunView { aborted: true, ..self },
            }
        }
    }
}

/// Nothing usable stands between a position and the next usable position after it.
pub proof fn lemma_next_usable(codes: Seq<Seq<char>>, from: nat)
    requires
        from <= codes.len(),
    ensures
        from <= next_usable(codes, from) <= codes.len(),
        next_usable(codes, from) < codes.len() ==> trimmed(
            codes[next_usable(codes, from) as int],
        ).len() > 0,
        usable(codes.take(next_usable(codes, from) as int)) == usable(codes.take(from as int)),
    decreases codes.len() - from,
{
    if from < codes.len() && trimmed(codes[from as int]).len() == 0 {
        lemma_next_usable(codes, from + 1);
        assert(codes.take(from as int + 1) =~= codes.take(from as int).push(codes[from as int]));
        lemma_usable_push(codes.take(from as int), codes[from as int]);
    }
}

/// A run begins in a state in which `wf` holds.
pub proof fn lemma_start_is_wf(base_url: Seq<char>, codes: Seq<Seq<char>>)
    ensures
        RunView::start(base_url, codes).wf(),
{
    lemma_next_usable(codes, 0);
    assert(usable(codes.take(0)) =~= Seq::empty()) by {
        reveal(Seq::filter);
    }
    assert(codes_of(Seq::empty()) =~= Seq::empty());
}

/// Whatever the outcome of an attempt, `wf` holds again afterwards.
pub proof fn lemma_after_keeps_wf(run: RunView, outcome: Outcome)
    requires
        run.wf(),
        run.active(),
    ensures
        run.after(outcome).wf(),
{
    if !outcome.is_transient() && outcome is Status {
        let at = run.cursor as int;
        let status = outcome->Status_0;
        lemma_next_usable(run.codes, run.cursor + 1);
        assert(run.codes.take(at + 1) =~= run.codes.take(at).push(run.codes[at]));
        lemma_usable_push(run.codes.take(at), run.codes[at]);
        assert(codes_of(run.results.push((run.code(), status))) =~= codes_of(run.results).push(
            run.code(),
        ));
    }
}

/// The state of a run after attempts that ended in `outcomes`, in that order.
pub open spec fn after_all(run: RunView, outcomes: Seq<Outcome>) -> RunView
    decreases outcomes.len(),
{
    if outcomes.len() == 0 {
        run
    } else {
        after_all(run, outcomes.drop_last()).after(outcomes.last())
    }
}

/// Attempts at the request for a code that end in a transient way are repeated, one time
/// each and however many there are, and change nothing but the count. The first status
/// after them that is not the rate limit becomes the result of the code, and the count of
/// repetitions is back at zero for the next code.
pub proof fn lemma_retries_end_with_a_result(run: RunView, outcomes: Seq<Outcome>, status: u16)
    requires
        run.retries == 0,
        forall|i: int| 0 <= i < outcomes.len() ==> (#[trigger] outcomes[i]).is_transient(),
        !Outcome::Status(status).is_transient(),
    ensures
        after_all(run, outcomes) == (RunView { retries: counted(outcomes.len()), ..run }),
        after_all(run, outcomes.push(Outcome::Status(status))).retries == 0,
        after_all(run, outcomes.push(Outcome::Status(status))).results == run.results.push(
            (run.code(), status),
        ),
        after_all(run, outcomes.push(Outcome::Status(status))).cursor == next_usable(
            run.codes,
            run.cursor + 1,
        ),
    decreases outcomes.len(),
{
    if outcomes.len() > 0 {
        let before = outcomes.drop_last();
        assert forall|i: int| 0 <= i < before.len() implies (
        #[trigger] before[i]).is_transient() by {
            assert(before[i] == outcomes[i]);
        }
        lemma_retries_end_with_a_result(run, before, status);
        assert(outcomes.last() == outcomes[outcomes.len() - 1]);
    }
    let last = Outcome::Status(status);
    let waited = after_all(run, outcomes);
    assert(outcomes.push(last).drop_last() =~= outcomes);
    assert(outcomes.push(last).last() == last);
    assert(after_all(run, outcomes.push(last)) == waited.after(last));
    assert(waited.code() == run.code());
}

/// When a run has finished, every usable code of the list has been checked, in the order of
/// the list, and stands in exactly one bucket: the result at each position is that of the
/// usable code at that position, the buckets together have as many entries as there are
/// usable codes, and each code stands in the bucket for its status, at the place that counts
/// the earlier codes of that bucket.
pub proof fn lemma_finished_run_sorts_every_code(run: RunView, i: int)
    requires
        run.wf(),
        run.finished(),
        0 <= i < usable(run.codes).len(),
    ensures
        run.results.len() == usable(run.codes).len(),
        run.results[i].0 == usable(run.codes)[i],
        sorted(run.results).total() == usable(run.codes).len(),
        match bucket_of(run.results[i].1) {
            Bucket::Ok200 => {
                &&& place(run.results, i) < sorted(run.results).ok.len()
                &&& sorted(run.results).ok[place(run.results, i) as int] == usable(run.codes)[i]
            },
            Bucket::Bad400 => {
                &&& place(run.results, i) < sorted(run.results).bad.len()
                &&& sorted(run.results).bad[place(run.results, i) as int] == usable(run.codes)[i]
            },
            Bucket::Other => {
                &&& place(run.results, i) < sorted(run.results).other.len()
                &&& sorted(run.results).other[place(run.results, i) as int] == (
                    usable(run.codes)[i],
                    run.results[i].1,
                )
            },
        },
{
    assert(run.codes.take(run.cursor as int) =~= run.codes);
    assert(codes_of(run.results).len() == run.results.len());
    assert(codes_of(run.results)[i] == run.results[i].0);
    lemma_every_result_in_one_bucket(run.results, i);
}

/// The URL for `code`: `base_url` with `code` appended, nothing between them.
pub fn target_url(base_url: &str, code: &str) -> (url: String)
    ensures
        url@ == base_url@ + code@,
{
    let mut url = String::from_str(base_url);
    url.append(code);
    url
}

/// The first position from `from` on at which `codes` holds more than white space.
fn skip_blank(codes: &Vec<String>, from: usize) -> (next: usize)
    requires
        from <= codes.len(),
    ensures
        next == next_usable(codes.deep_view(), from as nat),
        from <= next <= codes.len(),
{
    let mut next: usize = from;
    while next < codes.len()
        invariant
            from <= next <= codes.len(),
            next_usable(codes.deep_view(), next as nat) == next_usable(
                codes.deep_view(),
                from as nat,
            ),
        decreases codes.len() - next,
    {
        let code = trim(codes[next].as_str());
        if !code.as_str().is_empty() {
            return next;
        }
        next += 1;
    }
    next
}

impl View for CheckRun {
    type V = RunView;

    closed spec fn view(&self) -> RunView {
        RunView {
            base_url: self.base_url@,
            codes: self.codes.deep_view(),
            cursor: self.cursor as nat,
            retries: self.retry.retry_count as nat,
            results: self.results@,
            aborted: self.aborted,
        }
    }
}

impl CheckRun {
    #[verifier::type_invariant]
    spec fn inv(self) -> bool {
        &&& self@.wf()
        &&& self.buckets@ == sorted(self.results@)
        &&& self.retry.retry_delay_ms == RETRY_DELAY_MS
    }

    /// A run over `codes`, each of which will be appended to `base_url`. Codes that hold
    /// nothing but white space will be passed over, and white space at the ends of the others
    /// will be left out.
    pub fn new(base_url: String, codes: Vec<String>) -> (run: CheckRun)
        ensures
            run@ == RunView::start(base_url@, codes.deep_view()),
            run@.wf(),
    {
        let cursor = skip_blank(&codes, 0);
        proof {
            lemma_start_is_wf(base_url@, codes.deep_view());
            lemma_sorted_empty();
        }
        CheckRun {
            base_url,
            codes,
            cursor,
            retry: RetryState::new(),
            buckets: Buckets::new(),
            aborted: false,
            results: Ghost(Seq::empty()),
        }
    }

    /// The URL to request next, if there is a request to make.
    pub fn target(&self) -> (url: Option<String>)
        ensures
            url is Some <==> self@.active(),
            url matches Some(text) ==> text@ == self@.url(),
    {
        if self.aborted || self.cursor >= self.codes.len() {
            None
        } else {
            let code = trim(self.codes[self.cursor].as_str());
            Some(target_url(self.base_url.as_str(), code.as_str()))
        }
    }

    /// How often the request for the code that is being checked has been repeated.
    pub fn retry_count(&self) -> (count: u32)
        ensures
            count == self@.retries,
    {
        self.retry.retry_count
    }

    /// Whether every code has been checked.
    pub fn is_finished(&self) -> (finished: bool)
        ensures
            finished == self@.finished(),
    {
        !self.aborted && self.cursor >= self.codes.len()
    }

    /// Whether a fetch has failed for good.
    pub fn is_aborted(&self) -> (aborted: bool)
        ensures
            aborted == self@.aborted,
    {
        self.aborted
    }

    /// Takes in how the attempt at the current URL ended, and gives the run in its next state
    /// together with what to do next.
    pub fn on_outcome(self, outcome: Outcome) -> (next: (CheckRun, Step))
        requires
            self@.active(),
        ensures
            next.0@ == self@.after(outcome),
            next.0@.wf(),
            match next.1 {
                Step::Retry { attempt, delay_ms, reason } => {
                    &&& outcome.is_transient()
                    &&& attempt == count_up(self@.retries)
                    &&& delay_ms == RETRY_DELAY_MS
                    &&& reason == outcome.retry_reason()
                },
                Step::Checked { code, status, bucket, pause_ms } => {
                    &&& !outcome.is_transient()
                    &&& outcome == Outcome::Status(status)
                    &&& code@ == self@.code()
                    &&& bucket == bucket_of(status)
                    &&& pause_ms == THROTTLE_MS
                },
                Step::Abort => !outcome.is_transient() && outcome is Transport,
            },
    {
        proof {
            use_type_invariant(&self);
            lemma_after_keeps_wf(self@, outcome);
        }
        let ghost before = self@;
        let CheckRun { base_url, codes, cursor, retry, buckets, aborted, results } = self;
        let mut retry = retry;
        assert(codes.deep_view().len() == codes.len());
        assert(cursor < codes.len());
        match retry.on_outcome(outcome) {
            Decision::Retry { attempt, delay_ms, reason } => {
                let run = CheckRun { base_url, codes, cursor, retry, buckets, aborted, results };
                (run, Step::Retry { attempt, delay_ms, reason })
            },
            Decision::Done { status } => {
                let code = trim(codes[cursor].as_str());
                let mut buckets = buckets;
                buckets.record(code.clone(), status);
                let next = skip_blank(&codes, cursor + 1);
                proof {
                    lemma_sorted_push(results@, code@, status);
                }
                let run = CheckRun {
                    base_url,
                    codes,
                    cursor: next,
                    retry: RetryState::new(),
                    buckets,
                    aborted,
                    results: Ghost(results@.push((code@, status))),
                };
                let bucket = classify(status);
                (run, Step::Checked { code, status, bucket, pause_ms: THROTTLE_MS })
            },
            Decision::Fail => {
                let run = CheckRun {
                    base_url,
                    codes,
                    cursor,
                    retry,
                    buckets,
                    aborted: true,
                    results,
                };
                (run, Step::Abort)
            },
        }
    }

    /// The buckets of a run that has finished. A run that has failed, or has codes left to
    /// check, gives nothing.
    pub fn into_buckets(self) -> (buckets: Option<Buckets>)
        ensures
            buckets is Some <==> self@.finished(),
            buckets matches Some(sorted_codes) ==> sorted_codes@ == sorted(self@.results),
    {
        proof {
            use_type_invariant(&self);
        }
        if self.is_finished() {
            Some(self.buckets)
        } else {
            None
        }
    }
}

} // verus!
