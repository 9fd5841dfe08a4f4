//! The three buckets into which checked codes are sorted by their status.

use vstd::prelude::*;

verus! {

/// The status of a code that was found.
pub const STATUS_OK: u16 = 200;

/// The status of a code that was refused.
pub const STATUS_BAD: u16 = 400;

/// One code with the status that its fetch ended with.
pub type CheckResult = (Seq<char>, u16);

/// The names of the three buckets.
#[derive(Clone, Copy, Debug, PartialEq, Eq, Structural)]
pub enum Bucket {
    /// For the codes whose status is `STATUS_OK`.
    Ok200,
    /// For the codes whose status is `STATUS_BAD`.
    Bad400,
    /// For the codes with any other status.
    Other,
}

/// The checked codes, sorted by status. Each bucket holds its entries in the order in which
/// they were recorded.
#[derive(Debug, PartialEq, Eq)]
pub struct Buckets {
    /// The codes whose status is `STATUS_OK`.
    pub ok: Vec<String>,
    /// The codes whose status is `STATUS_BAD`.
    pub bad: Vec<String>,
    /// The codes with any other status, each with that status.
    pub other: Vec<(String, u16)>,
}

/// What the buckets hold, as plain sequences.
#[verifier::ext_equal]
pub struct BucketsView {
    pub ok: Seq<Seq<char>>,
    pub bad: Seq<Seq<char>>,
    pub other: Seq<CheckResult>,
}

impl View for Buckets {
    type V = BucketsView;

    open spec fn view(&self) -> BucketsView {
        BucketsView {
            ok: self.ok.deep_view(),
            bad: self.bad.deep_view(),
            other: self.other.deep_view(),
        }
    }
}

/// The bucket for a status: by equality with `STATUS_OK` and `STATUS_BAD`, nothing else.
pub open spec fn bucket_of(status: u16) -> Bucket {
    if status == STATUS_OK {
        Bucket::Ok200
    } else if status == STATUS_BAD {
        Bucket::Bad400
    } else {
        Bucket::Other
    }
}

/// Those of `results` that belong in `bucket`, in order.
pub open spec fn in_bucket(results: Seq<CheckResult>, bucket: Bucket) -> Seq<CheckResult> {
    results.filter(|result: CheckResult| bucket_of(result.1) == bucket)
}

/// The codes of `results`, in order.
pub open spec fn codes_of(results: Seq<CheckResult>) -> Seq<Seq<char>> {
    results.map_values(|result: CheckResult| result.0)
}

/// The buckets that hold `results`: each result in the bucket for its status, in the order of
/// `results`.
pub open spec fn sorted(results: Seq<CheckResult>) -> BucketsView {
    BucketsView {
        ok: codes_of(in_bucket(results, Bucket::Ok200)),
        bad: codes_of(in_bucket(results, Bucket::Bad400)),
        other: in_bucket(results, Bucket::Other),
    }
}

/// The place that `results[i]` has in its bucket: the number of earlier results that belong
/// in the same bucket.
pub open spec fn place(results: Seq<CheckResult>, i: int) -> nat {
    in_bucket(results.take(i), bucket_of(results[i].1)).len()
}

impl BucketsView {
    /// Three empty buckets.
    pub open spec fn empty() -> BucketsView {
        BucketsView { ok: Seq::empty(), bad: Seq::empty(), other: Seq::empty() }
    }

    /// These buckets with one more result, at the end of the bucket for its status.
    pub open spec fn record(self, code: Seq<char>, status: u16) -> BucketsView {
        match bucket_of(status) {
            Bucket::Ok200 => BucketsView { ok: self.ok.push(code), ..self },
            Bucket::Bad400 => BucketsView { bad: self.bad.push(code), ..self },
            Bucket::Other => BucketsView { other: self.other.push((code, status)), ..self },
        }
    }

    /// The number of entries in the three buckets together.
    pub open spec fn total(self) -> nat {
        self.ok.len() + self.bad.len() + self.other.len()
    }
}

/// No results, no entries.
pub proof fn lemma_sorted_empty()
    ensures
        sorted(Seq::empty()) == BucketsView::empty(),
{
    reveal(Seq::filter);
    assert(sorted(Seq::empty()) =~= BucketsView::empty());
}

/// One more result at the end is one more entry in the bucket for its status.
pub proof fn lemma_sorted_push(results: Seq<CheckResult>, code: Seq<char>, status: u16)
    ensures
        sorted(results.push((code, status))) == sorted(results).record(code, status),
{
    let result = (code, status);
    results.lemma_filter_push(result, |r: CheckResult| bucket_of(r.1) == Bucket::Ok200);
    results.lemma_filter_push(result, |r: CheckResult| bucket_of(r.1) == Bucket::Bad400);
    results.lemma_filter_push(result, |r: CheckResult| bucket_of(r.1) == Bucket::Other);
    assert(sorted(results.push(result)) =~= sorted(results).record(code, status));
}

/// Every result is in exactly one bucket. The buckets together have as many entries as there
/// are results, and each result stands in the bucket for its status, at the place that counts
/// the earlier results of that bucket: a status of 200 puts the code in `ok`, one of 400 in
/// `bad`, and any other puts the code and the status in `other`. With one entry for each
/// result, and as many entries as results, no bucket holds anything else.
pub proof fn lemma_every_result_in_one_bucket(results: Seq<CheckResult>, i: int)
    requires
        0 <= i < results.len(),
    ensures
        sorted(results).total() == results.len(),
        match bucket_of(results[i].1) {
            Bucket::Ok200 => {
                &&& place(results, i) < sorted(results).ok.len()
                &&& sorted(results).ok[place(results, i) as int] == results[i].0
            },
            Bucket::Bad400 => {
                &&& place(results, i) < sorted(results).bad.len()
                &&& sorted(results).bad[place(results, i) as int] == results[i].0
            },
            Bucket::Other => {
                &&& place(results, i) < sorted(results).other.len()
                &&& sorted(results).other[place(results, i) as int] == results[i]
            },
        },
    decreases results.len(),
{
    let front = results.drop_last();
    let last = results.last();
    assert(results =~= front.push(last));
    lemma_sorted_push(front, last.0, last.1);
    lemma_sorted_total(front);
    let bucket = bucket_of(results[i].1);
    front.lemma_filter_push(last, |r: CheckResult| bucket_of(r.1) == bucket);
    if i < front.len() {
        assert(results.take(i) =~= front.take(i));
        lemma_every_result_in_one_bucket(front, i);
    } else {
        assert(results.take(i) =~= front);
    }
}

/// The buckets together have as many entries as there are results.
pub proof fn lemma_sorted_total(results: Seq<CheckResult>)
    ensures
        sorted(results).total() == results.len(),
    decreases results.len(),
{
    if results.len() == 0 {
        lemma_sorted_empty();
        assert(results =~= Seq::empty());
    } else {
        let front = results.drop_last();
        let last = results.last();
        assert(results =~= front.push(last));
        lemma_sorted_push(front, last.0, last.1);
        lemma_sorted_total(front);
    }
}

/// The buckets keep the order of the results: of two results in one bucket, the earlier one
/// stands before the later one.
pub proof fn lemma_buckets_keep_order(results: Seq<CheckResult>, i: int, j: int)
    requires
        0 <= i < j < results.len(),
        bucket_of(results[i].1) == bucket_of(results[j].1),
    ensures
        place(results, i) < place(results, j),
{
    let bucket = bucket_of(results[i].1);
    let before = results.take(j - 1);
    assert(results.take(j) =~= before.push(results[j - 1]));
    before.lemma_filter_push(results[j - 1], |r: CheckResult| bucket_of(r.1) == bucket);
    if i < j - 1 {
        lemma_earlier_results_count(results, i, j - 1);
    }
}

/// A result counts among the results of its bucket from the position after it on.
proof fn lemma_earlier_results_count(results: Seq<CheckResult>, i: int, upto: int)
    requires
        0 <= i < upto <= results.len(),
    ensures
        in_bucket(results.take(i), bucket_of(results[i].1)).len() < in_bucket(
            results.take(upto),
            bucket_of(results[i].1),
        ).len(),
    decreases upto - i,
{
    let bucket = bucket_of(results[i].1);
    let before = results.take(upto - 1);
    assert(results.take(upto) =~= before.push(results[upto - 1]));
    before.lemma_filter_push(results[upto - 1], |r: CheckResult| bucket_of(r.1) == bucket);
    if i < upto - 1 {
        lemma_earlier_results_count(results, i, upto - 1);
    }
}

/// The bucket for `status`.
pub fn classify(status: u16) -> (bucket: Bucket)
    ensures
        bucket == bucket_of(status),
{
    if status == STATUS_OK {
        Bucket::Ok200
    } else if status == STATUS_BAD {
        Bucket::Bad400
    } else {
        Bucket::Other
    }
}

impl Buckets {
    /// Three empty buckets.
    pub fn new() -> (buckets: Buckets)
        ensures
            buckets@ == BucketsView::empty(),
    {
        let buckets = Buckets { ok: Vec::new(), bad: Vec::new(), other: Vec::new() };
        assert(buckets@ =~= BucketsView::empty());
        buckets
    }

    /// Puts `code` at the end of the bucket for `status`: of `ok` for 200, of `bad` for 400,
    /// and of `other`, together with the status, for any other.
    pub fn record(&mut self, code: String, status: u16)
        ensures
            final(self)@ == old(self)@.record(code@, status),
    {
        match classify(status) {
            Bucket::Ok200 => {
                self.ok.push(code);
            },
            Bucket::Bad400 => {
                self.bad.push(code);
            },
            Bucket::Other => {
                self.other.push((code, status));
            },
        }
        assert(self@ =~= old(self)@.record(code@, status));
    }
}

} // verus!
