//! The report: the three buckets as text.

use crate::buckets::{Buckets, BucketsView, CheckResult};
use crate::text::{decimal, push_decimal};
use vstd::prelude::*;
use vstd::string::StringExecFns;

verus! {

/// The heading of the first section, `200:` and a line feed.
pub open spec fn ok_heading() -> Seq<char> {
    seq!['2', '0', '0', ':', '\n']
}

/// The heading of the second section, `400:` and a line feed.
pub open spec fn bad_heading() -> Seq<char> {
    seq!['4', '0', '0', ':', '\n']
}

/// The heading of the third section, `OTHER:` and a line feed.
pub open spec fn other_heading() -> Seq<char> {
    seq!['O', 'T', 'H', 'E', 'R', ':', '\n']
}

/// One line for each code: the code and a line feed.
pub open spec fn listing(codes: Seq<Seq<char>>) -> Seq<char>
    decreases codes.len(),
{
    if codes.len() == 0 {
        Seq::empty()
    } else {
        listing(codes.drop_last()) + codes.last() + seq!['\n']
    }
}

/// The line for a code with another status: the status in decimal, a colon, a space, the
/// code and a line feed.
pub open spec fn other_line(result: CheckResult) -> Seq<char> {
    decimal(result.1 as nat) + seq![':', ' '] + result.0 + seq!['\n']
}

/// One line for each code with another status.
pub open spec fn other_listing(results: Seq<CheckResult>) -> Seq<char>
    decreases results.len(),
{
    if results.len() == 0 {
        Seq::empty()
    } else {
        other_listing(results.drop_last()) + other_line(results.last())
    }
}

/// The report on `buckets`: three sections in a fixed order, each a heading and the lines of
/// one bucket, with an empty line after the first and after the second section.
pub open spec fn report_text(buckets: BucketsView) -> Seq<char> {
    ok_heading() + listing(buckets.ok) + seq!['\n'] + bad_heading() + listing(buckets.bad)
        + seq!['\n'] + other_heading() + other_listing(buckets.other)
}

/// Appends one line for each of `codes` to `out`.
fn push_listing(out: &mut String, codes: &Vec<String>)
    ensures
        final(out)@ == old(out)@ + listing(codes.deep_view()),
{
    let ghost all = codes.deep_view();
    let mut i: usize = 0;
    assert(all.take(0) =~= Seq::empty());
    assert(out@ =~= old(out)@ + listing(all.take(0)));
    while i < codes.len()
        invariant
            i <= codes.len(),
            all == codes.deep_view(),
            out@ == old(out)@ + listing(all.take(i as int)),
        decreases codes.len() - i,
    {
        let ghost before = out@;
        out.append(codes[i].as_str());
        out.push('\n');
        proof {
            assert(all.take(i + 1).drop_last() =~= all.take(i as int));
            assert(all.take(i + 1).last() == codes[i as int]@);
            assert(out@ =~= old(out)@ + listing(all.take(i + 1)));
        }
        i += 1;
    }
    assert(all.take(codes.len() as int) =~= all);
}

/// Appends one line for each of `results` to `out`.
fn push_other_listing(out: &mut String, results: &Vec<(String, u16)>)
    ensures
        final(out)@ == old(out)@ + other_listing(results.deep_view()),
{
    let ghost all = results.deep_view();
    let mut i: usize = 0;
    assert(all.take(0) =~= Seq::empty());
    assert(out@ =~= old(out)@ + other_listing(all.take(0)));
    while i < results.len()
        invariant
            i <= results.len(),
            all == results.deep_view(),
            out@ == old(out)@ + other_listing(all.take(i as int)),
        decreases results.len() - i,
    {
        push_decimal(out, results[i].1);
        out.push(':');
        out.push(' ');
        out.append(results[i].0.as_str());
        out.push('\n');
        proof {
            assert(all.take(i + 1).drop_last() =~= all.take(i as int));
            assert(all.take(i + 1).last() == (results[i as int].0@, results[i as int].1));
            assert(out@ =~= old(out)@ + other_listing(all.take(i + 1)));
        }
        i += 1;
    }
    assert(all.take(results.len() as int) =~= all);
}

/// The report on `buckets`.
pub fn render_report(buckets: &Buckets) -> (text: String)
    ensures
        text@ == report_text(buckets@),
{
    proof {
        reveal_strlit("200:\n");
        reveal_strlit("400:\n");
        reveal_strlit("OTHER:\n");
    }
    let mut text = String::new();
    text.append("200:\n");
    assert(text@ =~= ok_heading());
    push_listing(&mut text, &buckets.ok);
    text.push('\n');
    text.append("400:\n");
    assert(text@ =~= ok_heading() + listing(buckets@.ok) + seq!['\n'] + bad_heading());
    push_listing(&mut text, &buckets.bad);
    text.push('\n');
    text.append("OTHER:\n");
    assert(text@ =~= ok_heading() + listing(buckets@.ok) + seq!['\n'] + bad_heading() + listing(
        buckets@.bad,
    ) + seq!['\n'] + other_heading());
    push_other_listing(&mut text, &buckets.other);
    text
}

} // verus!
