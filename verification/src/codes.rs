//! The list of codes to check, read from newline-delimited text.

use crate::text::{
    chars_of, is_whitespace, lemma_trimmed, lemma_trimmed_idempotent, lemma_trimmed_of_blank,
    string_from, trim_bounds, trimmed,
};
use vstd::prelude::*;

verus! {

/// Why a text yields no list of codes.
#[derive(Clone, Copy, Debug, PartialEq, Eq, Structural)]
pub enum InputError {
    /// No line holds anything but white space.
    NoCodes,
}

/// The number of characters of `s` that stand before its first line feed.
pub open spec fn first_line_len(s: Seq<char>) -> nat
    decreases s.len(),
{
    if s.len() == 0 || s[0] == '\n' {
        0
    } else {
        1 + first_line_len(s.skip(1))
    }
}

/// The pieces into which the line feeds cut `s`: one more piece than there are line feeds.
pub open spec fn lines(s: Seq<char>) -> Seq<Seq<char>>
    decreases s.len(),
{
    let n = first_line_len(s) as int;
    if n >= s.len() {
        seq![s]
    } else {
        seq![s.take(n)] + lines(s.skip(n + 1))
    }
}

/// The trimmed forms of `lines`, in order, without those that are empty.
pub open spec fn usable(lines: Seq<Seq<char>>) -> Seq<Seq<char>> {
    lines.map_values(|line: Seq<char>| trimmed(line)).filter(|code: Seq<char>| code.len() > 0)
}

/// The codes that `contents` lists: every line, trimmed, that holds more than white space.
/// A carriage return at the end of a line is white space, and goes with it.
pub open spec fn code_list(contents: Seq<char>) -> Seq<Seq<char>> {
    usable(lines(contents))
}

/// What one more line at the end adds to the usable lines.
pub proof fn lemma_usable_push(lines: Seq<Seq<char>>, line: Seq<char>)
    ensures
        usable(lines.push(line)) == if trimmed(line).len() > 0 {
            usable(lines).push(trimmed(line))
        } else {
            usable(lines)
        },
{
    let trim_line = |line: Seq<char>| trimmed(line);
    let kept = |code: Seq<char>| code.len() > 0;
    assert(lines.push(line).map_values(trim_line) =~= lines.map_values(trim_line).push(
        trimmed(line),
    ));
    lines.map_values(trim_line).lemma_filter_push(trimmed(line), kept);
}

/// What one more line at the front adds to the usable lines.
pub proof fn lemma_usable_prepend(line: Seq<char>, lines: Seq<Seq<char>>)
    ensures
        usable(seq![line] + lines) == (if trimmed(line).len() > 0 {
            seq![trimmed(line)]
        } else {
            Seq::empty()
        }) + usable(lines),
{
    let trim_line = |line: Seq<char>| trimmed(line);
    let kept = |code: Seq<char>| code.len() > 0;
    assert((seq![line] + lines).map_values(trim_line) =~= seq![trimmed(line)] + lines.map_values(
        trim_line,
    ));
    lines.map_values(trim_line).lemma_filter_prepend(trimmed(line), kept);
}

/// The first line of `s` ends at the first line feed, or where `s` ends.
pub proof fn lemma_first_line(s: Seq<char>)
    ensures
        first_line_len(s) <= s.len(),
        first_line_len(s) < s.len() ==> s[first_line_len(s) as int] == '\n',
        forall|k: int| 0 <= k < first_line_len(s) ==> #[trigger] s[k] != '\n',
    decreases s.len(),
{
    if !(s.len() == 0 || s[0] == '\n') {
        let rest = s.skip(1);
        lemma_first_line(rest);
        assert forall|k: int| 0 <= k < first_line_len(s) implies #[trigger] s[k] != '\n' by {
            if k > 0 {
                assert(s[k] == rest[k - 1]);
            }
        }
    }
}

/// Every line of `s` is a part of `s` that holds no line feed.
pub proof fn lemma_line_is_part(s: Seq<char>, j: int) -> (bounds: (int, int))
    requires
        0 <= j < lines(s).len(),
    ensures
        0 <= bounds.0 <= bounds.1 <= s.len(),
        lines(s)[j] == s.subrange(bounds.0, bounds.1),
        forall|k: int| 0 <= k < lines(s)[j].len() ==> #[trigger] lines(s)[j][k] != '\n',
    decreases s.len(),
{
    lemma_first_line(s);
    let n = first_line_len(s) as int;
    if n >= s.len() {
        assert(s.subrange(0, n) =~= s);
        (0, n)
    } else if j == 0 {
        assert(s.take(n) =~= s.subrange(0, n));
        (0, n)
    } else {
        let rest = s.skip(n + 1);
        let inner = lemma_line_is_part(rest, j - 1);
        assert(rest.subrange(inner.0, inner.1) =~= s.subrange(
            inner.0 + n + 1,
            inner.1 + n + 1,
        ));
        (inner.0 + n + 1, inner.1 + n + 1)
    }
}

/// Every usable line is the trimmed form of one of the lines, and is not empty.
pub proof fn lemma_usable_origin(lines: Seq<Seq<char>>, i: int) -> (j: int)
    requires
        0 <= i < usable(lines).len(),
    ensures
        0 <= j < lines.len(),
        usable(lines)[i] == trimmed(lines[j]),
        usable(lines)[i].len() > 0,
    decreases lines.len(),
{
    if lines.len() == 0 {
        assert(usable(lines).len() == 0) by {
            reveal(Seq::filter);
        }
        0
    } else {
        let front = lines.drop_last();
        assert(lines =~= front.push(lines.last()));
        lemma_usable_push(front, lines.last());
        if i < usable(front).len() {
            lemma_usable_origin(front, i)
        } else {
            lines.len() - 1
        }
    }
}

/// Every code that a text lists is free of line feeds and of white space at its ends, and is
/// not empty: trimming it again changes nothing.
pub proof fn lemma_listed_code_is_clean(contents: Seq<char>, i: int)
    requires
        0 <= i < code_list(contents).len(),
    ensures
        code_list(contents)[i].len() > 0,
        !is_whitespace(code_list(contents)[i][0]),
        !is_whitespace(code_list(contents)[i].last()),
        forall|k: int|
            0 <= k < code_list(contents)[i].len() ==> #[trigger] code_list(contents)[i][k] != '\n',
        trimmed(code_list(contents)[i]) == code_list(contents)[i],
{
    let j = lemma_usable_origin(lines(contents), i);
    let line = lines(contents)[j];
    lemma_line_is_part(contents, j);
    let bounds = lemma_trimmed(line);
    lemma_trimmed_idempotent(line);
    assert forall|k: int| 0 <= k < trimmed(line).len() implies #[trigger] trimmed(line)[k]
        != '\n' by {
        assert(trimmed(line)[k] == line[bounds.0 + k]);
    }
}

/// Codes that are not empty and have no white space at their ends are all usable as they
/// stand.
pub proof fn lemma_usable_of_clean(codes: Seq<Seq<char>>)
    requires
        forall|i: int|
            0 <= i < codes.len() ==> (#[trigger] codes[i]).len() > 0 && trimmed(codes[i])
                == codes[i],
    ensures
        usable(codes) == codes,
    decreases codes.len(),
{
    if codes.len() == 0 {
        assert(usable(codes) =~= codes) by {
            reveal(Seq::filter);
        }
    } else {
        let front = codes.drop_last();
        assert(codes =~= front.push(codes.last()));
        assert forall|i: int| 0 <= i < front.len() implies (#[trigger] front[i]).len() > 0
            && trimmed(front[i]) == front[i] by {
            assert(front[i] == codes[i]);
        }
        lemma_usable_of_clean(front);
        lemma_usable_push(front, codes.last());
        assert(codes.last() == codes[codes.len() - 1]);
    }
}

/// The codes that a text lists are all usable as they stand.
pub proof fn lemma_listed_codes_are_usable(contents: Seq<char>)
    ensures
        usable(code_list(contents)) == code_list(contents),
{
    let codes = code_list(contents);
    assert forall|i: int| 0 <= i < codes.len() implies (#[trigger] codes[i]).len() > 0 && trimmed(
        codes[i],
    ) == codes[i] by {
        lemma_listed_code_is_clean(contents, i);
    }
    lemma_usable_of_clean(codes);
}

/// Lines that hold nothing but white space give no usable line.
pub proof fn lemma_blank_lines_are_dropped(lines: Seq<Seq<char>>)
    requires
        forall|j: int, k: int|
            0 <= j < lines.len() && 0 <= k < lines[j].len() ==> is_whitespace(
                #[trigger] lines[j][k],
            ),
    ensures
        usable(lines).len() == 0,
    decreases lines.len(),
{
    if lines.len() == 0 {
        reveal(Seq::filter);
    } else {
        let front = lines.drop_last();
        assert(lines =~= front.push(lines.last()));
        assert forall|j: int, k: int|
            0 <= j < front.len() && 0 <= k < front[j].len() implies is_whitespace(
            #[trigger] front[j][k],
        ) by {
            assert(front[j][k] == lines[j][k]);
        }
        lemma_blank_lines_are_dropped(front);
        lemma_usable_push(front, lines.last());
        assert forall|k: int| 0 <= k < lines.last().len() implies is_whitespace(
            #[trigger] lines.last()[k],
        ) by {
            assert(lines.last()[k] == lines[lines.len() - 1][k]);
        }
        lemma_trimmed_of_blank(lines.last());
    }
}

/// A text that is empty, or holds nothing but white space, lists no code.
pub proof fn lemma_blank_text_lists_no_code(contents: Seq<char>)
    requires
        forall|i: int| 0 <= i < contents.len() ==> is_whitespace(#[trigger] contents[i]),
    ensures
        code_list(contents).len() == 0,
{
    let all = lines(contents);
    assert forall|j: int, k: int| 0 <= j < all.len() && 0 <= k < all[j].len() implies is_whitespace(
        #[trigger] all[j][k],
    ) by {
        let bounds = lemma_line_is_part(contents, j);
        assert(all[j][k] == contents[bounds.0 + k]);
    }
    lemma_blank_lines_are_dropped(all);
}

/// Where the line that begins at `from` ends: at the next line feed, or at the end of `chars`.
fn line_end(chars: &Vec<char>, from: usize) -> (end: usize)
    requires
        from <= chars.len(),
    ensures
        from <= end <= chars.len(),
        end - from == first_line_len(chars@.skip(from as int)),
{
    let mut end: usize = from;
    while end < chars.len() && chars[end] != '\n'
        invariant
            from <= end <= chars.len(),
            first_line_len(chars@.skip(from as int)) == (end - from) + first_line_len(
                chars@.skip(end as int),
            ),
        decreases chars.len() - end,
    {
        assert(chars@.skip(end as int).skip(1) =~= chars@.skip(end + 1));
        end += 1;
    }
    end
}

/// The codes that `contents` lists, whether or not there are any.
pub fn parse_lines(contents: &str) -> (codes: Vec<String>)
    ensures
        codes.deep_view() == code_list(contents@),
{
    let chars = chars_of(contents);
    let mut codes: Vec<String> = Vec::new();
    let mut pos: usize = 0;
    let mut done = false;
    assert(chars@.skip(0) =~= chars@);
    assert(codes.deep_view() + code_list(chars@) =~= code_list(chars@));
    while !done
        invariant
            pos <= chars.len(),
            chars@ == contents@,
            !done ==> codes.deep_view() + code_list(chars@.skip(pos as int)) == code_list(chars@),
            done ==> codes.deep_view() == code_list(chars@),
        decreases
                (if done {
                    0
                } else {
                    chars.len() - pos + 1
                }),
    {
        let end = line_end(&chars, pos);
        let (a, b) = trim_bounds(&chars, pos, end);
        let ghost rest = chars@.skip(pos as int);
        let ghost line = chars@.subrange(pos as int, end as int);
        let ghost before = codes.deep_view();
        let ghost found: Seq<Seq<char>> = if trimmed(line).len() > 0 {
            seq![trimmed(line)]
        } else {
            Seq::empty()
        };
        if a < b {
            let code = string_from(&chars, a, b);
            codes.push(code);
        }
        assert(codes.deep_view() =~= before + found);
        if end < chars.len() {
            proof {
                assert(rest.take(end - pos) =~= line);
                assert(rest.skip(end - pos + 1) =~= chars@.skip(end + 1));
                lemma_usable_prepend(line, lines(chars@.skip(end + 1)));
                assert((before + found) + code_list(chars@.skip(end + 1)) =~= before + (found
                    + code_list(chars@.skip(end + 1))));
            }
            pos = end + 1;
        } else {
            proof {
                assert(rest =~= line);
                lemma_usable_prepend(line, Seq::empty());
                assert(seq![line] + Seq::<Seq<char>>::empty() =~= seq![line]);
                assert(usable(Seq::<Seq<char>>::empty()) =~= Seq::<Seq<char>>::empty()) by {
                    reveal(Seq::filter);
                }
            }
            done = true;
        }
    }
    codes
}

/// The codes that `contents` lists, or the reason why there are none.
pub fn parse_codes(contents: &str) -> (parsed: Result<Vec<String>, InputError>)
    ensures
        parsed is Ok <==> code_list(contents@).len() > 0,
        parsed matches Ok(codes) ==> codes.deep_view() == code_list(contents@),
        parsed matches Err(error) ==> error == InputError::NoCodes,
{
    let codes = parse_lines(contents);
    if codes.len() == 0 {
        Err(InputError::NoCodes)
    } else {
        Ok(codes)
    }
}

} // verus!
