use hyprsnipe_checker::codes::{parse_codes, parse_lines, InputError};
use hyprsnipe_checker::text::{char_is_whitespace, trim};

fn strings(items: &[&str]) -> Vec<String> {
    items.iter().map(|item| item.to_string()).collect()
}

#[test]
fn blank_lines_are_dropped_and_codes_are_trimmed() {
    let contents = ["A1", "", "  B2  ", "\n"].join("\n");
    assert_eq!(parse_codes(&contents), Ok(strings(&["A1", "B2"])));
}

#[test]
fn empty_text_has_no_codes() {
    assert_eq!(parse_codes(""), Err(InputError::NoCodes));
    assert_eq!(parse_lines(""), Vec::<String>::new());
}

#[test]
fn white_space_alone_has_no_codes() {
    assert_eq!(parse_codes(" \n\t\n\r\n   \n"), Err(InputError::NoCodes));
    assert_eq!(parse_codes("\u{a0}\u{2003}\n\u{3000}"), Err(InputError::NoCodes));
}

#[test]
fn last_line_needs_no_line_feed() {
    assert_eq!(parse_codes("A1\nB2"), Ok(strings(&["A1", "B2"])));
    assert_eq!(parse_codes("A1"), Ok(strings(&["A1"])));
}

#[test]
fn carriage_returns_are_trimmed() {
    assert_eq!(parse_codes("A1\r\nB2\r\n"), Ok(strings(&["A1", "B2"])));
}

#[test]
fn white_space_inside_a_code_stays() {
    assert_eq!(parse_codes("  A 1\t\n"), Ok(strings(&["A 1"])));
}

#[test]
fn codes_keep_the_order_of_the_lines() {
    assert_eq!(parse_codes("z\na\nz\n"), Ok(strings(&["z", "a", "z"])));
}

#[test]
fn parsing_agrees_with_lines_and_trim() {
    let contents = "one\n\n  two\u{2028}\n\u{85}three \r\n\t\nfour\u{200b}\n five";
    let expected: Vec<String> = contents
        .lines()
        .map(|line| line.trim().to_string())
        .filter(|line| !line.is_empty())
        .collect();
    assert_eq!(parse_lines(contents), expected);
}

#[test]
fn trim_cuts_white_space_at_both_ends_only() {
    assert_eq!(trim("  a b  "), "a b");
    assert_eq!(trim("\u{3000}x\u{1680}"), "x");
    assert_eq!(trim("x"), "x");
    assert_eq!(trim(" \t "), "");
    assert_eq!(trim(""), "");
}

#[test]
fn white_space_is_what_the_standard_library_says() {
    let mut n: u32 = 0;
    while n <= 0x10ffff {
        if let Some(c) = char::from_u32(n) {
            assert_eq!(char_is_whitespace(c), c.is_whitespace());
        }
        n += 1;
    }
}

#[test]
fn parsing_agrees_with_lines_and_trim_on_every_short_text() {
    let alphabet = ['a', ' ', '\n', '\r', '\t', '\u{a0}'];
    let mut texts: Vec<String> = vec![String::new()];
    let mut from = 0;
    for _ in 0..5 {
        let upto = texts.len();
        for i in from..upto {
            for c in alphabet {
                let mut longer = texts[i].clone();
                longer.push(c);
                texts.push(longer);
            }
        }
        from = upto;
    }
    assert_eq!(texts.len(), 1 + 6 + 36 + 216 + 1296 + 7776);
    for text in texts {
        let expected: Vec<String> = text
            .lines()
            .map(|line| line.trim().to_string())
            .filter(|line| !line.is_empty())
            .collect();
        assert_eq!(parse_lines(&text), expected);
        assert_eq!(trim(&text), text.trim());
    }
}
