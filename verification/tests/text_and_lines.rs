use bun_filter::ansi::strip_ansi;
use bun_filter::lines::{join, push_first, split_lines};
use bun_filter::report::{finish, finish_verbatim, push_overflow};
use bun_filter::text::{
    chars_of, contains, contains_char, count_char, ends_with, push_decimal, signed_to_string,
    starts_with, string_of, trim, white_space,
};

fn strings(v: &[&str]) -> Vec<String> {
    v.iter().map(|s| s.to_string()).collect()
}

#[test]
fn white_space_is_the_unicode_property() {
    for c in '\0'..=char::MAX {
        assert_eq!(white_space(c), c.is_whitespace(), "{:?}", c);
    }
}

#[test]
fn trim_agrees_with_std() {
    for s in ["", " ", "a", " a ", "\t a b\u{a0}\n", "\u{3000}✗ x\u{2028}", "a\u{200b}", "\r\n"] {
        assert_eq!(trim(s), s.trim());
        assert_eq!(trim(trim(s)), trim(s));
    }
}

#[test]
fn split_lines_agrees_with_std() {
    for s in [
        "", "\n", "a", "a\n", "a\nb", "a\r\nb\r\n", "a\r", "a\r\r\n", "\n\na\n", "a\rb\n", "…\n✗",
    ] {
        let expected: Vec<String> = s.lines().map(|l| l.to_string()).collect();
        assert_eq!(split_lines(s), expected, "{:?}", s);
    }
}

#[test]
fn joined_lines_are_read_back() {
    let lines = strings(&["  a", "", "b  ", "…"]);
    let text = join(&lines, "\n");
    assert_eq!(text, "  a\n\nb  \n…");
    assert_eq!(split_lines(&text), lines);
}

#[test]
fn a_carriage_return_at_a_line_end_is_not_read_back() {
    let text = join(&strings(&["a\r", "b"]), "\n");
    assert_eq!(split_lines(&text), strings(&["a", "b"]));
}

#[test]
fn join_edges() {
    assert_eq!(join(&[], ", "), "");
    assert_eq!(join(&strings(&["x"]), ", "), "x");
    assert_eq!(join(&strings(&["x", "", "y"]), ", "), "x, , y");
}

#[test]
fn push_first_takes_at_most_what_is_there() {
    let mut out = strings(&["a"]);
    push_first(&mut out, &strings(&["b", "c", "d"]), 2);
    push_first(&mut out, &strings(&["e"]), 5);
    assert_eq!(out, strings(&["a", "b", "c", "e"]));
}

#[test]
fn searches_agree_with_std() {
    let texts = ["", "a", "abc", "Bundled", "x.test.ts:", "aab", "…✗…", "bab"];
    let parts = ["", "a", "ab", ":", ".test.", "aab", "✗", "abcd"];
    for s in texts {
        for p in parts {
            assert_eq!(starts_with(s, p), s.starts_with(p), "{:?} {:?}", s, p);
            assert_eq!(ends_with(s, p), s.ends_with(p), "{:?} {:?}", s, p);
            assert_eq!(contains(s, p), s.contains(p), "{:?} {:?}", s, p);
        }
        for c in ['a', 'b', '✗'] {
            assert_eq!(contains_char(s, c), s.contains(c));
            assert_eq!(count_char(s, c), s.matches(c).count());
        }
    }
}

#[test]
fn characters_and_back() {
    let cs = chars_of("a…b");
    assert_eq!(cs, vec!['a', '…', 'b']);
    assert_eq!(string_of(&cs, 1, 3), "…b");
    assert_eq!(string_of(&cs, 2, 2), "");
}

#[test]
fn decimals_agree_with_std() {
    for n in [0, 7, 9, 10, 99, 100, 137, -1, -10, i32::MAX, i32::MIN] {
        assert_eq!(signed_to_string(n), n.to_string());
    }
    let mut out = String::from("+");
    push_decimal(&mut out, u64::MAX);
    assert_eq!(out, format!("+{}", u64::MAX));
}

#[test]
fn strip_ansi_removes_colours() {
    assert_eq!(strip_ansi("\u{1b}[31mred\u{1b}[0m"), "red");
    assert_eq!(strip_ansi("\u{1b}[1;32m✓\u{1b}[m ok\u{1b}[2K"), "✓ ok");
    assert_eq!(strip_ansi("plain [31m text"), "plain [31m text");
    assert_eq!(strip_ansi("\u{1b}[31"), "\u{1b}[31");
    assert_eq!(strip_ansi("\u{1b}[31 m"), "\u{1b}[31 m");
    assert_eq!(strip_ansi("\u{1b}\u{1b}[m[m"), "\u{1b}[m");
    assert_eq!(strip_ansi(""), "");
}

#[test]
fn finish_joins_and_trims() {
    assert_eq!(finish(strings(&["  a", "", " b  "]), 0, "bun x"), "a\n\n b");
}

#[test]
fn finish_reports_why_nothing_was_kept() {
    assert_eq!(finish(Vec::new(), 0, "bun x"), "ok");
    assert_eq!(finish(strings(&["", "  "]), 137, "bun x"), "bun x exited with code 137");
    assert_eq!(finish(Vec::new(), -1, "bun x"), "bun x exited with code -1");
    assert_eq!(finish_verbatim(Vec::new(), 0, "bun x"), "ok");
    assert_eq!(finish_verbatim(strings(&["\t"]), 1, "bun x"), "bun x exited with code 1");
}

#[test]
fn finish_verbatim_keeps_white_space() {
    assert_eq!(finish_verbatim(strings(&["  a", "b  ", "", " "]), 0, "bun x"), "  a\nb  ");
}

#[test]
fn push_overflow_counts_and_points() {
    let mut out = strings(&["a"]);
    push_overflow(&mut out, 12, "failures", Some("see file"));
    push_overflow(&mut out, 3, "lines", None);
    assert_eq!(out, strings(&["a", "… +12 more failures", "see file", "… +3 more lines"]));
}
