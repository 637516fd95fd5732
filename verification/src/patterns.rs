//! The shapes of Bun's output lines, as regular expressions.
use crate::text::{
    chars_of, has_text, is_white_space, occurrences, trimmed, trimmed_end, trimmed_start,
};
use regex::Regex;
use vstd::prelude::*;

verus! {

/// Bun's per-count summary lines: " N pass" / " N fail" / " N skip" / " N todo".
/// Anchored to end-of-line so ordinary console output like "5 passengers
/// boarded" is never mistaken for the "N pass" summary.
pub const BUN_TEST_COUNT_RE: &'static str = r"^\s*\d+\s+(pass|fail|skip|todo)\s*$";

/// " N expect() calls", plus the snapshot variant " N snapshots, N expect() calls".
pub const BUN_TEST_EXPECT_RE: &'static str = r"^\s*(\d+\s+snapshots?,\s*)?\d+\s+expect\(\)";

/// "snapshots: +1 added" / "snapshots: 1 obsolete".
pub const BUN_SNAPSHOT_RE: &'static str = r"^snapshots:\s";

/// The "X tests failed:" line that opens the trailing list of failures.
pub const BUN_TESTS_FAILED_RE: &'static str = r"^\d+\s+tests?\s+failed:";

/// The result line of a failed test. It always ends with a timing suffix like
/// `[0.08ms]`, which keeps console output such as `FAILED to connect` apart.
pub const BUN_FAIL_MARKER_RE: &'static str =
    r"^(✗|✘|\(fail\)).*\[\d+(\.\d+)?(ms|s)\]\s*$";

/// The result line of a passed test, with the same timing suffix.
pub const BUN_PASS_MARKER_RE: &'static str =
    r"^(✓|✔|\(pass\)).*\[\d+(\.\d+)?(ms|s)\]\s*$";

/// Version banners: "bun test v1.3.14 (0d9b296a)", "bun install v…", "bun add v…".
pub const BUN_BANNER_RE: &'static str = r"^bun (test|install|add|remove|build|run) v\d";

/// A bundled artifact line: "index.js  72 bytes  (entry point)", "app.js  45.2KB".
pub const BUN_BUILD_ENTRY_RE: &'static str = r"^\S+\s+[\d.]+\s*(bytes|KB|MB|GB|B)\b";

/// An installed/removed package line: "+ zod@4.4.3", "installed chalk@6.0.0".
pub const BUN_PACKAGE_RE: &'static str = r"^([+-]\s+\S+@|installed\s+\S+@)";

/// The patterns of this module.
pub open spec fn is_bun_pattern(pattern: Seq<char>) -> bool {
    ||| pattern == BUN_TEST_COUNT_RE@
    ||| pattern == BUN_TEST_EXPECT_RE@
    ||| pattern == BUN_SNAPSHOT_RE@
    ||| pattern == BUN_TESTS_FAILED_RE@
    ||| pattern == BUN_FAIL_MARKER_RE@
    ||| pattern == BUN_PASS_MARKER_RE@
    ||| pattern == BUN_BANNER_RE@
    ||| pattern == BUN_BUILD_ENTRY_RE@
    ||| pattern == BUN_PACKAGE_RE@
}

/// The patterns, letter for letter: what is said of each of them is said of this text.
pub proof fn law_patterns_letter_for_letter()
    ensures
        BUN_TEST_COUNT_RE@ == r"^\s*\d+\s+(pass|fail|skip|todo)\s*$"@,
        BUN_TEST_EXPECT_RE@ == r"^\s*(\d+\s+snapshots?,\s*)?\d+\s+expect\(\)"@,
        BUN_SNAPSHOT_RE@ == r"^snapshots:\s"@,
        BUN_TESTS_FAILED_RE@ == r"^\d+\s+tests?\s+failed:"@,
        BUN_FAIL_MARKER_RE@ == r"^(✗|✘|\(fail\)).*\[\d+(\.\d+)?(ms|s)\]\s*$"@,
        BUN_PASS_MARKER_RE@ == r"^(✓|✔|\(pass\)).*\[\d+(\.\d+)?(ms|s)\]\s*$"@,
        BUN_BANNER_RE@ == r"^bun (test|install|add|remove|build|run) v\d"@,
        BUN_BUILD_ENTRY_RE@ == r"^\S+\s+[\d.]+\s*(bytes|KB|MB|GB|B)\b"@,
        BUN_PACKAGE_RE@ == r"^([+-]\s+\S+@|installed\s+\S+@)"@,
{
}

/// What `regex::Regex::is_match` answers on `text` for the expression that
/// `pattern` is the source of.
pub uninterp spec fn regex_is_match(pattern: Seq<char>, text: Seq<char>) -> bool;

/// Whether `text` begins with one of the signs that open a failed test's line.
pub open spec fn opens_as_failed(text: Seq<char>) -> bool {
    ||| seq!['✗'].is_prefix_of(text)
    ||| seq!['✘'].is_prefix_of(text)
    ||| "(fail)"@.is_prefix_of(text)
}

/// Whether `text` begins with one of the signs that open a passed test's line.
pub open spec fn opens_as_passed(text: Seq<char>) -> bool {
    ||| seq!['✓'].is_prefix_of(text)
    ||| seq!['✔'].is_prefix_of(text)
    ||| "(pass)"@.is_prefix_of(text)
}

/// A line that opens with one of those signs, without the sign.
pub open spec fn after_sign(text: Seq<char>) -> Seq<char> {
    if text.len() > 0 && text[0] == '(' {
        text.skip(6)
    } else {
        text.skip(1)
    }
}

/// Whether `rest` makes a result line behind a sign. Each sign asks the same of it.
pub open spec fn reads_as_result(rest: Seq<char>) -> bool {
    regex_is_match(BUN_PASS_MARKER_RE@, "(pass)"@ + rest)
}

/// Whether `s` is a run of ASCII digits.
pub open spec fn is_digits(s: Seq<char>) -> bool {
    s.len() > 0 && forall|k: int| 0 <= k < s.len() ==> '0' <= #[trigger] s[k] <= '9'
}

/// Whether `s` is a number in ASCII digits, with or without a fraction.
pub open spec fn is_number(s: Seq<char>) -> bool {
    ||| is_digits(s)
    ||| exists|d: int|
        0 < d < s.len() && #[trigger] s[d] == '.' && is_digits(s.take(d)) && is_digits(
            s.skip(d + 1),
        )
}

/// The index of the first character from `from` on that is no ASCII digit.
pub(crate) fn digits_end(cs: &Vec<char>, from: usize) -> (r: usize)
    requires
        from <= cs@.len(),
    ensures
        from <= r <= cs@.len(),
        forall|k: int| from <= k < r ==> '0' <= #[trigger] cs@[k] <= '9',
        r < cs@.len() ==> !('0' <= cs@[r as int] <= '9'),
{
    let mut i: usize = from;
    while i < cs.len() && '0' <= cs[i] && cs[i] <= '9'
        invariant
            from <= i <= cs@.len(),
            forall|k: int| from <= k < i ==> '0' <= #[trigger] cs@[k] <= '9',
        decreases cs@.len() - i,
    {
        i += 1;
    }
    i
}

/// Whether `s` is a number in ASCII digits, with or without a fraction.
pub fn is_number_text(s: &str) -> (r: bool)
    ensures
        r == is_number(s@),
        r <==> {
            &&& s@.len() > 0
            &&& '0' <= s@[0] <= '9' && '0' <= s@.last() <= '9'
            &&& forall|k: int| 0 <= k < s@.len() ==> '0' <= #[trigger] s@[k] <= '9' || s@[k] == '.'
            &&& forall|i: int, j: int|
                0 <= i < j < s@.len() && #[trigger] s@[i] == '.' ==> #[trigger] s@[j] != '.'
        },
{
    proof {
        lemma_number_by_looks(s@);
    }
    let cs = chars_of(s);
    let n: usize = cs.len();
    let d: usize = digits_end(&cs, 0);
    if d == n {
        return n > 0;
    }
    if cs[d] != '.' {
        proof {
            lemma_number_splits_once(s@, d as int);
        }
        return false;
    }
    let e: usize = digits_end(&cs, d + 1);
    proof {
        lemma_number_splits_once(s@, d as int);
        assert(d > 0 ==> is_digits(s@.take(d as int)));
        let rest = s@.skip(d + 1);
        assert(forall|k: int| 0 <= k < rest.len() ==> rest[k] == s@[d + 1 + k]);
        if e < n {
            assert(rest[e - d - 1] == s@[e as int]);
        } else {
            assert forall|k: int| 0 <= k < rest.len() implies '0' <= #[trigger] rest[k] <= '9' by {
                assert(rest[k] == s@[d + 1 + k]);
            }
        }
        if d > 0 && d + 1 < e && e == n {
            assert(s@[d as int] == '.');
            assert(is_number(s@));
        }
    }
    d > 0 && d + 1 < e && e == n
}

/// A number begins and ends with a digit and holds digits and at most one point.
proof fn lemma_number_by_looks(s: Seq<char>)
    ensures
        is_number(s) <==> {
            &&& s.len() > 0
            &&& '0' <= s[0] <= '9' && '0' <= s.last() <= '9'
            &&& forall|k: int| 0 <= k < s.len() ==> '0' <= #[trigger] s[k] <= '9' || s[k] == '.'
            &&& forall|i: int, j: int|
                0 <= i < j < s.len() && #[trigger] s[i] == '.' ==> #[trigger] s[j] != '.'
        },
{
    if is_number(s) && !is_digits(s) {
        let d = choose|d: int|
            0 < d < s.len() && #[trigger] s[d] == '.' && is_digits(s.take(d)) && is_digits(
                s.skip(d + 1),
            );
        assert forall|k: int| 0 <= k < s.len() && k != d implies '0' <= #[trigger] s[k] <= '9' by {
            if k < d {
                assert(s.take(d)[k] == s[k]);
            } else {
                assert(s.skip(d + 1)[k - d - 1] == s[k]);
            }
        }
    }
    if s.len() > 0 && '0' <= s[0] <= '9' && '0' <= s.last() <= '9' && (forall|k: int|
        0 <= k < s.len() ==> '0' <= #[trigger] s[k] <= '9' || s[k] == '.') && (forall|
        i: int,
        j: int,
    |
        0 <= i < j < s.len() && #[trigger] s[i] == '.' ==> #[trigger] s[j] != '.') {
        if s.contains('.') {
            let d = choose|d: int| 0 <= d < s.len() && s[d] == '.';
            assert forall|k: int| 0 <= k < s.len() && k != d implies '0' <= #[trigger] s[k]
                <= '9' by {
                assert(s[k] != '.');
            }
            assert(is_digits(s.take(d)));
            assert(is_digits(s.skip(d + 1)));
            assert(s[d] == '.');
        } else {
            assert forall|k: int| 0 <= k < s.len() implies '0' <= #[trigger] s[k] <= '9' by {
                assert(s.contains(s[k]));
            }
            assert(is_digits(s));
        }
    }
}

/// The only point that a number may have stands where its first digits end.
proof fn lemma_number_splits_once(s: Seq<char>, d: int)
    requires
        0 <= d < s.len(),
        forall|k: int| 0 <= k < d ==> '0' <= #[trigger] s[k] <= '9',
        !('0' <= s[d] <= '9'),
    ensures
        is_number(s) ==> 0 < d && s[d] == '.' && is_digits(s.skip(d + 1)),
{
    if is_number(s) {
        if is_digits(s) {
            assert('0' <= s[d] <= '9');
        }
        let i = choose|i: int|
            0 < i < s.len() && #[trigger] s[i] == '.' && is_digits(s.take(i)) && is_digits(
                s.skip(i + 1),
            );
        if d < i {
            assert(s.take(i)[d] == s[d]);
        }
        if i < d {
            assert('0' <= s[i] <= '9');
        }
    }
}

/// Whether `s` is `n` as a time in brackets: "[0.08ms]" or "[2s]".
pub open spec fn is_time_of(s: Seq<char>, n: Seq<char>) -> bool {
    ||| s == seq!['['] + n + seq!['m', 's', ']']
    ||| s == seq!['['] + n + seq!['s', ']']
}

/// Whether `s` is a time in brackets, in ASCII digits.
pub open spec fn is_timing(s: Seq<char>) -> bool {
    exists|n: Seq<char>| #[trigger] is_number(n) && is_time_of(s, n)
}

/// Whether `c` is an ASCII digit or stands outside ASCII, where other digits are.
pub open spec fn may_be_digit(c: char) -> bool {
    '0' <= c <= '9' || c > '\u{7f}'
}

/// Whether `n` holds nothing of ASCII but digits and at most one point, which stands
/// neither first nor last.
pub open spec fn may_be_number(n: Seq<char>) -> bool {
    &&& n.len() > 0
    &&& n[0] != '.'
    &&& n.last() != '.'
    &&& occurrences(n, '.') <= 1
    &&& forall|k: int| 0 <= k < n.len() ==> #[trigger] n[k] == '.' || may_be_digit(n[k])
}

/// Whether `s` reads as a time in brackets, whatever the digits.
pub open spec fn may_be_timing(s: Seq<char>) -> bool {
    exists|n: Seq<char>| #[trigger] may_be_number(n) && is_time_of(s, n)
}

/// Whether `text` ends, but for white space, with what reads as a time in brackets.
pub open spec fn closes_as_timed(text: Seq<char>) -> bool {
    exists|i: int|
        0 <= i <= trimmed_end(text).len() && may_be_timing(#[trigger] trimmed_end(text).skip(i))
}

/// Whether `text` begins, but for white space, with what reads as a digit, and with none
/// of the signs.
pub open spec fn may_open_with_digit(text: Seq<char>) -> bool {
    let t = trimmed_start(text);
    t.len() > 0 && may_be_digit(t[0]) && !opens_as_failed(t) && !opens_as_passed(t)
}

/// Whether `text` is one line that ends with a time in brackets.
pub open spec fn is_timed_line(text: Seq<char>) -> bool {
    &&& !text.contains('\n')
    &&& exists|i: int| 0 <= i <= text.len() && is_timing(#[trigger] text.skip(i))
}

/// Whether `t` is a word up to `i`, white space up to `j`, and one of the four count
/// words from there on.
pub open spec fn splits_as_count(t: Seq<char>, i: int, j: int) -> bool {
    &&& 0 < i < j < t.len()
    &&& forall|k: int| 0 <= k < i ==> !is_white_space(#[trigger] t[k])
    &&& forall|k: int| i <= k < j ==> is_white_space(#[trigger] t[k])
    &&& {
        ||| t.skip(j) == "pass"@
        ||| t.skip(j) == "fail"@
        ||| t.skip(j) == "skip"@
        ||| t.skip(j) == "todo"@
    }
}

/// Whether `text` is a word and a count word, with nothing but white space between
/// and around them.
pub open spec fn is_count_of_two_words(text: Seq<char>) -> bool {
    exists|i: int, j: int| splits_as_count(trimmed(text), i, j)
}

/// Whether `text` is a number in ASCII digits and a count word, with nothing but white
/// space between and around them.
pub open spec fn is_count_in_digits(text: Seq<char>) -> bool {
    exists|i: int, j: int|
        splits_as_count(trimmed(text), i, j) && is_digits(trimmed(text).take(i))
}

/// Whether `t` holds nothing but white space from `i` up to `j`.
pub open spec fn is_space_between(t: Seq<char>, i: int, j: int) -> bool {
    forall|k: int| i <= k < j ==> is_white_space(#[trigger] t[k])
}

/// Whether `t` holds no white space from `i` up to `j`.
pub open spec fn is_word_between(t: Seq<char>, i: int, j: int) -> bool {
    forall|k: int| i <= k < j ==> !is_white_space(#[trigger] t[k])
}

/// Whether `part` stands in `t` at `i`.
pub open spec fn stands_at(t: Seq<char>, i: int, part: Seq<char>) -> bool {
    0 <= i <= t.len() - part.len() && t.subrange(i, i + part.len()) == part
}

/// Whether `text` begins with "snapshots:" and white space.
pub open spec fn is_snapshot_line(text: Seq<char>) -> bool {
    "snapshots:"@.is_prefix_of(text) && text.len() > 10 && is_white_space(text[10])
}

/// Whether `t` holds a number in ASCII digits from `i` up to `d`, white space up to `e`,
/// and "expect()" there.
pub open spec fn counts_expect(t: Seq<char>, i: int, d: int, e: int) -> bool {
    &&& 0 <= i < d < e <= t.len()
    &&& is_digits(t.subrange(i, d))
    &&& is_space_between(t, d, e)
    &&& stands_at(t, e, "expect()"@)
}

/// Whether `t` holds a number in ASCII digits from `s` up to `a`, white space up to `b`,
/// "snapshot," or "snapshots," there, and white space up to `i`.
pub open spec fn counts_snapshots(t: Seq<char>, s: int, a: int, b: int, i: int) -> bool {
    &&& 0 <= s < a < b < i <= t.len()
    &&& is_digits(t.subrange(s, a))
    &&& is_space_between(t, a, b)
    &&& {
        ||| b + 9 <= i && stands_at(t, b, "snapshot,"@) && is_space_between(t, b + 9, i)
        ||| b + 10 <= i && stands_at(t, b, "snapshots,"@) && is_space_between(t, b + 10, i)
    }
}

/// Whether `text` opens with a count of expect() calls in ASCII digits, with or without a
/// count of snapshots before it.
pub open spec fn is_expect_in_digits(text: Seq<char>) -> bool {
    exists|s: int, i: int, d: int, e: int|
        {
            &&& 0 <= s
            &&& #[trigger] is_space_between(text, 0, s)
            &&& #[trigger] counts_expect(text, i, d, e)
            &&& i == s || exists|a: int, b: int| counts_snapshots(text, s, a, b, i)
        }
}

/// Whether `t` has white space from `d` up to `a`, "test" or "tests" up to `e`, white
/// space up to `b`, and "failed:" there.
pub open spec fn splits_as_failed_list(t: Seq<char>, d: int, a: int, e: int, b: int) -> bool {
    &&& 0 < d < a < e < b <= t.len()
    &&& is_space_between(t, d, a)
    &&& {
        ||| e == a + 4 && stands_at(t, a, "test"@)
        ||| e == a + 5 && stands_at(t, a, "tests"@)
    }
    &&& is_space_between(t, e, b)
    &&& stands_at(t, b, "failed:"@)
}

/// Whether `text` opens the list of failures, in ASCII digits: "2 tests failed:".
pub open spec fn opens_failed_list(text: Seq<char>) -> bool {
    exists|d: int, a: int, e: int, b: int| #[trigger]
        splits_as_failed_list(text, d, a, e, b) && is_digits(text.take(d))
}

/// Whether `text` reads as the head of the list of failures, whatever the digits.
pub open spec fn may_open_failed_list(text: Seq<char>) -> bool {
    exists|d: int, a: int, e: int, b: int| #[trigger]
        splits_as_failed_list(text, d, a, e, b) && forall|k: int|
            0 <= k < d ==> may_be_digit(#[trigger] text[k])
}

/// The commands that print a banner.
pub open spec fn is_banner_command(w: Seq<char>) -> bool {
    ||| w == "test"@
    ||| w == "install"@
    ||| w == "add"@
    ||| w == "remove"@
    ||| w == "build"@
    ||| w == "run"@
}

/// What stands before the version in a command's banner: "bun test v".
pub open spec fn banner_head(w: Seq<char>) -> Seq<char> {
    "bun "@ + w + " v"@
}

/// Whether `text` opens with the banner of a command, with a version in ASCII digits.
pub open spec fn is_banner_line(text: Seq<char>) -> bool {
    exists|w: Seq<char>| #[trigger]
        is_banner_command(w) && banner_head(w).is_prefix_of(text) && text.len() > banner_head(
            w,
        ).len() && '0' <= text[banner_head(w).len() as int] <= '9'
}

/// Whether `text` opens with what reads as the banner of a command, whatever the digits.
pub open spec fn may_be_banner_line(text: Seq<char>) -> bool {
    exists|w: Seq<char>| #[trigger]
        is_banner_command(w) && banner_head(w).is_prefix_of(text) && text.len() > banner_head(
            w,
        ).len() && may_be_digit(text[banner_head(w).len() as int])
}

/// Whether `t` is a sign or "installed" up to `p`, white space up to `i`, a run without
/// white space up to `j`, and an at sign there.
pub open spec fn splits_as_package(t: Seq<char>, p: int, i: int, j: int) -> bool {
    &&& 0 < p < i < j < t.len()
    &&& {
        ||| p == 1 && (t[0] == '+' || t[0] == '-')
        ||| p == 9 && "installed"@.is_prefix_of(t)
    }
    &&& is_space_between(t, p, i)
    &&& is_word_between(t, i, j)
    &&& t[j] == '@'
}

/// Whether `text` opens as the line of a package: "+ zod@4.4.3", "installed chalk@6.0.0".
pub open spec fn is_package_line(text: Seq<char>) -> bool {
    exists|p: int, i: int, j: int| splits_as_package(text, p, i, j)
}

/// The units of an artifact's size.
pub open spec fn is_size_unit(w: Seq<char>) -> bool {
    ||| w == "bytes"@
    ||| w == "KB"@
    ||| w == "MB"@
    ||| w == "GB"@
    ||| w == "B"@
}

/// Whether `t` is a word up to `i`, white space up to `j`, something up to `k`, white
/// space or nothing up to `u`, and the unit `w` there.
pub open spec fn splits_as_entry(
    t: Seq<char>,
    i: int,
    j: int,
    k: int,
    u: int,
    w: Seq<char>,
) -> bool {
    &&& 0 < i < j < k <= u <= t.len()
    &&& is_word_between(t, 0, i)
    &&& is_space_between(t, i, j)
    &&& is_space_between(t, k, u)
    &&& is_size_unit(w)
    &&& stands_at(t, u, w)
}

/// An ASCII letter, an ASCII digit or an underscore.
pub open spec fn is_ascii_word(c: char) -> bool {
    'a' <= c <= 'z' || 'A' <= c <= 'Z' || '0' <= c <= '9' || c == '_'
}

/// Whether `text` opens with a word, a size in ASCII digits and a unit behind which the
/// text ends, or white space or an ASCII character that is no part of a word follows.
pub open spec fn is_entry_line(text: Seq<char>) -> bool {
    exists|i: int, j: int, k: int, u: int, w: Seq<char>|
        {
            let e = u + w.len();
            &&& #[trigger] splits_as_entry(text, i, j, k, u, w)
            &&& forall|x: int| j <= x < k ==> '0' <= #[trigger] text[x] <= '9' || text[x] == '.'
            &&& e == text.len() || is_white_space(text[e]) || (text[e] <= '\u{7f}'
                && !is_ascii_word(text[e]))
        }
}

/// Whether `text` opens with a word, what reads as a size and a unit that no ASCII
/// character of a word follows.
pub open spec fn may_be_entry_line(text: Seq<char>) -> bool {
    exists|i: int, j: int, k: int, u: int, w: Seq<char>|
        {
            let e = u + w.len();
            &&& #[trigger] splits_as_entry(text, i, j, k, u, w)
            &&& forall|x: int| j <= x < k ==> may_be_digit(#[trigger] text[x]) || text[x] == '.'
            &&& e == text.len() || !is_ascii_word(text[e])
        }
}

/// What reads as a banner begins with "bun ".
pub proof fn law_banner_opens_with_bun(text: Seq<char>)
    requires
        may_be_banner_line(text),
    ensures
        "bun "@.is_prefix_of(text),
{
    let w = choose|w: Seq<char>| #[trigger]
        is_banner_command(w) && banner_head(w).is_prefix_of(text) && text.len() > banner_head(
            w,
        ).len() && may_be_digit(text[banner_head(w).len() as int]);
    let n = banner_head(w).len() as int;
    assert("bun "@ =~= banner_head(w).take("bun "@.len() as int));
    assert(banner_head(w) == text.subrange(0, n));
    assert("bun "@ =~= text.subrange(0, "bun "@.len() as int));
}

/// The compiled expression of the `regex` crate.
#[verifier::external_type_specification]
#[verifier::external_body]
pub struct ExRegex(Regex);

/// A compiled pattern. Its view is the pattern's source. Values come from
/// `compile` alone, so the expression is always that of the source.
pub struct Matcher {
    source: String,
    regex: Regex,
}

impl View for Matcher {
    type V = Seq<char>;

    closed spec fn view(&self) -> Seq<char> {
        self.source@
    }
}

impl Matcher {
    /// Compiles a pattern with `regex::Regex::new`, which fails on no pattern of
    /// this module; the matcher remembers the source.
    #[verifier::external_body]
    pub(crate) fn compile(pattern: &str) -> (r: Matcher)
        requires
            is_bun_pattern(pattern@),
        ensures
            r@ == pattern@,
    {
        Matcher { source: pattern.to_string(), regex: Regex::new(pattern).unwrap() }
    }

    /// Asks `regex::Regex::is_match` whether the pattern matches in `text`. The
    /// answer depends on the pattern and the text alone. The other clauses read the
    /// patterns by the crate's documented syntax: `\s` is white space and `\S` the rest,
    /// `\d` has the ASCII digits and none of the other ASCII characters, and `^` and `$`
    /// are the ends of the text.
    ///
    /// Two patterns are stated in full: the package line and the snapshot line. Of the
    /// others the contract says which lines match for certain, in ASCII digits, and how
    /// every line that matches looks. Both markers stand between their sign and a time in
    /// brackets; behind each of the six signs they have the same expression, so they ask
    /// the same of the rest. The counts and the head of the list of failures begin with a
    /// digit. Left unsaid is which characters outside ASCII are digits, and whether one
    /// that follows an artifact's unit belongs to a word.
    #[verifier::external_body]
    pub(crate) fn is_match(&self, text: &str) -> (r: bool)
        ensures
            r == regex_is_match(self@, text@),
            // Result lines.
            r && self@ == BUN_FAIL_MARKER_RE@ ==> opens_as_failed(text@) && closes_as_timed(text@),
            r && self@ == BUN_PASS_MARKER_RE@ ==> opens_as_passed(text@) && closes_as_timed(text@),
            self@ == BUN_FAIL_MARKER_RE@ && opens_as_failed(text@) && is_timed_line(text@) ==> r,
            self@ == BUN_PASS_MARKER_RE@ && opens_as_passed(text@) && is_timed_line(text@) ==> r,
            self@ == BUN_FAIL_MARKER_RE@ && opens_as_failed(text@) ==> r == reads_as_result(
                after_sign(text@),
            ),
            self@ == BUN_PASS_MARKER_RE@ && opens_as_passed(text@) ==> r == reads_as_result(
                after_sign(text@),
            ),
            // The head of the list of failures.
            r && self@ == BUN_TESTS_FAILED_RE@ ==> may_open_failed_list(text@)
                && may_open_with_digit(text@),
            self@ == BUN_TESTS_FAILED_RE@ && opens_failed_list(text@) ==> r,
            // The summary.
            r && self@ == BUN_TEST_COUNT_RE@ ==> is_count_of_two_words(text@)
                && may_open_with_digit(text@),
            self@ == BUN_TEST_COUNT_RE@ && is_count_in_digits(text@) ==> r,
            r && self@ == BUN_TEST_EXPECT_RE@ ==> has_text(text@, "expect()"@)
                && may_open_with_digit(text@),
            self@ == BUN_TEST_EXPECT_RE@ && is_expect_in_digits(text@) ==> r,
            self@ == BUN_SNAPSHOT_RE@ ==> r == is_snapshot_line(text@),
            // Banners, packages and artifacts.
            r && self@ == BUN_BANNER_RE@ ==> may_be_banner_line(text@),
            self@ == BUN_BANNER_RE@ && is_banner_line(text@) ==> r,
            self@ == BUN_PACKAGE_RE@ ==> r == is_package_line(text@),
            r && self@ == BUN_BUILD_ENTRY_RE@ ==> may_be_entry_line(text@),
            self@ == BUN_BUILD_ENTRY_RE@ && is_entry_line(text@) ==> r,
    {
        self.regex.is_match(text)
    }
}

} // verus!
