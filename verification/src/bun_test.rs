//! Filters the output of `bun test`: passing tests go, failures and the summary stay.
use crate::ansi::{strip_ansi, without_ansi};
use crate::limits::{CAP_ERRORS, MAX_BUN_FAILURES};
use crate::lines::{join, joined, lines_of, push_first, split_lines, texts};
use crate::patterns::{
    after_sign, closes_as_timed, digits_end, is_banner_line, is_count_in_digits,
    is_count_of_two_words, is_digits, is_expect_in_digits, is_number, is_number_text,
    is_snapshot_line, is_timed_line, may_be_banner_line, may_open_failed_list, may_open_with_digit,
    opens_as_failed, opens_as_passed, opens_failed_list, reads_as_result, regex_is_match, Matcher,
    BUN_BANNER_RE, BUN_FAIL_MARKER_RE, BUN_PASS_MARKER_RE, BUN_SNAPSHOT_RE, BUN_TESTS_FAILED_RE,
    BUN_TEST_COUNT_RE, BUN_TEST_EXPECT_RE,
};
use crate::report::{
    finish_verbatim, finished_verbatim, hint_text, overflow_lines, push_overflow, TeeRequest,
};
use crate::test_laws::{
    holds_passed_lines, law_passed_lines_change_nothing, law_row_has_three_bars,
};
use crate::text::{
    chars_of, contains, count_char, ends_with, has_text, is_blank, is_white_space,
    law_blank_trims_to_nothing, occurrences, starts_with, string_of, trim, trimmed, white_space,
};
use vstd::prelude::*;

verus! {

/// What the patterns say of a line.
#[derive(Clone, Copy, PartialEq, Eq, Structural, Debug)]
pub struct TestMatches {
    pub failed_list: bool,
    pub fail_marker: bool,
    pub pass_marker: bool,
    pub banner: bool,
    pub count: bool,
    pub expect: bool,
    pub snapshot: bool,
}

/// What a line is to the report.
#[derive(Clone, Copy, PartialEq, Eq, Structural, Debug)]
pub enum LineKind {
    /// Nothing but white space.
    Blank,
    /// The head of the trailing list that repeats the failures.
    FailedList,
    /// A row of the coverage table; `marker` where it also reads as a failure.
    Coverage { marker: bool },
    /// The result line of a failed test.
    Failure,
    /// The result line of a passed test, a file's name or Bun's banner.
    Discarded,
    /// A line of the summary.
    Summary,
    /// Anything else: it may explain the failure that follows.
    Context,
}

/// Whether a trimmed line is the result of a failed test.
pub open spec fn fail_marker(line: Seq<char>) -> bool {
    regex_is_match(BUN_FAIL_MARKER_RE@, line)
}

/// Whether a trimmed line is the result of a passed test.
pub open spec fn pass_marker(line: Seq<char>) -> bool {
    regex_is_match(BUN_PASS_MARKER_RE@, line)
}

/// Whether a trimmed line names a test file: "math.test.ts:".
pub open spec fn test_file_header(line: Seq<char>) -> bool {
    ":"@.is_suffix_of(line) && (has_text(line, ".test."@) || has_text(line, ".spec."@))
}

/// Whether a trimmed line belongs to the summary, given what three patterns say.
pub open spec fn summary_line_given(
    line: Seq<char>,
    count: bool,
    expect: bool,
    snapshot: bool,
) -> bool {
    count || expect || snapshot || "Ran "@.is_prefix_of(line) || "Bailed out after "@.is_prefix_of(
        line,
    )
}

/// Whether a trimmed line belongs to the summary.
pub open spec fn summary_line(line: Seq<char>) -> bool {
    summary_line_given(
        line,
        regex_is_match(BUN_TEST_COUNT_RE@, line),
        regex_is_match(BUN_TEST_EXPECT_RE@, line),
        regex_is_match(BUN_SNAPSHOT_RE@, line),
    )
}

/// Whether a line is a row of the coverage table: it has the column separators.
pub open spec fn coverage_row(line: Seq<char>) -> bool {
    occurrences(line, '|') >= 3
}

/// Whether `t` is a line number up to `d`, white space up to `b`, and a bar there.
pub open spec fn splits_as_frame(t: Seq<char>, d: int, b: int) -> bool {
    &&& 0 < d <= b < t.len()
    &&& is_digits(t.take(d))
    &&& is_blank(t.subrange(d, b))
    &&& t[b] == '|'
}

/// Whether a trimmed line is one of a code frame: "5 | expect(a || b).toBe(true)".
pub open spec fn code_frame(t: Seq<char>) -> bool {
    exists|d: int, b: int| splits_as_frame(t, d, b)
}

/// Whether the first three bars of `t` stand at `a`, `b` and `c`.
pub open spec fn bars_at(t: Seq<char>, a: int, b: int, c: int) -> bool {
    &&& 0 <= a < b < c < t.len()
    &&& t[a] == '|' && t[b] == '|' && t[c] == '|'
    &&& forall|k: int| 0 <= k < c && k != a && k != b ==> #[trigger] t[k] != '|'
}

/// Whether a trimmed line has numbers in its second and third cells, as the row of a file
/// in the coverage table has: "404 | 50.00 | 50.00 | 3".
pub open spec fn percent_row(t: Seq<char>) -> bool {
    exists|a: int, b: int, c: int| #[trigger]
        bars_at(t, a, b, c) && is_number(trimmed(t.subrange(a + 1, b))) && is_number(
            trimmed(t.subrange(b + 1, c)),
        )
}

/// What the patterns say of a trimmed line.
pub open spec fn test_matches(line: Seq<char>) -> TestMatches {
    TestMatches {
        failed_list: regex_is_match(BUN_TESTS_FAILED_RE@, line),
        fail_marker: fail_marker(line),
        pass_marker: pass_marker(line),
        banner: regex_is_match(BUN_BANNER_RE@, line),
        count: regex_is_match(BUN_TEST_COUNT_RE@, line),
        expect: regex_is_match(BUN_TEST_EXPECT_RE@, line),
        snapshot: regex_is_match(BUN_SNAPSHOT_RE@, line),
    }
}

/// What a line is, given what the patterns say of it trimmed. The source code that
/// Bun quotes before a failure is context, unless it looks like the row of a file in the
/// coverage table.
pub open spec fn kind_given(line: Seq<char>, m: TestMatches) -> LineKind {
    let t = trimmed(line);
    if is_blank(line) {
        LineKind::Blank
    } else if code_frame(t) && !percent_row(t) {
        LineKind::Context
    } else if m.failed_list {
        LineKind::FailedList
    } else if coverage_row(t) {
        LineKind::Coverage { marker: m.fail_marker }
    } else if m.fail_marker {
        LineKind::Failure
    } else if m.pass_marker || test_file_header(t) || m.banner {
        LineKind::Discarded
    } else if summary_line_given(t, m.count, m.expect, m.snapshot) {
        LineKind::Summary
    } else {
        LineKind::Context
    }
}

/// A line with what the patterns say of it.
pub type NotedLine = (Seq<char>, TestMatches);

/// The kind of a noted line.
pub open spec fn kind(l: NotedLine) -> LineKind {
    kind_given(l.0, l.1)
}

/// Whether a noted line reads as a failure.
pub open spec fn is_marker(l: NotedLine) -> bool {
    kind(l) == LineKind::Failure || kind(l) == (LineKind::Coverage { marker: true })
}

/// The content of a list of noted lines.
pub open spec fn noted(v: Seq<(String, TestMatches)>) -> Seq<NotedLine> {
    v.map_values(|l: (String, TestMatches)| (l.0@, l.1))
}

/// The lines of `text`, each with what the patterns say of it.
pub open spec fn noted_lines(text: Seq<char>) -> Seq<NotedLine> {
    lines_of(text).map_values(|l: Seq<char>| (l, test_matches(trimmed(l))))
}

/// Whether a failure behind `ls` belongs to the trailing list: only blank lines and
/// failures stand between it and the list's head.
pub open spec fn in_failed_list(ls: Seq<NotedLine>) -> bool
    decreases ls.len(),
{
    if ls.len() == 0 {
        false
    } else if kind(ls.last()) == LineKind::FailedList {
        true
    } else if kind(ls.last()) == LineKind::Blank || is_marker(ls.last()) {
        in_failed_list(ls.drop_last())
    } else {
        false
    }
}

/// The unexplained lines that `ls` ends with, blank lines aside.
pub open spec fn trailing_context(ls: Seq<NotedLine>) -> Seq<Seq<char>>
    decreases ls.len(),
{
    if ls.len() == 0 {
        seq![]
    } else if kind(ls.last()) == LineKind::Context {
        trailing_context(ls.drop_last()).push(ls.last().0)
    } else if kind(ls.last()) == LineKind::Blank {
        trailing_context(ls.drop_last())
    } else {
        seq![]
    }
}

/// The failures outside the trailing list, each with the context before it.
pub open spec fn failure_blocks(ls: Seq<NotedLine>) -> Seq<Seq<Seq<char>>>
    decreases ls.len(),
{
    if ls.len() == 0 {
        seq![]
    } else if kind(ls.last()) == LineKind::Failure && !in_failed_list(ls.drop_last()) {
        failure_blocks(ls.drop_last()).push(trailing_context(ls.drop_last()).push(ls.last().0))
    } else {
        failure_blocks(ls.drop_last())
    }
}

/// The rows of the coverage table.
pub open spec fn coverage_rows(ls: Seq<NotedLine>) -> Seq<Seq<char>>
    decreases ls.len(),
{
    if ls.len() == 0 {
        seq![]
    } else if kind(ls.last()) is Coverage && !(is_marker(ls.last()) && in_failed_list(
        ls.drop_last(),
    )) {
        coverage_rows(ls.drop_last()).push(ls.last().0)
    } else {
        coverage_rows(ls.drop_last())
    }
}

/// The lines of the summary, trimmed.
pub open spec fn summary_lines(ls: Seq<NotedLine>) -> Seq<Seq<char>>
    decreases ls.len(),
{
    if ls.len() == 0 {
        seq![]
    } else if kind(ls.last()) == LineKind::Summary {
        summary_lines(ls.drop_last()).push(trimmed(ls.last().0))
    } else {
        summary_lines(ls.drop_last())
    }
}

/// The content of a list of blocks of lines.
pub open spec fn blocks(v: Seq<Vec<String>>) -> Seq<Seq<Seq<char>>> {
    v.map_values(|b: Vec<String>| texts(b@))
}

/// What a test run's output holds, in parts.
#[verifier::ext_equal]
pub struct TestParts {
    pub failures: Seq<Seq<Seq<char>>>,
    pub coverage: Seq<Seq<char>>,
    pub summary: Seq<Seq<char>>,
    pub context: Seq<Seq<char>>,
}

/// The parts of the given lines.
pub open spec fn test_parts(ls: Seq<NotedLine>) -> TestParts {
    TestParts {
        failures: failure_blocks(ls),
        coverage: coverage_rows(ls),
        summary: summary_lines(ls),
        context: trailing_context(ls),
    }
}

/// The report's part on failures: a title, the first blocks, the number of the
/// others and an empty line.
pub open spec fn failure_part(
    failures: Seq<Seq<Seq<char>>>,
    hint: Option<Seq<char>>,
) -> Seq<Seq<char>> {
    let cap = MAX_BUN_FAILURES as int;
    if failures.len() == 0 {
        seq![]
    } else if failures.len() <= cap {
        seq!["FAILURES:"@] + failures.flatten() + seq![""@]
    } else {
        seq!["FAILURES:"@] + failures.take(cap).flatten() + overflow_lines(
            (failures.len() - cap) as nat,
            "failures"@,
            hint,
        ) + seq![""@]
    }
}

/// What Bun printed when it ended without results or summary, in short.
pub open spec fn context_part(context: Seq<Seq<char>>, hint: Option<Seq<char>>) -> Seq<Seq<char>> {
    let cap = CAP_ERRORS as int;
    if context.len() <= cap {
        context
    } else {
        context.take(cap) + overflow_lines((context.len() - cap) as nat, "lines"@, hint)
    }
}

/// The lines of the report.
pub open spec fn report_lines(p: TestParts, hint: Option<Seq<char>>) -> Seq<Seq<char>> {
    failure_part(p.failures, hint) + p.coverage + (if p.summary.len() > 0 {
        p.summary
    } else if p.failures.len() == 0 {
        context_part(p.context, hint)
    } else {
        seq![]
    })
}

/// What the report leaves out, as the content and the name of a file.
pub open spec fn left_out(p: TestParts) -> Option<(Seq<char>, Seq<char>)> {
    if p.failures.len() > MAX_BUN_FAILURES {
        Some(
            (
                joined(p.failures.map_values(|b: Seq<Seq<char>>| joined(b, "\n"@)), "\n\n"@),
                "bun-test-failures"@,
            ),
        )
    } else if p.summary.len() == 0 && p.failures.len() == 0 && p.context.len() > CAP_ERRORS {
        Some((joined(p.context, "\n"@), "bun-test"@))
    } else {
        None
    }
}

/// The filtered output of `bun test`.
pub open spec fn filtered_test(
    output: Seq<char>,
    exit_code: int,
    hint: Option<Seq<char>>,
) -> Seq<char> {
    finished_verbatim(
        report_lines(test_parts(noted_lines(without_ansi(output))), hint),
        exit_code,
        "bun test"@,
    )
}

/// The compiled patterns of a test run's lines.
pub struct TestPatterns {
    failed_list: Matcher,
    fail_marker: Matcher,
    pass_marker: Matcher,
    banner: Matcher,
    count: Matcher,
    expect: Matcher,
    snapshot: Matcher,
}

impl TestPatterns {
    /// Each matcher is that of its pattern.
    pub closed spec fn wf(&self) -> bool {
        &&& self.failed_list@ == BUN_TESTS_FAILED_RE@
        &&& self.fail_marker@ == BUN_FAIL_MARKER_RE@
        &&& self.pass_marker@ == BUN_PASS_MARKER_RE@
        &&& self.banner@ == BUN_BANNER_RE@
        &&& self.count@ == BUN_TEST_COUNT_RE@
        &&& self.expect@ == BUN_TEST_EXPECT_RE@
        &&& self.snapshot@ == BUN_SNAPSHOT_RE@
    }

    /// Compiles the patterns.
    pub fn new() -> (r: TestPatterns)
        ensures
            r.wf(),
    {
        TestPatterns {
            failed_list: Matcher::compile(BUN_TESTS_FAILED_RE),
            fail_marker: Matcher::compile(BUN_FAIL_MARKER_RE),
            pass_marker: Matcher::compile(BUN_PASS_MARKER_RE),
            banner: Matcher::compile(BUN_BANNER_RE),
            count: Matcher::compile(BUN_TEST_COUNT_RE),
            expect: Matcher::compile(BUN_TEST_EXPECT_RE),
            snapshot: Matcher::compile(BUN_SNAPSHOT_RE),
        }
    }

    /// Asks every pattern about a trimmed line.
    pub fn matches(&self, line: &str) -> (r: TestMatches)
        requires
            self.wf(),
        ensures
            r == test_matches(line@),
            marker_shapes(line@, r),
    {
        TestMatches {
            failed_list: self.failed_list.is_match(line),
            fail_marker: self.fail_marker.is_match(line),
            pass_marker: self.pass_marker.is_match(line),
            banner: self.banner.is_match(line),
            count: self.count.is_match(line),
            expect: self.expect.is_match(line),
            snapshot: self.snapshot.is_match(line),
        }
    }
}

/// How the lines look that the patterns match, and which lines they match for certain.
pub open spec fn marker_shapes(line: Seq<char>, m: TestMatches) -> bool {
    &&& m.fail_marker ==> opens_as_failed(line) && closes_as_timed(line)
    &&& m.pass_marker ==> opens_as_passed(line) && closes_as_timed(line)
    &&& opens_as_failed(line) && is_timed_line(line) ==> m.fail_marker
    &&& opens_as_passed(line) && is_timed_line(line) ==> m.pass_marker
    &&& m.failed_list ==> may_open_failed_list(line) && may_open_with_digit(line)
    &&& opens_failed_list(line) ==> m.failed_list
    &&& opens_as_failed(line) ==> m.fail_marker == reads_as_result(after_sign(line))
    &&& opens_as_passed(line) ==> m.pass_marker == reads_as_result(after_sign(line))
    &&& m.banner ==> may_be_banner_line(line)
    &&& is_banner_line(line) ==> m.banner
    &&& m.count ==> is_count_of_two_words(line) && may_open_with_digit(line)
    &&& is_count_in_digits(line) ==> m.count
    &&& m.expect ==> has_text(line, "expect()"@) && may_open_with_digit(line)
    &&& is_expect_in_digits(line) ==> m.expect
    &&& m.snapshot == is_snapshot_line(line)
}

/// Whether a trimmed line is the result of a failed test. Such a line has the sign
/// of a failure in front and a time in brackets at its end, and every line with
/// that sign and a time in ASCII digits is one. Whichever sign stands in front, the
/// terminal's or the piped one, the same is asked of the rest.
pub fn is_fail_marker(line: &str) -> (r: bool)
    ensures
        r == fail_marker(line@),
        r == regex_is_match(BUN_FAIL_MARKER_RE@, line@),
        r ==> opens_as_failed(line@) && closes_as_timed(line@),
        opens_as_failed(line@) && is_timed_line(line@) ==> r,
        opens_as_failed(line@) ==> r == reads_as_result(after_sign(line@)),
{
    Matcher::compile(BUN_FAIL_MARKER_RE).is_match(line)
}

/// Whether a trimmed line is the result of a passed test. Such a line has the sign
/// of a success in front and a time in brackets at its end, and every line with
/// that sign and a time in ASCII digits is one. Whichever sign stands in front, the
/// terminal's or the piped one, the same is asked of the rest.
pub fn is_pass_marker(line: &str) -> (r: bool)
    ensures
        r == pass_marker(line@),
        r == regex_is_match(BUN_PASS_MARKER_RE@, line@),
        r ==> opens_as_passed(line@) && closes_as_timed(line@),
        opens_as_passed(line@) && is_timed_line(line@) ==> r,
        opens_as_passed(line@) ==> r == reads_as_result(after_sign(line@)),
{
    Matcher::compile(BUN_PASS_MARKER_RE).is_match(line)
}

/// Whether a trimmed line names a test file.
pub fn is_test_file_header(line: &str) -> (r: bool)
    ensures
        r == test_file_header(line@),
        r <==> ":"@.is_suffix_of(line@) && (has_text(line@, ".test."@) || has_text(
            line@,
            ".spec."@,
        )),
{
    ends_with(line, ":") && (contains(line, ".test.") || contains(line, ".spec."))
}

/// Whether a trimmed line belongs to the summary, given what three patterns say.
pub fn is_summary_line_given(line: &str, count: bool, expect: bool, snapshot: bool) -> (r: bool)
    ensures
        r == summary_line_given(line@, count, expect, snapshot),
        r <==> count || expect || snapshot || "Ran "@.is_prefix_of(line@)
            || "Bailed out after "@.is_prefix_of(line@),
{
    count || expect || snapshot || starts_with(line, "Ran ") || starts_with(
        line,
        "Bailed out after ",
    )
}

/// Whether a trimmed line belongs to the summary.
/// A count such as "2 pass" is one only where nothing but white space stands around
/// its two words, and every count in ASCII digits is one. So is every count of expect()
/// calls in ASCII digits.
pub fn is_summary_line(line: &str) -> (r: bool)
    ensures
        r == summary_line(line@),
        r <==> {
            ||| regex_is_match(BUN_TEST_COUNT_RE@, line@)
            ||| regex_is_match(BUN_TEST_EXPECT_RE@, line@)
            ||| regex_is_match(BUN_SNAPSHOT_RE@, line@)
            ||| "Ran "@.is_prefix_of(line@)
            ||| "Bailed out after "@.is_prefix_of(line@)
        },
        r ==> is_count_of_two_words(line@) || summary_line_given(
            line@,
            false,
            has_text(line@, "expect()"@),
            is_snapshot_line(line@),
        ),
        summary_line_given(
            line@,
            is_count_in_digits(line@),
            is_expect_in_digits(line@),
            is_snapshot_line(line@),
        ) ==> r,
{
    is_summary_line_given(
        line,
        Matcher::compile(BUN_TEST_COUNT_RE).is_match(line),
        Matcher::compile(BUN_TEST_EXPECT_RE).is_match(line),
        Matcher::compile(BUN_SNAPSHOT_RE).is_match(line),
    )
}

/// A row of the `--coverage` table. Every row (header, separator and per-file)
/// carries the three column separators, which ordinary test output does not. Source
/// code that Bun quotes may carry them too: `line_kind` tells it apart.
pub fn is_coverage_row(line: &str) -> (r: bool)
    ensures
        r == coverage_row(line@),
        r <==> exists|a: int, b: int, c: int|
            0 <= a < b < c < line@.len() && #[trigger] line@[a] == '|' && #[trigger] line@[b] == '|'
                && #[trigger] line@[c] == '|',
{
    proof {
        law_row_has_three_bars(line@);
    }
    count_char(line, '|') >= 3
}

/// Whether a trimmed line is one of a code frame: a line number, a bar and source code
/// with any number of bars of its own.
pub fn is_code_frame(line: &str) -> (r: bool)
    ensures
        r == code_frame(line@),
{
    let cs = chars_of(line);
    let ghost t = line@;
    let d: usize = digits_end(&cs, 0);
    let mut b: usize = d;
    while b < cs.len() && white_space(cs[b])
        invariant
            cs@ == t,
            d <= b <= cs@.len(),
            forall|k: int| d <= k < b ==> is_white_space(#[trigger] t[k]),
        decreases cs@.len() - b,
    {
        b += 1;
    }
    let r = d > 0 && b < cs.len() && cs[b] == '|';
    proof {
        if r {
            assert(is_digits(t.take(d as int)));
            assert(is_blank(t.subrange(d as int, b as int)));
            assert(splits_as_frame(t, d as int, b as int));
        } else {
            assert forall|i: int, j: int| !splits_as_frame(t, i, j) by {
                if splits_as_frame(t, i, j) {
                    lemma_frame_splits_once(t, d as int, b as int, i, j);
                }
            }
        }
    }
    r
}

/// The line number ends where the digits end, and the bar follows the white space.
pub(crate) proof fn lemma_frame_splits_once(t: Seq<char>, d: int, b: int, i: int, j: int)
    requires
        0 <= d <= b <= t.len(),
        forall|k: int| 0 <= k < d ==> '0' <= #[trigger] t[k] <= '9',
        d < t.len() ==> !('0' <= t[d] <= '9'),
        forall|k: int| d <= k < b ==> is_white_space(#[trigger] t[k]),
        b < t.len() ==> !is_white_space(t[b]),
        splits_as_frame(t, i, j),
    ensures
        i == d,
        j == b,
{
    assert(forall|k: int| 0 <= k < i ==> t.take(i)[k] == t[k]);
    assert(forall|k: int| 0 <= k < j - i ==> t.subrange(i, j)[k] == t[i + k]);
    if d < i {
        assert('0' <= t.take(i)[d] <= '9');
    }
    if i < d {
        assert('0' <= t[i] <= '9');
        if i < j {
            assert(is_white_space(t.subrange(i, j)[0]));
        }
    }
    if b < j {
        assert(is_white_space(t.subrange(i, j)[b - i]));
    }
    if j < b {
        assert(is_white_space(t[j]));
    }
}

/// The index of the first bar from `from` on, or the length where there is none.
fn next_bar(cs: &Vec<char>, from: usize) -> (r: usize)
    requires
        from <= cs@.len(),
    ensures
        from <= r <= cs@.len(),
        r < cs@.len() ==> cs@[r as int] == '|',
        forall|k: int| from <= k < r ==> #[trigger] cs@[k] != '|',
{
    let mut i: usize = from;
    while i < cs.len() && cs[i] != '|'
        invariant
            from <= i <= cs@.len(),
            forall|k: int| from <= k < i ==> #[trigger] cs@[k] != '|',
        decreases cs@.len() - i,
    {
        i += 1;
    }
    i
}

/// Whether the characters from `from` up to `to` are, but for white space around them, a
/// number in ASCII digits.
fn is_number_cell(cs: &Vec<char>, from: usize, to: usize) -> (r: bool)
    requires
        from <= to <= cs@.len(),
    ensures
        r == is_number(trimmed(cs@.subrange(from as int, to as int))),
{
    let cell = string_of(cs, from, to);
    is_number_text(trim(cell.as_str()))
}

/// Whether a trimmed line has numbers in its second and third cells, as the row of a file
/// in the coverage table has.
pub fn is_percent_row(line: &str) -> (r: bool)
    ensures
        r == percent_row(line@),
{
    let cs = chars_of(line);
    let ghost t = line@;
    let n: usize = cs.len();
    let a: usize = next_bar(&cs, 0);
    if a == n {
        return false;
    }
    let b: usize = next_bar(&cs, a + 1);
    if b == n {
        return false;
    }
    let c: usize = next_bar(&cs, b + 1);
    if c == n {
        return false;
    }
    assert(bars_at(t, a as int, b as int, c as int));
    let r = is_number_cell(&cs, a + 1, b) && is_number_cell(&cs, b + 1, c);
    proof {
        assert forall|i: int, j: int, k: int| bars_at(t, i, j, k) implies i == a && j == b && k
            == c by {
            assert(t[i] == '|' && t[j] == '|' && t[k] == '|');
            assert(t[a as int] == '|' && t[b as int] == '|' && t[c as int] == '|');
        }
    }
    r
}

/// What a line is, given what the patterns say of it trimmed.
pub fn line_kind(line: &str, m: TestMatches) -> (r: LineKind)
    ensures
        r == kind_given(line@, m),
{
    let t = trim(line);
    proof {
        law_blank_trims_to_nothing(line@);
    }
    if t.is_empty() {
        LineKind::Blank
    } else if is_code_frame(t) && !is_percent_row(t) {
        LineKind::Context
    } else if m.failed_list {
        LineKind::FailedList
    } else if is_coverage_row(t) {
        LineKind::Coverage { marker: m.fail_marker }
    } else if m.fail_marker {
        LineKind::Failure
    } else if m.pass_marker || is_test_file_header(t) || m.banner {
        LineKind::Discarded
    } else if is_summary_line_given(t, m.count, m.expect, m.snapshot) {
        LineKind::Summary
    } else {
        LineKind::Context
    }
}

/// The lines of a test run's output, each with what the patterns say of it trimmed.
pub fn note_test_lines(output: &str) -> (r: Vec<(String, TestMatches)>)
    ensures
        noted(r@) == noted_lines(without_ansi(output@)),
        forall|j: int|
            0 <= j < noted_lines(without_ansi(output@)).len() ==> marker_shapes(
                trimmed((#[trigger] noted_lines(without_ansi(output@))[j]).0),
                noted_lines(without_ansi(output@))[j].1,
            ),
{
    let clean = strip_ansi(output);
    let lines = split_lines(clean.as_str());
    let patterns = TestPatterns::new();
    let mut out: Vec<(String, TestMatches)> = Vec::new();
    let ghost all = lines_of(clean@);
    let mut i: usize = 0;
    while i < lines.len()
        invariant
            i <= lines@.len(),
            out@.len() == i,
            patterns.wf(),
            all == texts(lines@),
            forall|k: int|
                0 <= k < i ==> (#[trigger] out@[k]).0@ == all[k] && out@[k].1 == test_matches(
                    trimmed(all[k]),
                ) && marker_shapes(trimmed(all[k]), out@[k].1),
        decreases lines@.len() - i,
    {
        let m = patterns.matches(trim(lines[i].as_str()));
        assert(all[i as int] == lines@[i as int]@);
        out.push((lines[i].clone(), m));
        i += 1;
    }
    assert(noted(out@) =~= noted_lines(clean@));
    proof {
        let ls = noted_lines(clean@);
        assert forall|j: int| 0 <= j < ls.len() implies marker_shapes(
            trimmed((#[trigger] ls[j]).0),
            ls[j].1,
        ) by {
            assert(out@[j].0@ == all[j]);
        }
    }
    out
}

/// A test run's output in parts.
pub struct TestReport {
    pub failures: Vec<Vec<String>>,
    pub coverage: Vec<String>,
    pub summary: Vec<String>,
    pub context: Vec<String>,
}

impl View for TestReport {
    type V = TestParts;

    open spec fn view(&self) -> TestParts {
        TestParts {
            failures: blocks(self.failures@),
            coverage: texts(self.coverage@),
            summary: texts(self.summary@),
            context: texts(self.context@),
        }
    }
}

/// Sorts noted lines into the parts of the report.
///
/// Bun prints the error context BEFORE the failure marker, so lines are buffered
/// and flushed as a block when a marker appears. Lines are kept verbatim: the caret
/// in `expect(...)` context points at a column, and a `toEqual` diff carries its own
/// indentation, so trimming would corrupt both.
pub fn collect_test_report(lines: &Vec<(String, TestMatches)>) -> (r: TestReport)
    ensures
        r@ == test_parts(noted(lines@)),
        blocks(r.failures@) == failure_blocks(noted(lines@)),
        texts(r.coverage@) == coverage_rows(noted(lines@)),
        texts(r.summary@) == summary_lines(noted(lines@)),
        texts(r.context@) == trailing_context(noted(lines@)),
{
    let mut failures: Vec<Vec<String>> = Vec::new();
    let mut coverage: Vec<String> = Vec::new();
    let mut summary: Vec<String> = Vec::new();
    let mut buffer: Vec<String> = Vec::new();
    let mut in_list = false;
    let ghost all = noted(lines@);
    let mut i: usize = 0;
    assert(all.take(0) =~= Seq::<NotedLine>::empty());
    assert(blocks(failures@) =~= seq![]);
    assert(texts(buffer@) =~= seq![]);
    while i < lines.len()
        invariant
            i <= lines@.len(),
            all == noted(lines@),
            blocks(failures@) == failure_blocks(all.take(i as int)),
            texts(coverage@) == coverage_rows(all.take(i as int)),
            texts(summary@) == summary_lines(all.take(i as int)),
            texts(buffer@) == trailing_context(all.take(i as int)),
            in_list == in_failed_list(all.take(i as int)),
            in_list ==> buffer@.len() == 0,
        decreases lines@.len() - i,
    {
        let line = &lines[i].0;
        let kind = line_kind(line.as_str(), lines[i].1);
        let ghost before = all.take(i as int);
        let ghost now = all.take(i + 1);
        let ghost old_failures = blocks(failures@);
        let ghost old_coverage = texts(coverage@);
        let ghost old_summary = texts(summary@);
        let ghost old_buffer = texts(buffer@);
        proof {
            assert(now.drop_last() =~= before);
            assert(now.last() == (line@, lines@[i as int].1));
        }
        i += 1;
        match kind {
            LineKind::Blank => {},
            LineKind::FailedList => {
                in_list = true;
                buffer.clear();
            },
            LineKind::Coverage { marker } => {
                if !(marker && in_list) {
                    in_list = false;
                    buffer.clear();
                    coverage.push(line.clone());
                    assert(texts(coverage@) =~= old_coverage.push(line@));
                }
            },
            LineKind::Failure => {
                if !in_list {
                    let mut block = buffer;
                    buffer = Vec::new();
                    block.push(line.clone());
                    assert(texts(block@) =~= old_buffer.push(line@));
                    failures.push(block);
                    assert(blocks(failures@) =~= old_failures.push(texts(block@)));
                }
            },
            LineKind::Discarded => {
                in_list = false;
                buffer.clear();
            },
            LineKind::Summary => {
                in_list = false;
                buffer.clear();
                let t = trim(line.as_str());
                summary.push(t.to_string());
                assert(texts(summary@) =~= old_summary.push(t@));
            },
            LineKind::Context => {
                in_list = false;
                buffer.push(line.clone());
                assert(texts(buffer@) =~= old_buffer.push(line@));
            },
        }
        assert(texts(buffer@) =~= trailing_context(now));
    }
    assert(all.take(i as int) =~= all);
    TestReport { failures, coverage, summary, context: buffer }
}

impl TestReport {
    /// What the rendered report leaves out, for the file that is to hold it.
    pub fn tee_request(&self) -> (r: Option<TeeRequest>)
        ensures
            r is Some <==> left_out(self@) is Some,
            r matches Some(t) ==> left_out(self@) == Some((t.full@, t.slug@)),
    {
        if self.failures.len() > MAX_BUN_FAILURES {
            let mut all: Vec<String> = Vec::new();
            let ghost whole = self@.failures.map_values(|b: Seq<Seq<char>>| joined(b, "\n"@));
            let mut i: usize = 0;
            while i < self.failures.len()
                invariant
                    i <= self.failures@.len(),
                    whole == self@.failures.map_values(|b: Seq<Seq<char>>| joined(b, "\n"@)),
                    texts(all@) == whole.take(i as int),
                decreases self.failures@.len() - i,
            {
                let ghost before = texts(all@);
                all.push(join(&self.failures[i], "\n"));
                assert(texts(all@) =~= before.push(whole[i as int]));
                assert(texts(all@) =~= whole.take(i + 1));
                i += 1;
            }
            assert(whole.take(i as int) =~= whole);
            return Some(
                TeeRequest { full: join(&all, "\n\n"), slug: "bun-test-failures".to_string() },
            );
        }
        if self.summary.len() == 0 && self.failures.len() == 0 && self.context.len() > CAP_ERRORS {
            return Some(
                TeeRequest { full: join(&self.context, "\n"), slug: "bun-test".to_string() },
            );
        }
        None
    }

    /// The lines of the report. `hint` points at the file that holds what they leave
    /// out, where there is one.
    pub fn lines(&self, hint: Option<&str>) -> (r: Vec<String>)
        ensures
            texts(r@) == report_lines(self@, hint_text(hint)),
            texts(r@) == report_lines(
                (TestParts {
                    failures: blocks(self.failures@),
                    coverage: texts(self.coverage@),
                    summary: texts(self.summary@),
                    context: texts(self.context@),
                }),
                hint_text(hint),
            ),
    {
        let mut result: Vec<String> = Vec::new();
        let ghost h = hint_text(hint);
        let ghost failures = self@.failures;
        if self.failures.len() > 0 {
            result.push("FAILURES:".to_string());
            let cap: usize = if self.failures.len() > MAX_BUN_FAILURES {
                MAX_BUN_FAILURES
            } else {
                self.failures.len()
            };
            let mut i: usize = 0;
            assert(texts(result@) =~= seq!["FAILURES:"@] + failures.take(0).flatten());
            while i < cap
                invariant
                    i <= cap <= self.failures@.len(),
                    failures == blocks(self.failures@),
                    texts(result@) == seq!["FAILURES:"@] + failures.take(i as int).flatten(),
                decreases cap - i,
            {
                let block = &self.failures[i];
                push_first(&mut result, block, block.len());
                proof {
                    let upto = failures.take(i + 1);
                    assert(upto.drop_last() =~= failures.take(i as int));
                    assert(texts(block@).take(block@.len() as int) =~= upto.last());
                    upto.lemma_flatten_and_flatten_alt_are_equivalent();
                    failures.take(i as int).lemma_flatten_and_flatten_alt_are_equivalent();
                    assert(texts(result@) =~= seq!["FAILURES:"@] + upto.flatten());
                }
                i += 1;
            }
            if self.failures.len() > MAX_BUN_FAILURES {
                push_overflow(
                    &mut result,
                    self.failures.len() - MAX_BUN_FAILURES,
                    "failures",
                    hint,
                );
            } else {
                assert(failures.take(cap as int) =~= failures);
            }
            let ghost before = texts(result@);
            result.push("".to_string());
            assert(texts(result@) =~= before + seq![""@]);
        }
        assert(texts(result@) =~= failure_part(failures, h));
        push_first(&mut result, &self.coverage, self.coverage.len());
        assert(texts(self.coverage@).take(self.coverage@.len() as int) =~= self@.coverage);
        if self.summary.len() > 0 {
            push_first(&mut result, &self.summary, self.summary.len());
            assert(texts(self.summary@).take(self.summary@.len() as int) =~= self@.summary);
        } else if self.failures.len() == 0 {
            // No markers and no summary: bun aborted before running any test (a
            // module-resolution or syntax error). Surface what it printed rather
            // than collapsing to a misleading "ok".
            push_first(&mut result, &self.context, CAP_ERRORS);
            if self.context.len() > CAP_ERRORS {
                push_overflow(&mut result, self.context.len() - CAP_ERRORS, "lines", hint);
            } else {
                assert(texts(self.context@).take(self.context@.len() as int) =~= self@.context);
            }
        }
        assert(texts(result@) =~= report_lines(self@, h));
        result
    }

    /// The report as one text.
    pub fn render(&self, exit_code: i32, hint: Option<&str>) -> (r: String)
        ensures
            r@ == finished_verbatim(
                report_lines(self@, hint_text(hint)),
                exit_code as int,
                "bun test"@,
            ),
    {
        finish_verbatim(self.lines(hint), exit_code, "bun test")
    }
}

/// Reads a test run's output into its parts.
pub fn read_test_report(output: &str) -> (r: TestReport)
    ensures
        r@ == test_parts(noted_lines(without_ansi(output@))),
        forall|j: int|
            0 <= j < noted_lines(without_ansi(output@)).len() ==> marker_shapes(
                trimmed((#[trigger] noted_lines(without_ansi(output@))[j]).0),
                noted_lines(without_ansi(output@))[j].1,
            ),
{
    let lines = note_test_lines(output);
    collect_test_report(&lines)
}

/// Filter bun test output: strip passing tests, keep failures and summary.
///
/// Handles both TTY format (✓/✗) and piped format ((pass)/(fail)). `hint` points at
/// the file that holds what the report leaves out, where there is one.
///
/// Every line is what `marker_shapes` says of it, so the laws that ask for that hold of
/// it. Lines of passed tests are as good as not there, where nothing waits before them.
pub fn filter_bun_test(output: &str, exit_code: i32, hint: Option<&str>) -> (r: String)
    ensures
        r@ == filtered_test(output@, exit_code as int, hint_text(hint)),
        forall|j: int|
            0 <= j < noted_lines(without_ansi(output@)).len() ==> marker_shapes(
                trimmed((#[trigger] noted_lines(without_ansi(output@))[j]).0),
                noted_lines(without_ansi(output@))[j].1,
            ),
        forall|before: Seq<char>, passed: Seq<char>, after: Seq<char>| #[trigger]
            holds_passed_lines(without_ansi(output@), before, passed, after) ==> r@
                == finished_verbatim(
                report_lines(test_parts(noted_lines(before + after)), hint_text(hint)),
                exit_code as int,
                "bun test"@,
            ),
{
    let lines = note_test_lines(output);
    proof {
        let text = without_ansi(output@);
        let ls = noted_lines(text);
        assert forall|before: Seq<char>, passed: Seq<char>, after: Seq<char>| #[trigger]
            holds_passed_lines(text, before, passed, after) implies test_parts(ls) == test_parts(
            noted_lines(before + after),
        ) by {
            law_passed_lines_change_nothing(text, before, passed, after);
        }
    }
    collect_test_report(&lines).render(exit_code, hint)
}

} // verus!
