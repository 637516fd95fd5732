//! What the filter of `bun test` promises of every output.
use crate::ansi::without_ansi;
use crate::bun_test::{
    bars_at, blocks, code_frame, context_part, coverage_row, coverage_rows, failure_blocks,
    failure_part, filtered_test, in_failed_list, is_marker, kind, left_out,
    lemma_frame_splits_once, marker_shapes, noted, noted_lines, percent_row, report_lines,
    splits_as_frame, summary_line_given, summary_lines, test_file_header, test_matches, test_parts,
    trailing_context, LineKind, NotedLine, TestMatches, TestParts,
};
use crate::limits::{CAP_ERRORS, MAX_BUN_FAILURES};
use crate::lines::{joined, law_joined_has_parts, law_lines_of_both, lines_of};
use crate::patterns::{
    after_sign, closes_as_timed, is_count_in_digits, is_count_of_two_words, is_digits, is_number,
    is_space_between, is_timed_line, law_banner_opens_with_bun, may_be_banner_line, may_be_digit,
    may_open_with_digit, opens_as_failed, opens_as_passed, opens_failed_list, regex_is_match,
    splits_as_count, splits_as_failed_list, BUN_BANNER_RE, BUN_FAIL_MARKER_RE, BUN_PASS_MARKER_RE,
    BUN_SNAPSHOT_RE, BUN_TESTS_FAILED_RE, BUN_TEST_COUNT_RE, BUN_TEST_EXPECT_RE,
};
use crate::report::{
    law_blank_lines_are_nothing, law_finished_verbatim_shows, law_only_trailing_blanks_are_cut,
    law_verbatim_text_is_its_lines, nothing_kept, overflow_lines, without_trailing_blanks,
};
use crate::text::{
    decimal, has_text, is_blank, is_white_space, law_blank_trims_to_nothing, law_last_occurrence,
    law_occurrences_grow, law_trimmed_is_inner, law_trimmed_twice, law_what_occurs_stands_in_text,
    occurrences, trimmed, trimmed_start,
};
use vstd::prelude::*;

verus! {

/// Every failure outside the trailing list is reported, with the context before it.
pub proof fn law_no_failure_is_lost(ls: Seq<NotedLine>, j: int)
    requires
        0 <= j < ls.len(),
        kind(ls[j]) == LineKind::Failure,
        !in_failed_list(ls.take(j)),
    ensures
        failure_blocks(ls).contains(trailing_context(ls.take(j)).push(ls[j].0)),
    decreases ls.len(),
{
    let block = trailing_context(ls.take(j)).push(ls[j].0);
    let init = failure_blocks(ls.drop_last());
    if j == ls.len() - 1 {
        assert(ls.take(j) =~= ls.drop_last());
        assert(failure_blocks(ls)[init.len() as int] == block);
    } else {
        assert(ls.drop_last().take(j) =~= ls.take(j));
        law_no_failure_is_lost(ls.drop_last(), j);
        let b = choose|b: int| 0 <= b < init.len() && init[b] == block;
        assert(failure_blocks(ls)[b] == block);
    }
}

/// Every reported block is that of a failure outside the trailing list: its context,
/// and its own line at the end.
pub proof fn law_no_failure_is_made_up(ls: Seq<NotedLine>, b: int)
    requires
        0 <= b < failure_blocks(ls).len(),
    ensures
        exists|j: int|
            0 <= j < ls.len() && kind(#[trigger] ls[j]) == LineKind::Failure && !in_failed_list(
                ls.take(j),
            ) && failure_blocks(ls)[b] == trailing_context(ls.take(j)).push(ls[j].0),
    decreases ls.len(),
{
    let init = failure_blocks(ls.drop_last());
    if b < init.len() {
        law_no_failure_is_made_up(ls.drop_last(), b);
        let j = choose|j: int|
            0 <= j < ls.len() - 1 && kind(#[trigger] ls.drop_last()[j]) == LineKind::Failure
                && !in_failed_list(ls.drop_last().take(j)) && init[b] == trailing_context(
                ls.drop_last().take(j),
            ).push(ls.drop_last()[j].0);
        assert(ls.drop_last().take(j) =~= ls.take(j));
        assert(ls[j] == ls.drop_last()[j]);
    } else {
        let j = ls.len() - 1;
        assert(ls.take(j) =~= ls.drop_last());
        assert(kind(ls[j]) == LineKind::Failure);
    }
}

/// A line of context that only context and blank lines part from the next failure
/// stands in that failure's block, and such a failure is none of the trailing list.
pub proof fn law_context_stands_with_its_failure(ls: Seq<NotedLine>, i: int, j: int)
    requires
        0 <= i < j < ls.len(),
        kind(ls[i]) == LineKind::Context,
        kind(ls[j]) == LineKind::Failure,
        forall|k: int|
            i < k < j ==> kind(#[trigger] ls[k]) == LineKind::Context || kind(ls[k])
                == LineKind::Blank,
    ensures
        !in_failed_list(ls.take(j)),
        trailing_context(ls.take(j)).contains(ls[i].0),
        failure_blocks(ls).contains(trailing_context(ls.take(j)).push(ls[j].0)),
{
    lemma_context_waits(ls, i, j);
    law_no_failure_is_lost(ls, j);
}

proof fn lemma_context_waits(ls: Seq<NotedLine>, i: int, n: int)
    requires
        0 <= i < n <= ls.len(),
        kind(ls[i]) == LineKind::Context,
        forall|k: int|
            i < k < n ==> kind(#[trigger] ls[k]) == LineKind::Context || kind(ls[k])
                == LineKind::Blank,
    ensures
        !in_failed_list(ls.take(n)),
        trailing_context(ls.take(n)).contains(ls[i].0),
    decreases n,
{
    let upto = ls.take(n);
    let init = trailing_context(upto.drop_last());
    assert(upto.drop_last() =~= ls.take(n - 1));
    assert(upto.last() == ls[n - 1]);
    if i == n - 1 {
        assert(trailing_context(upto)[init.len() as int] == ls[i].0);
    } else {
        lemma_context_waits(ls, i, n - 1);
        let k = choose|k: int| 0 <= k < init.len() && init[k] == ls[i].0;
        assert(trailing_context(upto)[k] == ls[i].0);
    }
}

/// A line of a code frame is context, whatever the patterns say of it and however many
/// bars stand in it, unless it looks like the row of a file in the coverage table.
pub proof fn law_code_frame_is_context(line: Seq<char>, m: TestMatches)
    requires
        code_frame(trimmed(line)),
        !percent_row(trimmed(line)),
    ensures
        kind((line, m)) == LineKind::Context,
{
    law_blank_trims_to_nothing(line);
}

/// A line of a code frame that only context and blank lines part from the next failure
/// stands in that failure's block, unless it looks like the row of a file in the coverage
/// table.
pub proof fn law_code_frame_stands_with_its_failure(ls: Seq<NotedLine>, i: int, j: int)
    requires
        0 <= i < j < ls.len(),
        code_frame(trimmed(ls[i].0)),
        !percent_row(trimmed(ls[i].0)),
        kind(ls[j]) == LineKind::Failure,
        forall|k: int|
            i < k < j ==> kind(#[trigger] ls[k]) == LineKind::Context || kind(ls[k])
                == LineKind::Blank,
    ensures
        trailing_context(ls.take(j)).contains(ls[i].0),
        failure_blocks(ls).contains(trailing_context(ls.take(j)).push(ls[j].0)),
{
    law_code_frame_is_context(ls[i].0, ls[i].1);
    law_context_stands_with_its_failure(ls, i, j);
}

/// Every line of context is a line of the output that is nothing else.
pub proof fn law_context_is_verbatim(ls: Seq<NotedLine>, k: int)
    requires
        0 <= k < trailing_context(ls).len(),
    ensures
        exists|j: int|
            0 <= j < ls.len() && kind(#[trigger] ls[j]) == LineKind::Context && ls[j].0
                == trailing_context(ls)[k],
    decreases ls.len(),
{
    let init = trailing_context(ls.drop_last());
    if kind(ls.last()) == LineKind::Context && k == init.len() {
        assert(kind(ls[ls.len() - 1]) == LineKind::Context);
    } else {
        law_context_is_verbatim(ls.drop_last(), k);
        let j = choose|j: int|
            0 <= j < ls.len() - 1 && kind(#[trigger] ls.drop_last()[j]) == LineKind::Context
                && ls.drop_last()[j].0 == init[k];
        assert(ls[j] == ls.drop_last()[j]);
    }
}

/// Every line of a block is a line of the output as it is: the failure's own, or one
/// that is nothing but context.
pub proof fn law_blocks_are_verbatim(ls: Seq<NotedLine>, b: int, k: int)
    requires
        0 <= b < failure_blocks(ls).len(),
        0 <= k < failure_blocks(ls)[b].len(),
    ensures
        exists|j: int|
            0 <= j < ls.len() && (kind(#[trigger] ls[j]) == LineKind::Failure || kind(ls[j])
                == LineKind::Context) && ls[j].0 == failure_blocks(ls)[b][k],
{
    law_no_failure_is_made_up(ls, b);
    let j = choose|j: int|
        0 <= j < ls.len() && kind(#[trigger] ls[j]) == LineKind::Failure && !in_failed_list(
            ls.take(j),
        ) && failure_blocks(ls)[b] == trailing_context(ls.take(j)).push(ls[j].0);
    let context = trailing_context(ls.take(j));
    if k < context.len() {
        law_context_is_verbatim(ls.take(j), k);
        let i = choose|i: int|
            0 <= i < j && kind(#[trigger] ls.take(j)[i]) == LineKind::Context && ls.take(j)[i].0
                == context[k];
        assert(ls[i] == ls.take(j)[i]);
    } else {
        assert(ls[j].0 == failure_blocks(ls)[b][k]);
    }
}

/// A line with numbers in its second and third cells has the three column separators.
pub proof fn law_percent_row_is_row(t: Seq<char>)
    requires
        percent_row(t),
    ensures
        coverage_row(t),
{
    let (a, b, c) = choose|a: int, b: int, c: int| #[trigger]
        bars_at(t, a, b, c) && is_number(trimmed(t.subrange(a + 1, b))) && is_number(
            trimmed(t.subrange(b + 1, c)),
        );
    law_occurrences_grow(t, '|', a, b);
    law_occurrences_grow(t, '|', b, c);
    law_occurrences_grow(t, '|', c, t.len() as int);
    assert(t.take(t.len() as int) =~= t);
}

/// A line with the three column separators is a row of the coverage table, unless it is
/// quoted source code or opens the trailing list. One with numbers in its second and third
/// cells is no quoted source code.
pub proof fn law_row_is_coverage(line: Seq<char>, m: TestMatches)
    requires
        coverage_row(trimmed(line)) || percent_row(trimmed(line)),
        !code_frame(trimmed(line)) || percent_row(trimmed(line)),
        !m.failed_list,
    ensures
        kind((line, m)) == (LineKind::Coverage { marker: m.fail_marker }),
{
    if percent_row(trimmed(line)) {
        law_percent_row_is_row(trimmed(line));
    }
    law_what_occurs_stands_in_text(trimmed(line), '|');
    law_blank_trims_to_nothing(line);
}

/// Every such row stands in the filtered text, as it is, unless it reads as a failure of
/// the trailing list.
pub proof fn law_rows_stand_in_text(
    output: Seq<char>,
    exit_code: int,
    hint: Option<Seq<char>>,
    j: int,
)
    requires
        ({
            let ls = noted_lines(without_ansi(output));
            let t = trimmed(ls[j].0);
            &&& 0 <= j < ls.len()
            &&& coverage_row(t) || percent_row(t)
            &&& !code_frame(t) || percent_row(t)
            &&& !ls[j].1.failed_list
            &&& !(ls[j].1.fail_marker && in_failed_list(ls.take(j)))
        }),
    ensures
        coverage_rows(noted_lines(without_ansi(output))).contains(
            lines_of(without_ansi(output))[j],
        ),
        has_text(filtered_test(output, exit_code, hint), lines_of(without_ansi(output))[j]),
{
    let ls = noted_lines(without_ansi(output));
    law_row_is_coverage(ls[j].0, ls[j].1);
    law_coverage_is_kept(ls, j);
    let rows = coverage_rows(ls);
    let k = choose|k: int| 0 <= k < rows.len() && rows[k] == ls[j].0;
    law_coverage_stands_in_text(output, exit_code, hint, k);
}

/// A line that is neither context nor blank, such as a row of the coverage table or the
/// result line of a passed test, ends the context before it: what stands in the block of a
/// failure behind it comes from the lines between them.
pub proof fn law_context_starts_anew(ls: Seq<NotedLine>, i: int, n: int)
    requires
        0 <= i < n <= ls.len(),
        kind(ls[i]) != LineKind::Context,
        kind(ls[i]) != LineKind::Blank,
    ensures
        trailing_context(ls.take(n)) == trailing_context(ls.subrange(i + 1, n)),
    decreases n,
{
    let upto = ls.take(n);
    let behind = ls.subrange(i + 1, n);
    assert(upto.last() == ls[n - 1]);
    if i < n - 1 {
        law_context_starts_anew(ls, i, n - 1);
        assert(upto.drop_last() =~= ls.take(n - 1));
        assert(behind.drop_last() =~= ls.subrange(i + 1, n - 1));
        assert(behind.last() == ls[n - 1]);
    }
}

/// A row of the coverage table is kept, as it is, unless it reads as a failure of the
/// trailing list.
pub proof fn law_coverage_is_kept(ls: Seq<NotedLine>, j: int)
    requires
        0 <= j < ls.len(),
        kind(ls[j]) is Coverage,
        !(is_marker(ls[j]) && in_failed_list(ls.take(j))),
    ensures
        coverage_rows(ls).contains(ls[j].0),
    decreases ls.len(),
{
    let init = coverage_rows(ls.drop_last());
    if j == ls.len() - 1 {
        assert(ls.take(j) =~= ls.drop_last());
        assert(coverage_rows(ls)[init.len() as int] == ls[j].0);
    } else {
        assert(ls.drop_last().take(j) =~= ls.take(j));
        law_coverage_is_kept(ls.drop_last(), j);
        let k = choose|k: int| 0 <= k < init.len() && init[k] == ls[j].0;
        assert(coverage_rows(ls)[k] == ls[j].0);
    }
}

/// Nothing else is taken for a row of the coverage table, and no failure of the
/// trailing list.
pub proof fn law_coverage_is_verbatim(ls: Seq<NotedLine>, k: int)
    requires
        0 <= k < coverage_rows(ls).len(),
    ensures
        exists|j: int|
            0 <= j < ls.len() && kind(#[trigger] ls[j]) is Coverage && !(is_marker(ls[j])
                && in_failed_list(ls.take(j))) && ls[j].0 == coverage_rows(ls)[k],
    decreases ls.len(),
{
    let init = coverage_rows(ls.drop_last());
    if k < init.len() {
        law_coverage_is_verbatim(ls.drop_last(), k);
        let j = choose|j: int|
            0 <= j < ls.len() - 1 && kind(#[trigger] ls.drop_last()[j]) is Coverage && !(is_marker(
                ls.drop_last()[j],
            ) && in_failed_list(ls.drop_last().take(j))) && ls.drop_last()[j].0 == init[k];
        assert(ls.drop_last().take(j) =~= ls.take(j));
        assert(ls[j] == ls.drop_last()[j]);
    } else {
        let j = ls.len() - 1;
        assert(ls.take(j) =~= ls.drop_last());
        assert(kind(ls[j]) is Coverage);
    }
}

/// Every line of the summary is kept, trimmed.
pub proof fn law_summary_is_kept(ls: Seq<NotedLine>, j: int)
    requires
        0 <= j < ls.len(),
        kind(ls[j]) == LineKind::Summary,
    ensures
        summary_lines(ls).contains(trimmed(ls[j].0)),
    decreases ls.len(),
{
    let init = summary_lines(ls.drop_last());
    if j == ls.len() - 1 {
        assert(summary_lines(ls)[init.len() as int] == trimmed(ls[j].0));
    } else {
        law_summary_is_kept(ls.drop_last(), j);
        let k = choose|k: int| 0 <= k < init.len() && init[k] == trimmed(ls[j].0);
        assert(summary_lines(ls)[k] == trimmed(ls[j].0));
    }
}

/// Nothing else is taken for a line of the summary.
pub proof fn law_summary_is_not_made_up(ls: Seq<NotedLine>, k: int)
    requires
        0 <= k < summary_lines(ls).len(),
    ensures
        exists|j: int|
            0 <= j < ls.len() && kind(#[trigger] ls[j]) == LineKind::Summary && trimmed(ls[j].0)
                == summary_lines(ls)[k],
    decreases ls.len(),
{
    let init = summary_lines(ls.drop_last());
    if k < init.len() {
        law_summary_is_not_made_up(ls.drop_last(), k);
        let j = choose|j: int|
            0 <= j < ls.len() - 1 && kind(#[trigger] ls.drop_last()[j]) == LineKind::Summary
                && trimmed(ls.drop_last()[j].0) == init[k];
        assert(ls[j] == ls.drop_last()[j]);
    } else {
        assert(kind(ls[ls.len() - 1]) == LineKind::Summary);
    }
}

/// What a line is depends on it trimmed alone.
proof fn lemma_kind_of_trimmed(a: Seq<char>, b: Seq<char>)
    requires
        trimmed(a) == trimmed(b),
    ensures
        kind((a, test_matches(trimmed(a)))) == kind((b, test_matches(trimmed(b)))),
{
    law_blank_trims_to_nothing(a);
    law_blank_trims_to_nothing(b);
}

/// The result line of a passed test, a test file's name and Bun's banner are never
/// kept, in no part of the report.
pub proof fn law_discarded_is_never_kept(text: Seq<char>, line: Seq<char>)
    requires
        kind((line, test_matches(trimmed(line)))) == LineKind::Discarded,
    ensures
        ({
            let p = test_parts(noted_lines(text));
            &&& forall|b: int, k: int|
                0 <= b < p.failures.len() && 0 <= k < p.failures[b].len()
                    ==> #[trigger] p.failures[b][k] != line
            &&& !p.coverage.contains(line)
            &&& !p.context.contains(line)
            &&& !p.summary.contains(trimmed(line))
        }),
{
    let ls = noted_lines(text);
    let p = test_parts(ls);
    assert forall|b: int, k: int|
        0 <= b < p.failures.len() && 0 <= k < p.failures[b].len() implies
        #[trigger] p.failures[b][k] != line by {
        law_blocks_are_verbatim(ls, b, k);
    }
    assert forall|k: int| 0 <= k < p.coverage.len() implies p.coverage[k] != line by {
        law_coverage_is_verbatim(ls, k);
    }
    assert forall|k: int| 0 <= k < p.context.len() implies p.context[k] != line by {
        law_context_is_verbatim(ls, k);
    }
    assert forall|k: int| 0 <= k < p.summary.len() implies p.summary[k] != trimmed(line) by {
        law_summary_is_not_made_up(ls, k);
        let j = choose|j: int|
            0 <= j < ls.len() && kind(#[trigger] ls[j]) == LineKind::Summary && trimmed(ls[j].0)
                == p.summary[k];
        if p.summary[k] == trimmed(line) {
            lemma_kind_of_trimmed(ls[j].0, line);
        }
    }
}

/// The trailing list repeats failures that are known: each changes nothing.
pub proof fn law_failed_list_changes_nothing(ls: Seq<NotedLine>, l: NotedLine)
    requires
        in_failed_list(ls),
        is_marker(l),
    ensures
        test_parts(ls.push(l)) == test_parts(ls),
        in_failed_list(ls.push(l)),
{
    assert(ls.push(l).drop_last() =~= ls);
    lemma_failed_list_has_no_context(ls);
}

proof fn lemma_failed_list_has_no_context(ls: Seq<NotedLine>)
    requires
        in_failed_list(ls),
    ensures
        trailing_context(ls) == Seq::<Seq<char>>::empty(),
    decreases ls.len(),
{
    if kind(ls.last()) == LineKind::Blank {
        lemma_failed_list_has_no_context(ls.drop_last());
    }
}

/// Where no line is a failure, the report has no part on failures.
pub proof fn law_no_failure_no_title(ls: Seq<NotedLine>, hint: Option<Seq<char>>)
    requires
        forall|j: int| 0 <= j < ls.len() ==> kind(#[trigger] ls[j]) != LineKind::Failure,
    ensures
        failure_blocks(ls).len() == 0,
        failure_part(failure_blocks(ls), hint) == Seq::<Seq<char>>::empty(),
{
    if failure_blocks(ls).len() > 0 {
        law_no_failure_is_made_up(ls, 0);
    }
}

/// An element of an inner sequence is one of the whole.
proof fn lemma_flatten_has(ss: Seq<Seq<Seq<char>>>, b: int, k: int)
    requires
        0 <= b < ss.len(),
        0 <= k < ss[b].len(),
    ensures
        ss.flatten().contains(ss[b][k]),
    decreases ss.len(),
{
    let rest = ss.drop_first();
    if b == 0 {
        assert(ss.flatten()[k] == ss[0][k]);
    } else {
        assert(rest[b - 1] == ss[b]);
        lemma_flatten_has(rest, b - 1, k);
        let i = choose|i: int| 0 <= i < rest.flatten().len() && rest.flatten()[i] == ss[b][k];
        assert(ss.flatten()[ss[0].len() + i] == ss[b][k]);
    }
}

/// The first failures are shown in full, up to the cap.
pub proof fn law_first_failures_are_shown(p: TestParts, hint: Option<Seq<char>>, b: int, k: int)
    requires
        0 <= b < p.failures.len(),
        b < MAX_BUN_FAILURES,
        0 <= k < p.failures[b].len(),
    ensures
        report_lines(p, hint).contains(p.failures[b][k]),
{
    let cap = MAX_BUN_FAILURES as int;
    let shown = if p.failures.len() <= cap {
        p.failures
    } else {
        p.failures.take(cap)
    };
    assert(shown[b] == p.failures[b]);
    lemma_flatten_has(shown, b, k);
    let i = choose|i: int| 0 <= i < shown.flatten().len() && shown.flatten()[i] == shown[b][k];
    assert(failure_part(p.failures, hint)[1 + i] == p.failures[b][k]);
    assert(report_lines(p, hint)[1 + i] == p.failures[b][k]);
}

/// The coverage table is shown in full.
pub proof fn law_coverage_is_shown(p: TestParts, hint: Option<Seq<char>>, k: int)
    requires
        0 <= k < p.coverage.len(),
    ensures
        report_lines(p, hint).contains(p.coverage[k]),
{
    let i = failure_part(p.failures, hint).len() + k;
    assert(report_lines(p, hint)[i] == p.coverage[k]);
}

/// The summary ends the report, however many failures there are.
pub proof fn law_summary_ends_report(p: TestParts, hint: Option<Seq<char>>)
    requires
        p.summary.len() > 0,
    ensures
        p.summary.is_suffix_of(report_lines(p, hint)),
{
}

/// Where Bun printed neither results nor a summary, the first lines of what it did
/// print are shown.
pub proof fn law_aborted_run_is_shown(p: TestParts, hint: Option<Seq<char>>, k: int)
    requires
        p.failures.len() == 0,
        p.summary.len() == 0,
        0 <= k < p.context.len(),
        k < CAP_ERRORS,
    ensures
        report_lines(p, hint).contains(p.context[k]),
{
    assert(context_part(p.context, hint)[k] == p.context[k]);
    assert(report_lines(p, hint)[p.coverage.len() + k] == p.context[k]);
}

/// Where failures are hidden, a line of the report says how many.
pub proof fn law_hidden_failures_are_counted(p: TestParts, hint: Option<Seq<char>>)
    requires
        p.failures.len() > MAX_BUN_FAILURES,
    ensures
        report_lines(p, hint).contains(
            "… +"@ + decimal((p.failures.len() - MAX_BUN_FAILURES) as nat) + " more "@
                + "failures"@,
        ),
{
    let cap = MAX_BUN_FAILURES as int;
    let note = overflow_lines((p.failures.len() - cap) as nat, "failures"@, hint)[0];
    let i = 1 + p.failures.take(cap).flatten().len();
    assert(failure_part(p.failures, hint)[i as int] == note);
    assert(report_lines(p, hint)[i as int] == note);
}

/// Where lines of an aborted run are hidden, a line of the report says how many.
pub proof fn law_hidden_lines_are_counted(p: TestParts, hint: Option<Seq<char>>)
    requires
        p.failures.len() == 0,
        p.summary.len() == 0,
        p.context.len() > CAP_ERRORS,
    ensures
        report_lines(p, hint).contains(
            "… +"@ + decimal((p.context.len() - CAP_ERRORS) as nat) + " more "@ + "lines"@,
        ),
{
    let cap = CAP_ERRORS as int;
    let note = overflow_lines((p.context.len() - cap) as nat, "lines"@, hint)[0];
    assert(context_part(p.context, hint)[cap] == note);
    assert(report_lines(p, hint)[p.coverage.len() + cap] == note);
}

/// The hint is used only where something is left out.
pub proof fn law_hint_needs_left_out(
    p: TestParts,
    hint: Option<Seq<char>>,
    other: Option<Seq<char>>,
)
    requires
        left_out(p) is None,
    ensures
        report_lines(p, hint) == report_lines(p, other),
{
}

/// Where failures are hidden, the file holds all of them, each block in one piece.
pub proof fn law_hidden_failures_are_filed(p: TestParts, b: int)
    requires
        p.failures.len() > MAX_BUN_FAILURES,
        0 <= b < p.failures.len(),
    ensures
        left_out(p) is Some,
        has_text(left_out(p).unwrap().0, joined(p.failures[b], "\n"@)),
{
    let all = p.failures.map_values(|x: Seq<Seq<char>>| joined(x, "\n"@));
    assert(all[b] == joined(p.failures[b], "\n"@));
    law_joined_has_parts(all, "\n\n"@, b);
}

/// Where lines of an aborted run are hidden, the file holds all of them.
pub proof fn law_hidden_lines_are_filed(p: TestParts, k: int)
    requires
        p.failures.len() == 0,
        p.summary.len() == 0,
        p.context.len() > CAP_ERRORS,
        0 <= k < p.context.len(),
    ensures
        left_out(p) is Some,
        has_text(left_out(p).unwrap().0, p.context[k]),
{
    law_joined_has_parts(p.context, "\n"@, k);
}

/// What stands in the report's lines stands in the filtered text, as it is.
pub proof fn law_report_lines_stand_in_text(
    output: Seq<char>,
    exit_code: int,
    hint: Option<Seq<char>>,
    line: Seq<char>,
)
    requires
        report_lines(test_parts(noted_lines(without_ansi(output))), hint).contains(line),
        !is_blank(line),
    ensures
        has_text(filtered_test(output, exit_code, hint), line),
{
    let all = report_lines(test_parts(noted_lines(without_ansi(output))), hint);
    let i = choose|i: int| 0 <= i < all.len() && all[i] == line;
    law_finished_verbatim_shows(all, exit_code, "bun test"@, i);
}

/// Every line of the summary stands in the filtered text.
pub proof fn law_summary_stands_in_text(
    output: Seq<char>,
    exit_code: int,
    hint: Option<Seq<char>>,
    j: int,
)
    requires
        0 <= j < lines_of(without_ansi(output)).len(),
        kind(noted_lines(without_ansi(output))[j]) == LineKind::Summary,
    ensures
        has_text(
            filtered_test(output, exit_code, hint),
            trimmed(lines_of(without_ansi(output))[j]),
        ),
{
    let ls = noted_lines(without_ansi(output));
    let p = test_parts(ls);
    let t = trimmed(ls[j].0);
    law_summary_is_kept(ls, j);
    let k = choose|k: int| 0 <= k < p.summary.len() && p.summary[k] == t;
    law_summary_ends_report(p, hint);
    let all = report_lines(p, hint);
    assert(all[all.len() - p.summary.len() + k] == t);
    law_blank_trims_to_nothing(ls[j].0);
    law_trimmed_is_inner(ls[j].0);
    assert(!is_blank(t)) by {
        assert(t.len() > 0);
        assert(!is_white_space(t[0]));
    }
    law_report_lines_stand_in_text(output, exit_code, hint, t);
}

/// The first failures stand in the filtered text, each with the context before it.
pub proof fn law_failures_stand_in_text(
    output: Seq<char>,
    exit_code: int,
    hint: Option<Seq<char>>,
    b: int,
    k: int,
)
    requires
        ({
            let blocks = failure_blocks(noted_lines(without_ansi(output)));
            0 <= b < blocks.len() && b < MAX_BUN_FAILURES && 0 <= k < blocks[b].len()
        }),
    ensures
        has_text(
            filtered_test(output, exit_code, hint),
            failure_blocks(noted_lines(without_ansi(output)))[b][k],
        ),
{
    let ls = noted_lines(without_ansi(output));
    let p = test_parts(ls);
    law_first_failures_are_shown(p, hint, b, k);
    law_blocks_are_verbatim(ls, b, k);
    law_report_lines_stand_in_text(output, exit_code, hint, p.failures[b][k]);
}

/// A run that printed neither results nor a summary is not reported as "ok", nor by
/// its exit code: what it printed stands in the filtered text.
pub proof fn law_aborted_run_stands_in_text(
    output: Seq<char>,
    exit_code: int,
    hint: Option<Seq<char>>,
    k: int,
)
    requires
        ({
            let p = test_parts(noted_lines(without_ansi(output)));
            p.failures.len() == 0 && p.summary.len() == 0 && 0 <= k < p.context.len() && k
                < CAP_ERRORS
        }),
    ensures
        has_text(
            filtered_test(output, exit_code, hint),
            trailing_context(noted_lines(without_ansi(output)))[k],
        ),
{
    let ls = noted_lines(without_ansi(output));
    let p = test_parts(ls);
    law_aborted_run_is_shown(p, hint, k);
    law_context_is_verbatim(ls, k);
    law_report_lines_stand_in_text(output, exit_code, hint, p.context[k]);
}

/// A run of which no failure, no row of the coverage table, no line of the summary and no
/// context is left is reported by its exit code alone.
pub proof fn law_nothing_left_is_reported(
    output: Seq<char>,
    exit_code: int,
    hint: Option<Seq<char>>,
)
    requires
        ({
            let p = test_parts(noted_lines(without_ansi(output)));
            p.failures.len() == 0 && p.coverage.len() == 0 && p.summary.len() == 0
                && p.context.len() == 0
        }),
    ensures
        filtered_test(output, exit_code, hint) == nothing_kept(exit_code, "bun test"@),
{
    let p = test_parts(noted_lines(without_ansi(output)));
    assert(report_lines(p, hint) =~= Seq::<Seq<char>>::empty());
    law_blank_lines_are_nothing(report_lines(p, hint), exit_code, "bun test"@);
}

/// A run of which nothing is left but blank lines, discarded lines and the trailing list
/// of failures is reported by its exit code alone.
pub proof fn law_empty_run_is_reported(
    output: Seq<char>,
    exit_code: int,
    hint: Option<Seq<char>>,
)
    requires
        ({
            let ls = noted_lines(without_ansi(output));
            forall|j: int|
                0 <= j < ls.len() ==> {
                    ||| kind(#[trigger] ls[j]) == LineKind::Blank
                    ||| kind(ls[j]) == LineKind::Discarded
                    ||| kind(ls[j]) == LineKind::FailedList
                    ||| is_marker(ls[j]) && in_failed_list(ls.take(j))
                }
        }),
    ensures
        filtered_test(output, exit_code, hint) == nothing_kept(exit_code, "bun test"@),
{
    let ls = noted_lines(without_ansi(output));
    let p = test_parts(ls);
    if p.failures.len() > 0 {
        law_no_failure_is_made_up(ls, 0);
    }
    if p.coverage.len() > 0 {
        law_coverage_is_verbatim(ls, 0);
    }
    if p.summary.len() > 0 {
        law_summary_is_not_made_up(ls, 0);
    }
    if p.context.len() > 0 {
        law_context_is_verbatim(ls, 0);
    }
    law_nothing_left_is_reported(output, exit_code, hint);
}

/// The coverage table stands in the filtered text.
pub proof fn law_coverage_stands_in_text(
    output: Seq<char>,
    exit_code: int,
    hint: Option<Seq<char>>,
    k: int,
)
    requires
        0 <= k < coverage_rows(noted_lines(without_ansi(output))).len(),
    ensures
        has_text(
            filtered_test(output, exit_code, hint),
            coverage_rows(noted_lines(without_ansi(output)))[k],
        ),
{
    let ls = noted_lines(without_ansi(output));
    let p = test_parts(ls);
    law_coverage_is_shown(p, hint, k);
    law_coverage_is_verbatim(ls, k);
    law_report_lines_stand_in_text(output, exit_code, hint, p.coverage[k]);
}

/// No line opens both as a failed and as a passed test's.
proof fn lemma_signs_differ(line: Seq<char>)
    ensures
        !(opens_as_failed(line) && opens_as_passed(line)),
{
    reveal_strlit("(fail)");
    reveal_strlit("(pass)");
    if opens_as_failed(line) && opens_as_passed(line) {
        if "(fail)"@.is_prefix_of(line) {
            assert(line[0] == "(fail)"@[0] && line[1] == "(fail)"@[1]);
        }
        if "(pass)"@.is_prefix_of(line) {
            assert(line[0] == "(pass)"@[0] && line[1] == "(pass)"@[1]);
        }
        assert(seq!['✗'].is_prefix_of(line) ==> line[0] == seq!['✗'][0]);
        assert(seq!['✘'].is_prefix_of(line) ==> line[0] == seq!['✘'][0]);
        assert(seq!['✓'].is_prefix_of(line) ==> line[0] == seq!['✓'][0]);
        assert(seq!['✔'].is_prefix_of(line) ==> line[0] == seq!['✔'][0]);
    }
}

/// A line with the sign of a failure in front and a time at its end, in either
/// format, is a failure, unless it looks like a row of the coverage table.
pub proof fn law_failed_result_is_failure(line: Seq<char>, m: TestMatches)
    requires
        marker_shapes(trimmed(line), m),
        opens_as_failed(trimmed(line)),
        is_timed_line(trimmed(line)),
        !coverage_row(trimmed(line)),
    ensures
        kind((line, m)) == LineKind::Failure,
{
    lemma_opened_line_is_not_blank(line);
    if m.failed_list {
        lemma_digit_first(line);
    }
}

/// A line with the sign of a success in front and a time at its end, in either
/// format, is discarded, unless it looks like a row of the coverage table.
pub proof fn law_passed_result_is_discarded(line: Seq<char>, m: TestMatches)
    requires
        marker_shapes(trimmed(line), m),
        opens_as_passed(trimmed(line)),
        is_timed_line(trimmed(line)),
        !coverage_row(trimmed(line)),
    ensures
        kind((line, m)) == LineKind::Discarded,
{
    lemma_opened_line_is_not_blank(line);
    lemma_signs_differ(trimmed(line));
    if m.failed_list {
        lemma_digit_first(line);
    }
}

proof fn lemma_opened_line_is_not_blank(line: Seq<char>)
    requires
        opens_as_failed(trimmed(line)) || opens_as_passed(trimmed(line)),
    ensures
        !is_blank(line),
        !code_frame(trimmed(line)),
{
    reveal_strlit("(fail)");
    reveal_strlit("(pass)");
    law_blank_trims_to_nothing(line);
    let t = trimmed(line);
    if "(fail)"@.is_prefix_of(t) {
        assert(t[0] == "(fail)"@[0]);
    }
    if "(pass)"@.is_prefix_of(t) {
        assert(t[0] == "(pass)"@[0]);
    }
    assert(seq!['✗'].is_prefix_of(t) ==> t[0] == seq!['✗'][0]);
    assert(seq!['✘'].is_prefix_of(t) ==> t[0] == seq!['✘'][0]);
    assert(seq!['✓'].is_prefix_of(t) ==> t[0] == seq!['✓'][0]);
    assert(seq!['✔'].is_prefix_of(t) ==> t[0] == seq!['✔'][0]);
    assert forall|d: int, b: int| !splits_as_frame(t, d, b) by {
        if splits_as_frame(t, d, b) {
            assert('0' <= t.take(d)[0] <= '9');
        }
    }
}

/// A trimmed line that may open with a digit opens with no sign, and not as the banner.
proof fn lemma_digit_first(line: Seq<char>)
    requires
        may_open_with_digit(trimmed(line)),
    ensures
        !opens_as_failed(trimmed(line)),
        !opens_as_passed(trimmed(line)),
        !may_be_banner_line(trimmed(line)),
{
    let t = trimmed(line);
    law_trimmed_is_inner(line);
    assert(trimmed_start(t) == t);
    if may_be_banner_line(t) {
        reveal_strlit("bun ");
        law_banner_opens_with_bun(t);
        assert(t[0] == "bun "@[0]);
    }
}

/// The line "N tests failed:", in ASCII digits, opens the trailing list.
pub proof fn law_failed_list_is_opened(line: Seq<char>, m: TestMatches)
    requires
        marker_shapes(trimmed(line), m),
        opens_failed_list(trimmed(line)),
    ensures
        kind((line, m)) == LineKind::FailedList,
{
    let t = trimmed(line);
    law_blank_trims_to_nothing(line);
    let (d, a, e, b) = choose|d: int, a: int, e: int, b: int| #[trigger]
        splits_as_failed_list(t, d, a, e, b) && is_digits(t.take(d));
    reveal_strlit("test");
    reveal_strlit("tests");
    assert(t[a] == t.subrange(a, e)[0]);
    lemma_no_frame(t, d, a);
}

/// Digits, white space and then neither white space nor a bar make no code frame.
proof fn lemma_no_frame(t: Seq<char>, d: int, a: int)
    requires
        0 < d < a < t.len(),
        is_digits(t.take(d)),
        is_space_between(t, d, a),
        !is_white_space(t[a]),
        t[a] != '|',
    ensures
        !code_frame(t),
{
    assert forall|i: int, j: int| !splits_as_frame(t, i, j) by {
        if splits_as_frame(t, i, j) {
            assert forall|k: int| 0 <= k < d implies '0' <= #[trigger] t[k] <= '9' by {
                assert(t.take(d)[k] == t[k]);
            }
            lemma_frame_splits_once(t, d, a, i, j);
        }
    }
}

/// A line of the summary is kept as one, unless it looks like something else: the head of
/// the trailing list, a row of the coverage table, quoted source code or a file's name.
pub proof fn law_summary_line_is_summary(line: Seq<char>, m: TestMatches)
    requires
        marker_shapes(trimmed(line), m),
        summary_line_given(trimmed(line), m.count, m.expect, m.snapshot),
        !m.failed_list,
        !coverage_row(trimmed(line)),
        !code_frame(trimmed(line)),
        !test_file_header(trimmed(line)),
    ensures
        kind((line, m)) == LineKind::Summary,
{
    let t = trimmed(line);
    reveal_strlit("snapshots:");
    reveal_strlit("Ran ");
    reveal_strlit("Bailed out after ");
    reveal_strlit("(fail)");
    reveal_strlit("(pass)");
    reveal_strlit("bun ");
    law_blank_trims_to_nothing(line);
    if m.count || m.expect {
        lemma_digit_first(line);
    } else {
        let c = t[0];
        assert(m.snapshot ==> c == "snapshots:"@[0]);
        assert("Ran "@.is_prefix_of(t) ==> c == "Ran "@[0]);
        assert("Bailed out after "@.is_prefix_of(t) ==> c == "Bailed out after "@[0]);
        assert("(fail)"@.is_prefix_of(t) ==> c == "(fail)"@[0]);
        assert("(pass)"@.is_prefix_of(t) ==> c == "(pass)"@[0]);
        assert(seq!['✗'].is_prefix_of(t) ==> c == seq!['✗'][0]);
        assert(seq!['✘'].is_prefix_of(t) ==> c == seq!['✘'][0]);
        assert(seq!['✓'].is_prefix_of(t) ==> c == seq!['✓'][0]);
        assert(seq!['✔'].is_prefix_of(t) ==> c == seq!['✔'][0]);
        if m.banner {
            law_banner_opens_with_bun(t);
            assert(c == "bun "@[0]);
        }
    }
}

/// Every count line in ASCII digits, such as "2 pass", is a line of the summary.
pub proof fn law_count_is_summary(line: Seq<char>, m: TestMatches)
    requires
        marker_shapes(trimmed(line), m),
        is_count_in_digits(trimmed(line)),
    ensures
        kind((line, m)) == LineKind::Summary,
{
    let t = trimmed(line);
    law_trimmed_twice(line);
    let (i, j) = choose|i: int, j: int|
        splits_as_count(trimmed(t), i, j) && is_digits(trimmed(t).take(i));
    reveal_strlit("pass");
    reveal_strlit("fail");
    reveal_strlit("skip");
    reveal_strlit("todo");
    let w = t.skip(j);
    assert(forall|k: int| 0 <= k < w.len() ==> w[k] == t[j + k]);
    assert(w.len() == 4);
    assert(t[j] == w[0] && t[j + 1] == w[1] && t[j + 2] == w[2] && t[j + 3] == w[3]);
    assert forall|k: int| 0 <= k < i implies '0' <= #[trigger] t[k] <= '9' by {
        assert(t.take(i)[k] == t[k]);
    }
    lemma_no_frame(t, i, j);
    if coverage_row(t) {
        law_what_occurs_stands_in_text(t, '|');
        let k = choose|k: int| 0 <= k < t.len() && t[k] == '|';
        if i <= k < j {
            assert(is_white_space(t[k]));
        } else if k >= j {
            assert(w[k - j] == '|');
        }
    }
    if test_file_header(t) {
        reveal_strlit(":");
        assert(t.last() == ":"@[0]);
        assert(t.last() == w[3]);
    }
    if m.failed_list {
        reveal_strlit("test");
        reveal_strlit("tests");
        let (d, a, e, b) = choose|d: int, a: int, e: int, b: int| #[trigger]
            splits_as_failed_list(t, d, a, e, b) && forall|k: int|
                0 <= k < d ==> may_be_digit(#[trigger] t[k]);
        assert(t[a] == t.subrange(a, e)[0] && t[a + 1] == t.subrange(a, e)[1]);
        assert(is_white_space(t[d]));
        assert(j < d ==> may_be_digit(t[j]));
        assert(a != j);
        if a < j {
            assert(is_white_space(t[a]) || a < i);
        } else {
            assert(is_white_space(t[j]));
        }
    }
    law_summary_line_is_summary(line, m);
}

/// A line that an application logs is no failure where the sign in front or the time
/// at the end is missing.
pub proof fn law_log_line_is_no_failure(line: Seq<char>, m: TestMatches)
    requires
        marker_shapes(trimmed(line), m),
        !opens_as_failed(trimmed(line)) || !closes_as_timed(trimmed(line)),
    ensures
        !is_marker((line, m)),
{
}

/// A line that an application logs discards no context where the sign in front or the
/// time at the end is missing, unless it reads as a file's name or as the banner.
pub proof fn law_log_line_discards_nothing(line: Seq<char>, m: TestMatches)
    requires
        marker_shapes(trimmed(line), m),
        !opens_as_passed(trimmed(line)) || !closes_as_timed(trimmed(line)),
        !test_file_header(trimmed(line)),
        !m.banner,
    ensures
        kind((line, m)) != LineKind::Discarded,
{
}

/// A line that goes on behind a count, or before it, is no count of the summary.
pub proof fn law_longer_count_is_no_summary(line: Seq<char>, m: TestMatches)
    requires
        marker_shapes(trimmed(line), m),
        !is_count_of_two_words(trimmed(line)),
        !summary_line_given(trimmed(line), false, m.expect, m.snapshot),
    ensures
        kind((line, m)) != LineKind::Summary,
{
}

/// No line is the result both of a failed and of a passed test.
pub proof fn law_no_line_is_both(line: Seq<char>, m: TestMatches)
    requires
        marker_shapes(line, m),
    ensures
        !(m.fail_marker && m.pass_marker),
{
    lemma_signs_differ(line);
}

/// Behind a sign stands the rest of the line, whichever sign it is.
pub proof fn law_sign_is_apart(rest: Seq<char>)
    ensures
        opens_as_passed("(pass)"@ + rest) && after_sign("(pass)"@ + rest) == rest,
        opens_as_passed(seq!['✓'] + rest) && after_sign(seq!['✓'] + rest) == rest,
        opens_as_passed(seq!['✔'] + rest) && after_sign(seq!['✔'] + rest) == rest,
        opens_as_failed("(fail)"@ + rest) && after_sign("(fail)"@ + rest) == rest,
        opens_as_failed(seq!['✗'] + rest) && after_sign(seq!['✗'] + rest) == rest,
        opens_as_failed(seq!['✘'] + rest) && after_sign(seq!['✘'] + rest) == rest,
{
    reveal_strlit("(pass)");
    reveal_strlit("(fail)");
    assert("(pass)"@.is_prefix_of("(pass)"@ + rest));
    assert("(fail)"@.is_prefix_of("(fail)"@ + rest));
    assert(seq!['✓'].is_prefix_of(seq!['✓'] + rest));
    assert(seq!['✔'].is_prefix_of(seq!['✔'] + rest));
    assert(seq!['✗'].is_prefix_of(seq!['✗'] + rest));
    assert(seq!['✘'].is_prefix_of(seq!['✘'] + rest));
    assert(("(pass)"@ + rest).skip(6) =~= rest);
    assert(("(fail)"@ + rest).skip(6) =~= rest);
    assert((seq!['✓'] + rest).skip(1) =~= rest);
    assert((seq!['✔'] + rest).skip(1) =~= rest);
    assert((seq!['✗'] + rest).skip(1) =~= rest);
    assert((seq!['✘'] + rest).skip(1) =~= rest);
}

/// The terminal's format and the piped one are read alike: the same text behind any of
/// the six signs makes a result line, or behind none.
pub proof fn law_formats_are_read_alike(
    rest: Seq<char>,
    piped_pass: TestMatches,
    tick: TestMatches,
    heavy_tick: TestMatches,
    piped_fail: TestMatches,
    cross: TestMatches,
    heavy_cross: TestMatches,
)
    requires
        marker_shapes("(pass)"@ + rest, piped_pass),
        marker_shapes(seq!['✓'] + rest, tick),
        marker_shapes(seq!['✔'] + rest, heavy_tick),
        marker_shapes("(fail)"@ + rest, piped_fail),
        marker_shapes(seq!['✗'] + rest, cross),
        marker_shapes(seq!['✘'] + rest, heavy_cross),
    ensures
        piped_pass.pass_marker == tick.pass_marker,
        piped_pass.pass_marker == heavy_tick.pass_marker,
        piped_pass.pass_marker == piped_fail.fail_marker,
        piped_pass.pass_marker == cross.fail_marker,
        piped_pass.pass_marker == heavy_cross.fail_marker,
{
    law_sign_is_apart(rest);
}

/// Whether nothing in `ls` waits for a line to come: it ends with no context, and not in
/// the trailing list.
pub open spec fn nothing_waits(ls: Seq<NotedLine>) -> bool {
    trailing_context(ls).len() == 0 && !in_failed_list(ls)
}

/// Nothing waits at the start, behind a line of the summary, behind a discarded line and
/// behind a failure outside the trailing list.
pub proof fn law_nothing_waits(ls: Seq<NotedLine>)
    requires
        ({
            ||| ls.len() == 0
            ||| kind(ls.last()) == LineKind::Summary
            ||| kind(ls.last()) == LineKind::Discarded
            ||| kind(ls.last()) == LineKind::Failure && !in_failed_list(ls.drop_last())
        }),
    ensures
        nothing_waits(ls),
{
}

/// Blank lines change nothing, and neither do discarded ones where nothing waits.
proof fn lemma_inserted_lines(before: Seq<NotedLine>, more: Seq<NotedLine>, after: Seq<NotedLine>)
    requires
        forall|j: int|
            0 <= j < more.len() ==> kind(#[trigger] more[j]) == LineKind::Blank || (kind(more[j])
                == LineKind::Discarded && nothing_waits(before)),
    ensures
        test_parts(before + more + after) == test_parts(before + after),
        in_failed_list(before + more + after) == in_failed_list(before + after),
    decreases more.len() + after.len(),
{
    let with = before + more + after;
    let without = before + after;
    if after.len() > 0 {
        lemma_inserted_lines(before, more, after.drop_last());
        assert(with.drop_last() =~= before + more + after.drop_last());
        assert(without.drop_last() =~= before + after.drop_last());
        assert(with.last() == after.last());
        assert(without.last() == after.last());
    } else if more.len() > 0 {
        assert forall|j: int| 0 <= j < more.len() - 1 implies kind(#[trigger] more.drop_last()[j])
            == LineKind::Blank || (kind(more.drop_last()[j]) == LineKind::Discarded
            && nothing_waits(before)) by {
            assert(more.drop_last()[j] == more[j]);
        }
        lemma_inserted_lines(before, more.drop_last(), after);
        assert(with.drop_last() =~= before + more.drop_last() + after);
        assert(without =~= before);
        assert(with.last() == more[more.len() - 1]);
    } else {
        assert(with =~= without);
    }
}

/// Where two texts differ by whole lines, so do their noted lines.
proof fn lemma_noted_around(before: Seq<char>, more: Seq<char>, after: Seq<char>)
    requires
        before.len() == 0 || before.last() == '\n',
        more.len() == 0 || more.last() == '\n',
    ensures
        noted_lines(before + more + after) == noted_lines(before) + noted_lines(more)
            + noted_lines(after),
        noted_lines(before + after) == noted_lines(before) + noted_lines(after),
{
    law_lines_of_both(before, after);
    law_lines_of_both(more, after);
    law_lines_of_both(before, more + after);
    assert(before + more + after =~= before + (more + after));
    assert(noted_lines(before + more + after) =~= noted_lines(before) + noted_lines(more)
        + noted_lines(after));
    assert(noted_lines(before + after) =~= noted_lines(before) + noted_lines(after));
}

/// Whole lines that are discarded, such as those of passed tests, change nothing in the
/// filtered text where nothing waits before them, and neither do blank lines among them.
pub proof fn law_discarded_lines_change_nothing(
    output: Seq<char>,
    other: Seq<char>,
    before: Seq<char>,
    more: Seq<char>,
    after: Seq<char>,
    exit_code: int,
    hint: Option<Seq<char>>,
)
    requires
        without_ansi(output) == before + more + after,
        without_ansi(other) == before + after,
        before.len() == 0 || before.last() == '\n',
        more.len() == 0 || more.last() == '\n',
        nothing_waits(noted_lines(before)),
        forall|j: int|
            0 <= j < noted_lines(more).len() ==> kind(#[trigger] noted_lines(more)[j])
                == LineKind::Discarded || kind(noted_lines(more)[j]) == LineKind::Blank,
    ensures
        filtered_test(output, exit_code, hint) == filtered_test(other, exit_code, hint),
{
    lemma_noted_around(before, more, after);
    lemma_inserted_lines(noted_lines(before), noted_lines(more), noted_lines(after));
}

/// Whole blank lines change nothing in the filtered text, wherever they stand.
pub proof fn law_blank_lines_change_nothing(
    output: Seq<char>,
    other: Seq<char>,
    before: Seq<char>,
    more: Seq<char>,
    after: Seq<char>,
    exit_code: int,
    hint: Option<Seq<char>>,
)
    requires
        without_ansi(output) == before + more + after,
        without_ansi(other) == before + after,
        before.len() == 0 || before.last() == '\n',
        more.len() == 0 || more.last() == '\n',
        forall|j: int| 0 <= j < lines_of(more).len() ==> is_blank(#[trigger] lines_of(more)[j]),
    ensures
        filtered_test(output, exit_code, hint) == filtered_test(other, exit_code, hint),
{
    lemma_noted_around(before, more, after);
    let ls = noted_lines(more);
    assert forall|j: int| 0 <= j < ls.len() implies kind(#[trigger] ls[j]) == LineKind::Blank by {
        assert(is_blank(lines_of(more)[j]));
    }
    lemma_inserted_lines(noted_lines(before), ls, noted_lines(after));
}

/// Whether `text` is made of the three, where `passed` is whole result lines of passed
/// tests, none of which looks like a row of the coverage table, and nothing waits before
/// them.
pub open spec fn holds_passed_lines(
    text: Seq<char>,
    before: Seq<char>,
    passed: Seq<char>,
    after: Seq<char>,
) -> bool {
    &&& text == before + passed + after
    &&& before.len() == 0 || before.last() == '\n'
    &&& passed.len() == 0 || passed.last() == '\n'
    &&& nothing_waits(noted_lines(before))
    &&& forall|j: int|
        0 <= j < lines_of(passed).len() ==> opens_as_passed(
            trimmed(#[trigger] lines_of(passed)[j]),
        ) && is_timed_line(trimmed(lines_of(passed)[j])) && !coverage_row(
            trimmed(lines_of(passed)[j]),
        )
}

/// The result lines of passed tests change nothing in the parts of the report where
/// nothing waits before them.
pub proof fn law_passed_lines_change_nothing(
    text: Seq<char>,
    before: Seq<char>,
    passed: Seq<char>,
    after: Seq<char>,
)
    requires
        holds_passed_lines(text, before, passed, after),
        forall|j: int|
            0 <= j < noted_lines(text).len() ==> marker_shapes(
                trimmed((#[trigger] noted_lines(text)[j]).0),
                noted_lines(text)[j].1,
            ),
    ensures
        test_parts(noted_lines(text)) == test_parts(noted_lines(before + after)),
{
    lemma_noted_around(before, passed, after);
    let ls = noted_lines(passed);
    assert forall|j: int| 0 <= j < ls.len() implies kind(#[trigger] ls[j])
        == LineKind::Discarded by {
        assert(ls[j].0 == lines_of(passed)[j]);
        let i = noted_lines(before).len() + j;
        assert(noted_lines(text)[i] == ls[j]);
        law_passed_result_is_discarded(ls[j].0, ls[j].1);
    }
    lemma_inserted_lines(noted_lines(before), ls, noted_lines(after));
}

/// A line with the three column separators has a bar in three places.
pub proof fn law_row_has_three_bars(t: Seq<char>)
    ensures
        coverage_row(t) <==> exists|a: int, b: int, c: int|
            0 <= a < b < c < t.len() && #[trigger] t[a] == '|' && #[trigger] t[b] == '|'
                && #[trigger] t[c] == '|',
{
    if coverage_row(t) {
        let c = law_last_occurrence(t, '|');
        let b = law_last_occurrence(t.take(c), '|');
        assert(t.take(c).take(b) =~= t.take(b));
        let a = law_last_occurrence(t.take(b), '|');
        assert(t[a] == '|' && t[b] == '|' && t[c] == '|');
    }
    if exists|a: int, b: int, c: int|
        0 <= a < b < c < t.len() && #[trigger] t[a] == '|' && #[trigger] t[b] == '|'
            && #[trigger] t[c] == '|' {
        let (a, b, c) = choose|a: int, b: int, c: int|
            0 <= a < b < c < t.len() && #[trigger] t[a] == '|' && #[trigger] t[b] == '|'
                && #[trigger] t[c] == '|';
        law_occurrences_grow(t, '|', a, b);
        law_occurrences_grow(t, '|', b, c);
        law_occurrences_grow(t, '|', c, t.len() as int);
        assert(t.take(t.len() as int) =~= t);
    }
}

/// A line of a code frame begins with digits, white space or nothing, and a bar.
pub proof fn law_code_frame_by_looks(t: Seq<char>)
    ensures
        code_frame(t) <==> exists|d: int, b: int|
            {
                &&& 0 < d <= b < t.len()
                &&& forall|k: int| 0 <= k < d ==> '0' <= #[trigger] t[k] <= '9'
                &&& is_blank(#[trigger] t.subrange(d, b))
                &&& t[b] == '|'
            },
{
    assert forall|d: int, b: int| splits_as_frame(t, d, b) == ({
        &&& 0 < d <= b < t.len()
        &&& forall|k: int| 0 <= k < d ==> '0' <= #[trigger] t[k] <= '9'
        &&& is_blank(#[trigger] t.subrange(d, b))
        &&& t[b] == '|'
    }) by {
        if splits_as_frame(t, d, b) {
            assert forall|k: int| 0 <= k < d implies '0' <= #[trigger] t[k] <= '9' by {
                assert(t.take(d)[k] == t[k]);
            }
        }
    }
}

/// The row of a file has numbers between its first and second and between its second and
/// third bar.
pub proof fn law_percent_row_by_looks(t: Seq<char>, a: int, b: int, c: int)
    requires
        0 <= a < b < c < t.len(),
        t[a] == '|' && t[b] == '|' && t[c] == '|',
        forall|k: int| 0 <= k < c && k != a && k != b ==> #[trigger] t[k] != '|',
    ensures
        percent_row(t) <==> is_number(trimmed(t.subrange(a + 1, b))) && is_number(
            trimmed(t.subrange(b + 1, c)),
        ),
{
    assert(bars_at(t, a, b, c));
    assert forall|i: int, j: int, k: int| #[trigger] bars_at(t, i, j, k) implies i == a && j == b
        && k == c by {
        assert(t[i] == '|' && t[j] == '|' && t[k] == '|');
    }
}

/// A line with fewer than three bars is no row of a file.
pub proof fn law_no_bars_no_percent_row(t: Seq<char>)
    requires
        !coverage_row(t),
    ensures
        !percent_row(t),
{
    if percent_row(t) {
        law_percent_row_is_row(t);
    }
}

/// What a line is, told by the line and by what the patterns say of it trimmed, and in which
/// order the questions are asked.
pub proof fn law_kind_by_looks(line: Seq<char>, m: TestMatches)
    ensures
        ({
            let t = trimmed(line);
            let blank = forall|k: int| 0 <= k < line.len() ==> is_white_space(#[trigger] line[k]);
            let quoted = code_frame(t) && !percent_row(t);
            let header = t.len() > 0 && t.last() == ':' && (has_text(t, ".test."@) || has_text(
                t,
                ".spec."@,
            ));
            let summary = m.count || m.expect || m.snapshot || "Ran "@.is_prefix_of(t)
                || "Bailed out after "@.is_prefix_of(t);
            kind((line, m)) == if blank {
                LineKind::Blank
            } else if quoted {
                LineKind::Context
            } else if m.failed_list {
                LineKind::FailedList
            } else if occurrences(t, '|') >= 3 {
                LineKind::Coverage { marker: m.fail_marker }
            } else if m.fail_marker {
                LineKind::Failure
            } else if m.pass_marker || header || m.banner {
                LineKind::Discarded
            } else if summary {
                LineKind::Summary
            } else {
                LineKind::Context
            }
        }),
        is_marker((line, m)) <==> kind((line, m)) == LineKind::Failure || kind((line, m)) == (
        LineKind::Coverage { marker: true }),
{
    let t = trimmed(line);
    reveal_strlit(":");
    if t.len() > 0 {
        assert(":"@ =~= seq![':']);
        let end = t.subrange(t.len() - 1, t.len() as int);
        assert(end =~= seq![t.last()]);
        assert(end[0] == t.last());
        assert(seq![':'][0] == ':');
    }
}

/// Each noted line is a line of the text, as it is, in its place, with what the patterns say
/// of it trimmed.
pub proof fn law_noted_lines_in_place(text: Seq<char>, j: int)
    ensures
        noted_lines(text).len() == lines_of(text).len(),
        0 <= j < lines_of(text).len() ==> ({
            let line = lines_of(text)[j];
            let t = trimmed(line);
            let m = noted_lines(text)[j].1;
            &&& noted_lines(text)[j].0 == line
            &&& m.failed_list == regex_is_match(BUN_TESTS_FAILED_RE@, t)
            &&& m.fail_marker == regex_is_match(BUN_FAIL_MARKER_RE@, t)
            &&& m.pass_marker == regex_is_match(BUN_PASS_MARKER_RE@, t)
            &&& m.banner == regex_is_match(BUN_BANNER_RE@, t)
            &&& m.count == regex_is_match(BUN_TEST_COUNT_RE@, t)
            &&& m.expect == regex_is_match(BUN_TEST_EXPECT_RE@, t)
            &&& m.snapshot == regex_is_match(BUN_SNAPSHOT_RE@, t)
        }),
{
}

/// The trailing list goes on as long as nothing but blank lines and failures follow its head.
pub proof fn law_failed_list_by_looks(ls: Seq<NotedLine>)
    ensures
        in_failed_list(ls) <==> exists|h: int|
            {
                &&& 0 <= h < ls.len()
                &&& kind(#[trigger] ls[h]) == LineKind::FailedList
                &&& forall|k: int|
                    h < k < ls.len() ==> {
                        ||| kind(#[trigger] ls[k]) == LineKind::Blank
                        ||| kind(ls[k]) == LineKind::Failure
                        ||| kind(ls[k]) == (LineKind::Coverage { marker: true })
                    }
            },
{
    if in_failed_list(ls) {
        let h = lemma_head_of_the_list(ls);
        assert(kind(ls[h]) == LineKind::FailedList);
    }
    if exists|h: int|
        {
            &&& 0 <= h < ls.len()
            &&& kind(#[trigger] ls[h]) == LineKind::FailedList
            &&& forall|k: int| h < k < ls.len() ==> goes_on(#[trigger] ls[k])
        } {
        let h = choose|h: int|
            {
                &&& 0 <= h < ls.len()
                &&& kind(#[trigger] ls[h]) == LineKind::FailedList
                &&& forall|k: int| h < k < ls.len() ==> goes_on(#[trigger] ls[k])
            };
        lemma_list_goes_on(ls, h, ls.len() as int);
        assert(ls.take(ls.len() as int) =~= ls);
    }
}

/// Whether a line is blank or reads as a failure.
spec fn goes_on(l: NotedLine) -> bool {
    ||| kind(l) == LineKind::Blank
    ||| kind(l) == LineKind::Failure
    ||| kind(l) == (LineKind::Coverage { marker: true })
}

proof fn lemma_head_of_the_list(ls: Seq<NotedLine>) -> (h: int)
    requires
        in_failed_list(ls),
    ensures
        0 <= h < ls.len(),
        kind(ls[h]) == LineKind::FailedList,
        forall|k: int| h < k < ls.len() ==> goes_on(#[trigger] ls[k]),
    decreases ls.len(),
{
    if kind(ls.last()) == LineKind::FailedList {
        ls.len() - 1
    } else {
        let init = ls.drop_last();
        let h = lemma_head_of_the_list(init);
        assert(ls[h] == init[h]);
        assert forall|k: int| h < k < ls.len() implies goes_on(#[trigger] ls[k]) by {
            if k < ls.len() - 1 {
                assert(init[k] == ls[k]);
            }
        }
        h
    }
}

proof fn lemma_list_goes_on(ls: Seq<NotedLine>, h: int, n: int)
    requires
        0 <= h < n <= ls.len(),
        kind(ls[h]) == LineKind::FailedList,
        forall|k: int| h < k < n ==> goes_on(#[trigger] ls[k]),
    ensures
        in_failed_list(ls.take(n)),
    decreases n,
{
    let upto = ls.take(n);
    assert(upto.last() == ls[n - 1]);
    if h < n - 1 {
        lemma_list_goes_on(ls, h, n - 1);
        assert(upto.drop_last() =~= ls.take(n - 1));
        assert(goes_on(ls[n - 1]));
    }
}

/// What one more line does to the parts of the report: each kind of line adds to one part at
/// its end, or to none, and all but blank lines, context and the entries of the trailing list
/// end the context. Without lines every part is empty.
pub proof fn law_one_more_line(ls: Seq<NotedLine>, l: NotedLine)
    ensures
        ({
            let p = test_parts(ls);
            let q = test_parts(ls.push(l));
            let repeated = in_failed_list(ls) && is_marker(l);
            &&& kind(l) == LineKind::Failure && !repeated ==> q.failures == p.failures.push(
                p.context.push(l.0),
            )
            &&& !(kind(l) == LineKind::Failure && !repeated) ==> q.failures == p.failures
            &&& kind(l) is Coverage && !repeated ==> q.coverage == p.coverage.push(l.0)
            &&& !(kind(l) is Coverage && !repeated) ==> q.coverage == p.coverage
            &&& kind(l) == LineKind::Summary ==> q.summary == p.summary.push(trimmed(l.0))
            &&& kind(l) != LineKind::Summary ==> q.summary == p.summary
            &&& kind(l) == LineKind::Context ==> q.context == p.context.push(l.0)
            &&& kind(l) == LineKind::Blank ==> q.context == p.context
            &&& kind(l) != LineKind::Context && kind(l) != LineKind::Blank ==> q.context.len() == 0
        }),
        ({
            let p = test_parts(Seq::empty());
            p.failures.len() == 0 && p.coverage.len() == 0 && p.summary.len() == 0
                && p.context.len() == 0
        }),
{
    assert(ls.push(l).drop_last() =~= ls);
    assert(ls.push(l).last() == l);
}

/// The context that a run of lines leaves is the lines themselves, in their order and as
/// often as they occur: where lines `i` up to `j` are all context, and the line before them
/// ends the context before it or there is none, the context before line `j` is those lines
/// and no others. With a failure at `j` outside the trailing list, its block is those lines
/// and then its own.
pub proof fn law_block_is_the_run_before_it(ls: Seq<NotedLine>, i: int, j: int)
    requires
        0 <= i <= j <= ls.len(),
        i > 0 ==> kind(ls[i - 1]) != LineKind::Context && kind(ls[i - 1]) != LineKind::Blank,
        forall|k: int| i <= k < j ==> kind(#[trigger] ls[k]) == LineKind::Context,
    ensures
        trailing_context(ls.take(j)).len() == j - i,
        forall|k: int| 0 <= k < j - i ==> #[trigger] trailing_context(ls.take(j))[k] == ls[i + k].0,
        j < ls.len() && kind(ls[j]) == LineKind::Failure && !in_failed_list(ls.take(j)) ==> {
            let before = failure_blocks(ls.take(j));
            let block = failure_blocks(ls)[before.len() as int];
            &&& before.is_prefix_of(failure_blocks(ls))
            &&& before.len() < failure_blocks(ls).len()
            &&& block.len() == j - i + 1
            &&& forall|k: int| 0 <= k <= j - i ==> #[trigger] block[k] == ls[i + k].0
        },
{
    lemma_run_of_context(ls, i, j);
    if j < ls.len() && kind(ls[j]) == LineKind::Failure && !in_failed_list(ls.take(j)) {
        let upto = ls.take(j + 1);
        assert(upto.drop_last() =~= ls.take(j));
        assert(upto.last() == ls[j]);
        let before = failure_blocks(ls.take(j));
        lemma_blocks_stay(ls, j + 1);
        let all = failure_blocks(ls);
        assert(failure_blocks(upto)[before.len() as int] == all.take(
            failure_blocks(upto).len() as int,
        )[before.len() as int]);
        assert(all.subrange(0, before.len() as int) =~= before) by {
            assert forall|k: int| 0 <= k < before.len() implies all[k] == before[k] by {
                assert(failure_blocks(upto)[k] == all.take(failure_blocks(upto).len() as int)[k]);
            }
        }
    }
}

proof fn lemma_run_of_context(ls: Seq<NotedLine>, i: int, j: int)
    requires
        0 <= i <= j <= ls.len(),
        i > 0 ==> kind(ls[i - 1]) != LineKind::Context && kind(ls[i - 1]) != LineKind::Blank,
        forall|k: int| i <= k < j ==> kind(#[trigger] ls[k]) == LineKind::Context,
    ensures
        trailing_context(ls.take(j)).len() == j - i,
        forall|k: int| 0 <= k < j - i ==> #[trigger] trailing_context(ls.take(j))[k] == ls[i + k].0,
    decreases j,
{
    let upto = ls.take(j);
    if j > 0 {
        assert(upto.drop_last() =~= ls.take(j - 1));
        assert(upto.last() == ls[j - 1]);
        if i < j {
            lemma_run_of_context(ls, i, j - 1);
        }
    }
}

/// Later lines change no block of a failure before them.
proof fn lemma_blocks_stay(ls: Seq<NotedLine>, n: int)
    requires
        0 <= n <= ls.len(),
    ensures
        failure_blocks(ls.take(n)).len() <= failure_blocks(ls).len(),
        failure_blocks(ls.take(n)) == failure_blocks(ls).take(
            failure_blocks(ls.take(n)).len() as int,
        ),
    decreases ls.len(),
{
    let all = failure_blocks(ls);
    if n == ls.len() {
        assert(ls.take(n) =~= ls);
        assert(all.take(all.len() as int) =~= all);
    } else {
        let init = ls.drop_last();
        assert(init.take(n) =~= ls.take(n));
        lemma_blocks_stay(init, n);
        let m = failure_blocks(ls.take(n)).len() as int;
        assert(failure_blocks(init).take(m) =~= all.take(m));
    }
}

/// A blank line is as good as not there: it changes no part of the report, wherever it
/// stands.
pub proof fn law_blank_line_is_not_there(
    before: Seq<NotedLine>,
    blank: NotedLine,
    after: Seq<NotedLine>,
)
    requires
        kind(blank) == LineKind::Blank,
    ensures
        test_parts(before + seq![blank] + after) == test_parts(before + after),
{
    lemma_inserted_lines(before, seq![blank], after);
}

/// Where nothing waits, what follows is reported on its own: the failures, the rows and the
/// lines of the summary are those of the first lines and then those of the others, in their
/// order and as often as they occur.
pub proof fn law_parts_of_both(a: Seq<NotedLine>, b: Seq<NotedLine>)
    requires
        trailing_context(a).len() == 0,
        !in_failed_list(a),
    ensures
        failure_blocks(a + b) == failure_blocks(a) + failure_blocks(b),
        coverage_rows(a + b) == coverage_rows(a) + coverage_rows(b),
        summary_lines(a + b) == summary_lines(a) + summary_lines(b),
        trailing_context(a + b) == trailing_context(b),
        in_failed_list(a + b) == in_failed_list(b),
    decreases b.len(),
{
    let all = a + b;
    if b.len() == 0 {
        assert(all =~= a);
        assert(failure_blocks(a) + failure_blocks(b) =~= failure_blocks(a));
        assert(coverage_rows(a) + coverage_rows(b) =~= coverage_rows(a));
        assert(summary_lines(a) + summary_lines(b) =~= summary_lines(a));
        assert(trailing_context(a) =~= trailing_context(b));
    } else {
        law_parts_of_both(a, b.drop_last());
        assert(all.drop_last() =~= a + b.drop_last());
        assert(all.last() == b.last());
        assert(failure_blocks(all) =~= failure_blocks(a) + failure_blocks(b));
        assert(coverage_rows(all) =~= coverage_rows(a) + coverage_rows(b));
        assert(summary_lines(all) =~= summary_lines(a) + summary_lines(b));
    }
}

/// The summary keeps its order and number, whatever stands between its lines.
pub proof fn law_summary_of_both(a: Seq<NotedLine>, b: Seq<NotedLine>)
    ensures
        summary_lines(a + b) == summary_lines(a) + summary_lines(b),
    decreases b.len(),
{
    if b.len() == 0 {
        assert(a + b =~= a);
        assert(summary_lines(a) + summary_lines(b) =~= summary_lines(a));
    } else {
        law_summary_of_both(a, b.drop_last());
        assert((a + b).drop_last() =~= a + b.drop_last());
        assert((a + b).last() == b.last());
        assert(summary_lines(a + b) =~= summary_lines(a) + summary_lines(b));
    }
}

/// The report in full: a title, every block and an empty line where there are failures, the
/// coverage table, and the summary; without failures and summary, what Bun printed.
pub proof fn law_report_in_full(p: TestParts, hint: Option<Seq<char>>)
    requires
        p.failures.len() <= MAX_BUN_FAILURES,
        p.context.len() <= CAP_ERRORS,
    ensures
        p.failures.len() > 0 ==> report_lines(p, hint) == seq!["FAILURES:"@] + p.failures.flatten()
            + seq![""@] + p.coverage + p.summary,
        p.failures.len() == 0 && p.summary.len() > 0 ==> report_lines(p, hint) == p.coverage
            + p.summary,
        p.failures.len() == 0 && p.summary.len() == 0 ==> report_lines(p, hint) == p.coverage
            + p.context,
{
    if p.failures.len() > 0 {
        assert(report_lines(p, hint) =~= seq!["FAILURES:"@] + p.failures.flatten() + seq![""@]
            + p.coverage + p.summary);
    }
}

/// The report beyond the cap: the first blocks, a line that says how many are hidden, the hint
/// where there is one, an empty line, the coverage table and the summary.
pub proof fn law_report_beyond_the_cap(p: TestParts, hint: Option<Seq<char>>)
    requires
        p.failures.len() > MAX_BUN_FAILURES,
    ensures
        ({
            let cap = MAX_BUN_FAILURES as int;
            let note = "… +"@ + decimal((p.failures.len() - cap) as nat) + " more failures"@;
            let hinted = match hint {
                Some(h) => seq![h],
                None => Seq::<Seq<char>>::empty(),
            };
            report_lines(p, hint) == seq!["FAILURES:"@] + p.failures.take(cap).flatten() + seq![
                note,
            ] + hinted + seq![""@] + p.coverage + p.summary
        }),
{
    let cap = MAX_BUN_FAILURES as int;
    let note = "… +"@ + decimal((p.failures.len() - cap) as nat) + " more failures"@;
    let hinted = match hint {
        Some(h) => seq![h],
        None => Seq::<Seq<char>>::empty(),
    };
    reveal_strlit(" more ");
    reveal_strlit("failures");
    reveal_strlit(" more failures");
    assert(note =~= "… +"@ + decimal((p.failures.len() - cap) as nat) + " more "@ + "failures"@);
    assert(report_lines(p, hint) =~= seq!["FAILURES:"@] + p.failures.take(cap).flatten() + seq![
        note,
    ] + hinted + seq![""@] + p.coverage + p.summary);
}

/// The report of a run that printed neither results nor a summary, but more than is shown: the
/// coverage table, the first lines, a line that says how many are hidden, and the hint where
/// there is one.
pub proof fn law_report_of_a_long_abort(p: TestParts, hint: Option<Seq<char>>)
    requires
        p.failures.len() == 0,
        p.summary.len() == 0,
        p.context.len() > CAP_ERRORS,
    ensures
        ({
            let cap = CAP_ERRORS as int;
            let note = "… +"@ + decimal((p.context.len() - cap) as nat) + " more lines"@;
            let hinted = match hint {
                Some(h) => seq![h],
                None => Seq::<Seq<char>>::empty(),
            };
            report_lines(p, hint) == p.coverage + p.context.take(cap) + seq![note] + hinted
        }),
{
    let cap = CAP_ERRORS as int;
    let note = "… +"@ + decimal((p.context.len() - cap) as nat) + " more lines"@;
    let hinted = match hint {
        Some(h) => seq![h],
        None => Seq::<Seq<char>>::empty(),
    };
    reveal_strlit(" more ");
    reveal_strlit("lines");
    reveal_strlit(" more lines");
    assert(note =~= "… +"@ + decimal((p.context.len() - cap) as nat) + " more "@ + "lines"@);
    assert(report_lines(p, hint) =~= p.coverage + p.context.take(cap) + seq![note] + hinted);
}

/// Whatever the context is, it is not shown beside a failure or a summary.
pub proof fn law_context_is_shown_alone(p: TestParts, q: TestParts, hint: Option<Seq<char>>)
    requires
        p.failures.len() > 0 || p.summary.len() > 0,
        q.failures == p.failures,
        q.coverage == p.coverage,
        q.summary == p.summary,
    ensures
        report_lines(q, hint) == report_lines(p, hint),
        left_out(q) == left_out(p),
{
}

/// The filtered text is the report's lines, one behind the other, without the blank ones at
/// the end; where they are all blank it says why nothing was kept.
pub proof fn law_filtered_text_of_any_report(
    output: Seq<char>,
    exit_code: int,
    hint: Option<Seq<char>>,
)
    ensures
        ({
            let all = report_lines(test_parts(noted_lines(without_ansi(output))), hint);
            exists|n: int|
                {
                    &&& 0 <= n <= all.len()
                    &&& forall|k: int| n <= k < all.len() ==> is_blank(#[trigger] all[k])
                    &&& n > 0 ==> !is_blank(all[n - 1])
                    &&& n > 0 ==> filtered_test(output, exit_code, hint) == joined(
                        #[trigger] all.take(n),
                        "\n"@,
                    )
                    &&& n == 0 ==> filtered_test(output, exit_code, hint) == nothing_kept(
                        exit_code,
                        "bun test"@,
                    )
                }
        }),
{
    let all = report_lines(test_parts(noted_lines(without_ansi(output))), hint);
    law_only_trailing_blanks_are_cut(all);
    let n = without_trailing_blanks(all).len() as int;
    if n > 0 {
        law_finished_verbatim_shows(all, exit_code, "bun test"@, n - 1);
    } else {
        law_blank_lines_are_nothing(all, exit_code, "bun test"@);
    }
    assert(all.take(n) == without_trailing_blanks(all));
}

/// The filtered text is the report's lines, one behind the other; without a summary and a
/// coverage table the empty line behind the failures is left out.
pub proof fn law_filtered_text_in_lines(output: Seq<char>, exit_code: int, hint: Option<Seq<char>>)
    ensures
        ({
            let p = test_parts(noted_lines(without_ansi(output)));
            let r = filtered_test(output, exit_code, hint);
            let all = report_lines(p, hint);
            &&& p.summary.len() > 0 || p.coverage.len() > 0 && (p.failures.len() > 0
                || p.context.len() == 0) ==> r == joined(all, "\n"@)
            &&& p.failures.len() == 0 && p.summary.len() == 0 && 0 < p.context.len() <= CAP_ERRORS
                ==> r == joined(all, "\n"@)
            &&& 0 < p.failures.len() <= MAX_BUN_FAILURES && p.summary.len() == 0
                && p.coverage.len() == 0 ==> r == joined(all.drop_last(), "\n"@)
        }),
{
    let ls = noted_lines(without_ansi(output));
    let p = test_parts(ls);
    let all = report_lines(p, hint);
    if p.summary.len() > 0 {
        let k = p.summary.len() - 1;
        law_summary_is_not_made_up(ls, k);
        let j = choose|j: int|
            0 <= j < ls.len() && kind(#[trigger] ls[j]) == LineKind::Summary && trimmed(ls[j].0)
                == p.summary[k];
        law_blank_trims_to_nothing(ls[j].0);
        law_trimmed_twice(ls[j].0);
        law_blank_trims_to_nothing(p.summary[k]);
        assert(all.last() == p.summary[k]);
        law_verbatim_text_is_its_lines(all, exit_code, "bun test"@);
    } else if p.coverage.len() > 0 && (p.failures.len() > 0 || p.context.len() == 0) {
        let k = p.coverage.len() - 1;
        law_coverage_is_verbatim(ls, k);
        assert(all.last() == p.coverage[k]);
        law_verbatim_text_is_its_lines(all, exit_code, "bun test"@);
    } else if p.failures.len() == 0 && 0 < p.context.len() <= CAP_ERRORS {
        let k = p.context.len() - 1;
        law_context_is_verbatim(ls, k);
        assert(all.last() == p.context[k]);
        law_verbatim_text_is_its_lines(all, exit_code, "bun test"@);
    } else if 0 < p.failures.len() <= MAX_BUN_FAILURES && p.coverage.len() == 0 {
        let b = p.failures.len() - 1;
        law_no_failure_is_made_up(ls, b);
        let block = p.failures[b];
        law_blocks_are_verbatim(ls, b, block.len() - 1);
        p.failures.lemma_flatten_and_flatten_alt_are_equivalent();
        p.failures.drop_last().lemma_flatten_and_flatten_alt_are_equivalent();
        let shown = all.drop_last();
        assert(p.failures.flatten() =~= p.failures.drop_last().flatten() + block);
        assert(shown =~= seq!["FAILURES:"@] + p.failures.flatten());
        assert(shown.last() == block.last());
        reveal_strlit("");
        assert(all.last() == ""@);
        assert(is_blank(all.last()));
        law_verbatim_text_is_its_lines(shown, exit_code, "bun test"@);
    }
}

/// What a report leaves out, in full: every block, with an empty line between them, or every
/// line of a run that printed neither results nor a summary.
pub proof fn law_left_out_in_full(p: TestParts)
    ensures
        p.failures.len() > MAX_BUN_FAILURES ==> left_out(p) == Some(
            (
                joined(
                    Seq::new(p.failures.len(), |b: int| joined(p.failures[b], "\n"@)),
                    "\n\n"@,
                ),
                "bun-test-failures"@,
            ),
        ),
        p.failures.len() == 0 && p.summary.len() == 0 && p.context.len() > CAP_ERRORS
            ==> left_out(p) == Some((joined(p.context, "\n"@), "bun-test"@)),
        left_out(p) is Some <==> p.failures.len() > MAX_BUN_FAILURES || (p.failures.len() == 0
            && p.summary.len() == 0 && p.context.len() > CAP_ERRORS),
{
    assert(p.failures.map_values(|b: Seq<Seq<char>>| joined(b, "\n"@)) =~= Seq::new(
        p.failures.len(),
        |b: int| joined(p.failures[b], "\n"@),
    ));
}

/// The content of noted lines and of blocks is theirs, each in its place.
pub proof fn law_contents_in_place(
    v: Seq<(String, TestMatches)>,
    w: Seq<Vec<String>>,
    i: int,
    k: int,
)
    ensures
        noted(v).len() == v.len(),
        0 <= i < v.len() ==> noted(v)[i] == (v[i].0@, v[i].1),
        blocks(w).len() == w.len(),
        0 <= i < w.len() ==> blocks(w)[i].len() == w[i]@.len(),
        0 <= i < w.len() && 0 <= k < w[i]@.len() ==> blocks(w)[i][k] == w[i]@[k]@,
{
}

} // verus!
