//! Filters the output of `bun build`: errors, warnings, artifacts and the summary stay.
use crate::ansi::{law_plain_text_unchanged, strip_ansi, without_ansi};
use crate::kinds::{
    law_noted_in_place, law_noted_is_trimmed, law_other_kinds_change_nothing, law_picked_has,
    law_picked_is_of_kind, law_picked_of_both, law_picked_of_one, law_report_is_stable,
    lemma_listed_lines, noted_trimmed, picked,
};
use crate::limits::CAP_LIST;
use crate::lines::{joined, lines_of, split_lines, texts};
use crate::listing::{
    items_left_out, law_first_items_are_shown, law_rest_ends_listing, listing_lines, Listing,
    ListingParts,
};
use crate::patterns::{
    banner_head, is_ascii_word, is_banner_command, is_banner_line, is_entry_line,
    may_be_banner_line, may_be_digit, may_be_entry_line, regex_is_match, splits_as_entry, Matcher,
    BUN_BANNER_RE, BUN_BUILD_ENTRY_RE,
};
use crate::report::{
    finish, finished, hint_text, is_plain_line, law_blank_lines_are_nothing, law_finished_shows,
    law_plain_lines_read_back, nothing_kept, TeeRequest,
};
use crate::text::{
    contains, decimal, has_text, is_white_space, law_trimmed_same, starts_with, trim,
    trimmed,
};
use vstd::prelude::*;

verus! {

/// What the patterns say of a line.
#[derive(Clone, Copy, PartialEq, Eq, Structural, Debug)]
pub struct BuildMatches {
    pub banner: bool,
    pub artifact: bool,
}

/// What a line is to the report.
#[derive(Clone, Copy, PartialEq, Eq, Structural, Debug)]
pub enum BuildKind {
    /// Blank, the banner or nothing of interest.
    Dropped,
    /// A bundled artifact.
    Artifact,
    /// Errors, warnings and the summary.
    Message,
}

/// A trimmed line with what the patterns say of it.
pub type NotedLine = (Seq<char>, BuildMatches);

/// What the patterns say of a trimmed line.
pub open spec fn build_matches(line: Seq<char>) -> BuildMatches {
    BuildMatches {
        banner: regex_is_match(BUN_BANNER_RE@, line),
        artifact: regex_is_match(BUN_BUILD_ENTRY_RE@, line),
    }
}

/// Whether a trimmed line is an error or a warning.
pub open spec fn is_problem(line: Seq<char>) -> bool {
    ||| has_text(line, "error"@)
    ||| has_text(line, "warn"@)
    ||| has_text(line, "Error"@)
    ||| has_text(line, "Warn"@)
}

/// Whether a trimmed line sums the build up.
pub open spec fn is_build_summary(line: Seq<char>) -> bool {
    ||| "Bundled"@.is_prefix_of(line)
    ||| has_text(line, "built"@)
    ||| has_text(line, "Bundle"@)
    ||| "Done"@.is_prefix_of(line)
}

/// What a trimmed line is, given what the patterns say of it.
pub open spec fn kind(l: NotedLine) -> BuildKind {
    if l.0.len() == 0 || l.1.banner {
        BuildKind::Dropped
    } else if is_problem(l.0) {
        BuildKind::Message
    } else if l.1.artifact {
        BuildKind::Artifact
    } else if is_build_summary(l.0) {
        BuildKind::Message
    } else {
        BuildKind::Dropped
    }
}

/// What each noted line is.
pub open spec fn by_kind() -> spec_fn(NotedLine) -> BuildKind {
    |l: NotedLine| kind(l)
}

/// How the lines look that the patterns match, and which lines they match for certain.
pub open spec fn build_shapes(line: Seq<char>, m: BuildMatches) -> bool {
    &&& m.banner ==> may_be_banner_line(line)
    &&& is_banner_line(line) ==> m.banner
    &&& m.artifact ==> may_be_entry_line(line)
    &&& is_entry_line(line) ==> m.artifact
}

/// What the patterns say of each trimmed line.
pub open spec fn by_pattern() -> spec_fn(Seq<char>) -> BuildMatches {
    |line: Seq<char>| build_matches(line)
}

/// The lines of a given kind.
pub open spec fn of_kind(ls: Seq<NotedLine>, k: BuildKind) -> Seq<Seq<char>> {
    picked(ls, by_kind(), k)
}

/// The content of a list of noted lines.
pub open spec fn noted(v: Seq<(String, BuildMatches)>) -> Seq<NotedLine> {
    v.map_values(|l: (String, BuildMatches)| (l.0@, l.1))
}

/// The lines of `text`, trimmed, each with what the patterns say of it.
pub open spec fn noted_lines(text: Seq<char>) -> Seq<NotedLine> {
    noted_trimmed(text, by_pattern())
}

/// The artifacts, and the messages.
pub open spec fn build_parts(ls: Seq<NotedLine>) -> ListingParts {
    ListingParts {
        items: of_kind(ls, BuildKind::Artifact),
        rest: of_kind(ls, BuildKind::Message),
    }
}

/// The filtered output of `bun build`.
pub open spec fn filtered_build(
    output: Seq<char>,
    exit_code: int,
    hint: Option<Seq<char>>,
) -> Seq<char> {
    finished(
        listing_lines(build_parts(noted_lines(without_ansi(output))), "artifacts"@, hint),
        exit_code,
        "bun build"@,
    )
}

/// What a trimmed line is, given what the patterns say of it.
pub fn line_kind(line: &str, m: BuildMatches) -> (r: BuildKind)
    ensures
        r == kind((line@, m)),
{
    if line.is_empty() || m.banner {
        return BuildKind::Dropped;
    }
    // Keep errors and warnings
    if contains(line, "error") || contains(line, "warn") || contains(line, "Error") || contains(
        line,
        "Warn",
    ) {
        return BuildKind::Message;
    }
    // Keep bundled artifacts ("index.js  72 bytes  (entry point)")
    if m.artifact {
        return BuildKind::Artifact;
    }
    // Keep summary lines
    if starts_with(line, "Bundled") || contains(line, "built") || contains(line, "Bundle")
        || starts_with(line, "Done") {
        BuildKind::Message
    } else {
        BuildKind::Dropped
    }
}

/// The lines of a build's output, trimmed, each with what the patterns say of it.
pub fn note_build_lines(output: &str) -> (r: Vec<(String, BuildMatches)>)
    ensures
        noted(r@) == noted_lines(without_ansi(output@)),
        forall|j: int|
            0 <= j < noted_lines(without_ansi(output@)).len() ==> build_shapes(
                (#[trigger] noted_lines(without_ansi(output@))[j]).0,
                noted_lines(without_ansi(output@))[j].1,
            ),
{
    let clean = strip_ansi(output);
    let lines = split_lines(clean.as_str());
    let banner = Matcher::compile(BUN_BANNER_RE);
    let artifact = Matcher::compile(BUN_BUILD_ENTRY_RE);
    let mut out: Vec<(String, BuildMatches)> = Vec::new();
    let ghost all = lines_of(clean@);
    let mut i: usize = 0;
    while i < lines.len()
        invariant
            i <= lines@.len(),
            out@.len() == i,
            banner@ == BUN_BANNER_RE@,
            artifact@ == BUN_BUILD_ENTRY_RE@,
            all == texts(lines@),
            forall|k: int|
                0 <= k < i ==> (#[trigger] out@[k]).0@ == trimmed(all[k]) && out@[k].1
                    == build_matches(trimmed(all[k])) && build_shapes(trimmed(all[k]), out@[k].1),
        decreases lines@.len() - i,
    {
        let line = trim(lines[i].as_str());
        let m = BuildMatches { banner: banner.is_match(line), artifact: artifact.is_match(line) };
        assert(all[i as int] == lines@[i as int]@);
        out.push((line.to_string(), m));
        i += 1;
    }
    assert(noted(out@) =~= noted_lines(clean@));
    proof {
        let ls = noted_lines(clean@);
        assert forall|j: int| 0 <= j < ls.len() implies build_shapes(
            (#[trigger] ls[j]).0,
            ls[j].1,
        ) by {
            assert(out@[j].0@ == trimmed(all[j]));
        }
    }
    out
}

/// Sorts noted lines into artifacts and messages.
pub fn collect_build(lines: &Vec<(String, BuildMatches)>) -> (r: Listing)
    ensures
        r@ == build_parts(noted(lines@)),
        texts(r.items@) == build_parts(noted(lines@)).items,
        texts(r.rest@) == build_parts(noted(lines@)).rest,
{
    let mut artifacts: Vec<String> = Vec::new();
    let mut rest: Vec<String> = Vec::new();
    let ghost all = noted(lines@);
    let mut i: usize = 0;
    assert(all.take(0) =~= Seq::<NotedLine>::empty());
    assert(texts(artifacts@) =~= seq![]);
    while i < lines.len()
        invariant
            i <= lines@.len(),
            all == noted(lines@),
            texts(artifacts@) == of_kind(all.take(i as int), BuildKind::Artifact),
            texts(rest@) == of_kind(all.take(i as int), BuildKind::Message),
        decreases lines@.len() - i,
    {
        let line = &lines[i].0;
        let ghost now = all.take(i + 1);
        let ghost old_entries = texts(artifacts@);
        let ghost old_rest = texts(rest@);
        proof {
            assert(now.drop_last() =~= all.take(i as int));
            assert(now.last() == (line@, lines@[i as int].1));
        }
        match line_kind(line.as_str(), lines[i].1) {
            BuildKind::Dropped => {},
            BuildKind::Artifact => {
                artifacts.push(line.clone());
                assert(texts(artifacts@) =~= old_entries.push(line@));
            },
            BuildKind::Message => {
                rest.push(line.clone());
                assert(texts(rest@) =~= old_rest.push(line@));
            },
        }
        i += 1;
    }
    assert(all.take(i as int) =~= all);
    Listing { items: artifacts, rest }
}

/// Reads a build's output into artifacts and messages.
pub fn read_build(output: &str) -> (r: Listing)
    ensures
        r@ == build_parts(noted_lines(without_ansi(output@))),
        forall|j: int|
            0 <= j < noted_lines(without_ansi(output@)).len() ==> build_shapes(
                (#[trigger] noted_lines(without_ansi(output@))[j]).0,
                noted_lines(without_ansi(output@))[j].1,
            ),
{
    let lines = note_build_lines(output);
    collect_build(&lines)
}

/// The artifacts in full where the report cuts their list.
pub fn build_tee_request(listing: &Listing) -> (r: Option<TeeRequest>)
    ensures
        r is Some <==> items_left_out(listing@, "bun-build"@) is Some,
        r matches Some(t) ==> items_left_out(listing@, "bun-build"@) == Some((t.full@, t.slug@)),
        r is Some <==> listing.items@.len() > CAP_LIST,
        r matches Some(t) ==> t.full@ == joined(texts(listing.items@), "\n"@) && t.slug@
            == "bun-build"@,
{
    listing.tee_request("bun-build")
}

/// The report of a build as one text.
pub fn render_build(listing: &Listing, exit_code: i32, hint: Option<&str>) -> (r: String)
    ensures
        r@ == finished(
            listing_lines(listing@, "artifacts"@, hint_text(hint)),
            exit_code as int,
            "bun build"@,
        ),
{
    finish(listing.lines("artifacts", hint), exit_code, "bun build")
}

/// Filter bun build output: keep errors, warnings, artifacts and the summary. `hint` points at
/// the file that holds the whole list of artifacts, where there is one.
///
/// Every line is what `build_shapes` says of it, so the laws that ask for that hold of it.
pub fn filter_bun_build(output: &str, exit_code: i32, hint: Option<&str>) -> (r: String)
    ensures
        r@ == filtered_build(output@, exit_code as int, hint_text(hint)),
        forall|j: int|
            0 <= j < noted_lines(without_ansi(output@)).len() ==> build_shapes(
                (#[trigger] noted_lines(without_ansi(output@))[j]).0,
                noted_lines(without_ansi(output@))[j].1,
            ),
{
    let listing = read_build(output);
    render_build(&listing, exit_code, hint)
}

/// Every line of a kind is found among the lines of that kind.
pub proof fn law_line_is_kept(ls: Seq<NotedLine>, j: int)
    requires
        0 <= j < ls.len(),
    ensures
        of_kind(ls, kind(ls[j])).contains(ls[j].0),
{
    law_picked_has(ls, by_kind(), j);
}

/// Nothing but the lines of a kind is found among the lines of that kind.
pub proof fn law_kept_line_is_of_kind(ls: Seq<NotedLine>, k: BuildKind, i: int)
    requires
        0 <= i < of_kind(ls, k).len(),
    ensures
        exists|j: int|
            0 <= j < ls.len() && kind(#[trigger] ls[j]) == k && ls[j].0 == of_kind(ls, k)[i],
{
    law_picked_is_of_kind(ls, by_kind(), k, i);
    let j = choose|j: int|
        0 <= j < ls.len() && by_kind()(#[trigger] ls[j]) == k && ls[j].0 == of_kind(ls, k)[i];
    assert(kind(ls[j]) == k);
}

/// Every message stands in the filtered text.
pub proof fn law_message_stands_in_text(
    output: Seq<char>,
    exit_code: int,
    hint: Option<Seq<char>>,
    j: int,
)
    requires
        0 <= j < noted_lines(without_ansi(output)).len(),
        kind(noted_lines(without_ansi(output))[j]) == BuildKind::Message,
    ensures
        has_text(filtered_build(output, exit_code, hint), noted_lines(without_ansi(output))[j].0),
{
    let ls = noted_lines(without_ansi(output));
    let p = build_parts(ls);
    let all = listing_lines(p, "artifacts"@, hint);
    law_line_is_kept(ls, j);
    let k = choose|k: int| 0 <= k < p.rest.len() && p.rest[k] == ls[j].0;
    law_rest_ends_listing(p, "artifacts"@, hint);
    let i = all.len() - p.rest.len() + k;
    assert(all[i] == ls[j].0);
    law_noted_is_trimmed(without_ansi(output), by_pattern(), j);
    law_finished_shows(all, exit_code, "bun build"@, i);
}

/// The first artifacts stand in the filtered text.
pub proof fn law_first_artifacts_stand_in_text(
    output: Seq<char>,
    exit_code: int,
    hint: Option<Seq<char>>,
    k: int,
)
    requires
        0 <= k < of_kind(noted_lines(without_ansi(output)), BuildKind::Artifact).len(),
        k < CAP_LIST,
    ensures
        has_text(
            filtered_build(output, exit_code, hint),
            of_kind(noted_lines(without_ansi(output)), BuildKind::Artifact)[k],
        ),
{
    let ls = noted_lines(without_ansi(output));
    let p = build_parts(ls);
    law_kept_line_is_of_kind(ls, BuildKind::Artifact, k);
    let j = choose|j: int|
        0 <= j < ls.len() && kind(#[trigger] ls[j]) == BuildKind::Artifact && ls[j].0 == p.items[k];
    law_noted_is_trimmed(without_ansi(output), by_pattern(), j);
    law_first_items_are_shown(p, "artifacts"@, hint, k);
    law_finished_shows(listing_lines(p, "artifacts"@, hint), exit_code, "bun build"@, k);
}

/// An artifact's line, with its size in ASCII digits, is listed, unless it is an error or
/// a warning.
pub proof fn law_artifact_is_listed(line: Seq<char>, m: BuildMatches)
    requires
        build_shapes(line, m),
        is_entry_line(line),
        !is_problem(line),
    ensures
        kind((line, m)) == BuildKind::Artifact,
{
    if m.banner {
        lemma_banner_is_no_entry(line);
    }
}

/// The second word of a banner is a command, and that of an artifact's line a size.
proof fn lemma_banner_is_no_entry(line: Seq<char>)
    requires
        is_entry_line(line),
    ensures
        !may_be_banner_line(line),
{
    let (i, j, k, u, w) = choose|i: int, j: int, k: int, u: int, w: Seq<char>|
        {
            let e = u + w.len();
            &&& #[trigger] splits_as_entry(line, i, j, k, u, w)
            &&& forall|x: int| j <= x < k ==> '0' <= #[trigger] line[x] <= '9' || line[x] == '.'
            &&& e == line.len() || is_white_space(line[e]) || (line[e] <= '\u{7f}'
                && !is_ascii_word(line[e]))
        };
    if may_be_banner_line(line) {
        let c = choose|c: Seq<char>| #[trigger]
            is_banner_command(c) && banner_head(c).is_prefix_of(line) && line.len() > banner_head(
                c,
            ).len() && may_be_digit(line[banner_head(c).len() as int]);
        reveal_strlit("bun ");
        reveal_strlit(" v");
        reveal_strlit("test");
        reveal_strlit("install");
        reveal_strlit("add");
        reveal_strlit("remove");
        reveal_strlit("build");
        reveal_strlit("run");
        let head = banner_head(c);
        assert forall|x: int| 0 <= x < head.len() implies #[trigger] head[x] == line[x] by {
            assert(head[x] == line.subrange(0, head.len() as int)[x]);
        }
        assert(head[0] == 'b' && head[1] == 'u' && head[2] == 'n' && head[3] == ' ');
        assert(head[4] == c[0]);
        assert(i == 3) by {
            if i > 3 {
                assert(!is_white_space(line[3]));
            } else if i < 3 {
                assert(is_white_space(line[i]));
            }
        }
        assert(j == 4) by {
            if j > 4 {
                assert(is_white_space(line[4]));
            }
        }
        assert('0' <= line[4] <= '9' || line[4] == '.');
    }
}

/// The banner is dropped.
pub proof fn law_banner_is_dropped(line: Seq<char>, m: BuildMatches)
    requires
        build_shapes(line, m),
        is_banner_line(line),
    ensures
        kind((line, m)) == BuildKind::Dropped,
{
}

/// A line that is no error or warning, does not read as an artifact's and is no line of the
/// summary is dropped.
pub proof fn law_other_line_is_dropped(line: Seq<char>, m: BuildMatches)
    requires
        build_shapes(line, m),
        !is_problem(line),
        !may_be_entry_line(line),
        !is_build_summary(line),
    ensures
        kind((line, m)) == BuildKind::Dropped,
{
}

/// A run of which no line is kept is reported by its exit code alone.
pub proof fn law_empty_run_is_reported(output: Seq<char>, exit_code: int, hint: Option<Seq<char>>)
    requires
        forall|j: int|
            0 <= j < noted_lines(without_ansi(output)).len() ==> kind(
                #[trigger] noted_lines(without_ansi(output))[j],
            ) == BuildKind::Dropped,
    ensures
        filtered_build(output, exit_code, hint) == nothing_kept(exit_code, "bun build"@),
{
    let ls = noted_lines(without_ansi(output));
    let p = build_parts(ls);
    if p.items.len() > 0 {
        law_kept_line_is_of_kind(ls, BuildKind::Artifact, 0);
    }
    if p.rest.len() > 0 {
        law_kept_line_is_of_kind(ls, BuildKind::Message, 0);
    }
    let all = listing_lines(p, "artifacts"@, hint);
    assert(all =~= Seq::<Seq<char>>::empty());
    law_blank_lines_are_nothing(all, exit_code, "bun build"@);
}

/// Every error and every warning stands in the filtered text, unless it reads as the
/// banner.
pub proof fn law_problem_stands_in_text(
    output: Seq<char>,
    exit_code: int,
    hint: Option<Seq<char>>,
    j: int,
)
    requires
        0 <= j < noted_lines(without_ansi(output)).len(),
        is_problem(noted_lines(without_ansi(output))[j].0),
        !noted_lines(without_ansi(output))[j].1.banner,
    ensures
        has_text(filtered_build(output, exit_code, hint), noted_lines(without_ansi(output))[j].0),
{
    reveal_strlit("error");
    reveal_strlit("warn");
    reveal_strlit("Error");
    reveal_strlit("Warn");
    law_message_stands_in_text(output, exit_code, hint, j);
}

/// Whole lines that are dropped, such as blank lines and banners, change nothing in the
/// filtered text, wherever they stand.
pub proof fn law_dropped_lines_change_nothing(
    output: Seq<char>,
    other: Seq<char>,
    before: Seq<char>,
    dropped: Seq<char>,
    after: Seq<char>,
    exit_code: int,
    hint: Option<Seq<char>>,
)
    requires
        without_ansi(output) == before + dropped + after,
        without_ansi(other) == before + after,
        before.len() == 0 || before.last() == '\n',
        dropped.len() == 0 || dropped.last() == '\n',
        forall|j: int|
            0 <= j < noted_lines(dropped).len() ==> kind(#[trigger] noted_lines(dropped)[j])
                == BuildKind::Dropped,
    ensures
        filtered_build(output, exit_code, hint) == filtered_build(other, exit_code, hint),
{
    assert forall|j: int| 0 <= j < noted_trimmed(dropped, by_pattern()).len() implies by_kind()(
        #[trigger] noted_trimmed(dropped, by_pattern())[j],
    ) == BuildKind::Dropped by {
        assert(kind(noted_lines(dropped)[j]) == BuildKind::Dropped);
    }
    law_other_kinds_change_nothing(
        before, dropped, after, by_pattern(), by_kind(), BuildKind::Artifact,
    );
    law_other_kinds_change_nothing(
        before, dropped, after, by_pattern(), by_kind(), BuildKind::Message,
    );
}

/// Filtering the filtered text again gives the same text, where it shows all artifacts and
/// holds no escape sequence.
pub proof fn law_filtering_again_changes_nothing(
    output: Seq<char>,
    exit_code: int,
    hint: Option<Seq<char>>,
    other: Option<Seq<char>>,
)
    requires
        of_kind(noted_lines(without_ansi(output)), BuildKind::Artifact).len() <= CAP_LIST,
        without_ansi(filtered_build(output, exit_code, hint)) == filtered_build(
            output,
            exit_code,
            hint,
        ),
    ensures
        filtered_build(filtered_build(output, exit_code, hint), exit_code, other)
            == filtered_build(output, exit_code, hint),
{
    lemma_report_is_stable(output, exit_code, hint, other);
}

/// Where the output holds no escape character but those of its escape sequences, and all
/// artifacts are shown, the filtered text holds no escape sequence.
pub proof fn law_filtered_text_is_plain(output: Seq<char>, exit_code: int, hint: Option<Seq<char>>)
    requires
        of_kind(noted_lines(without_ansi(output)), BuildKind::Artifact).len() <= CAP_LIST,
        !without_ansi(output).contains('\u{1b}'),
    ensures
        without_ansi(filtered_build(output, exit_code, hint)) == filtered_build(
            output,
            exit_code,
            hint,
        ),
{
    lemma_report_is_stable(output, exit_code, hint, hint);
    law_plain_text_unchanged(filtered_build(output, exit_code, hint));
}

proof fn lemma_report_is_stable(
    output: Seq<char>,
    exit_code: int,
    hint: Option<Seq<char>>,
    other: Option<Seq<char>>,
)
    requires
        of_kind(noted_lines(without_ansi(output)), BuildKind::Artifact).len() <= CAP_LIST,
    ensures
        ({
            let r = filtered_build(output, exit_code, hint);
            let again = listing_lines(build_parts(noted_lines(r)), "artifacts"@, other);
            &&& finished(again, exit_code, "bun build"@) == r
            &&& !without_ansi(output).contains('\u{1b}') ==> !r.contains('\u{1b}')
        }),
{
    reveal_strlit("bun build");
    law_report_is_stable(
        without_ansi(output),
        by_pattern(),
        by_kind(),
        BuildKind::Artifact,
        BuildKind::Message,
        "artifacts"@,
        hint,
        other,
        exit_code,
        "bun build"@,
    );
}

/// What a trimmed line is, told by the line and by what the patterns say of it. Errors and
/// warnings come first, artifacts next and the summary last.
pub proof fn law_kind_by_looks(line: Seq<char>, m: BuildMatches)
    ensures
        ({
            let gone = line.len() == 0 || m.banner;
            let problem = has_text(line, "error"@) || has_text(line, "warn"@) || has_text(
                line,
                "Error"@,
            ) || has_text(line, "Warn"@);
            let summary = "Bundled"@.is_prefix_of(line) || has_text(line, "built"@) || has_text(
                line,
                "Bundle"@,
            ) || "Done"@.is_prefix_of(line);
            &&& kind((line, m)) == BuildKind::Artifact <==> !gone && m.artifact && !problem
            &&& kind((line, m)) == BuildKind::Message <==> !gone && (problem || (summary
                && !m.artifact))
            &&& kind((line, m)) == BuildKind::Dropped <==> gone || !(problem || summary
                || m.artifact)
        }),
{
}

/// Every line that says "error", "warn", "Error" or "Warn" and is not the banner stands in
/// the filtered text, trimmed.
pub proof fn law_errors_and_warnings_stand_in_text(
    output: Seq<char>,
    exit_code: int,
    hint: Option<Seq<char>>,
    j: int,
)
    requires
        0 <= j < lines_of(without_ansi(output)).len(),
        ({
            let line = trimmed(lines_of(without_ansi(output))[j]);
            &&& has_text(line, "error"@) || has_text(line, "warn"@) || has_text(line, "Error"@)
                || has_text(line, "Warn"@)
            &&& !regex_is_match(BUN_BANNER_RE@, line)
        }),
    ensures
        has_text(
            filtered_build(output, exit_code, hint),
            trimmed(lines_of(without_ansi(output))[j]),
        ),
        build_parts(noted_lines(without_ansi(output))).rest.contains(
            trimmed(lines_of(without_ansi(output))[j]),
        ),
{
    let ls = noted_lines(without_ansi(output));
    law_noted_lines_in_place(without_ansi(output), j);
    reveal_strlit("error");
    reveal_strlit("warn");
    reveal_strlit("Error");
    reveal_strlit("Warn");
    law_kind_by_looks(ls[j].0, ls[j].1);
    law_line_is_kept(ls, j);
    law_message_stands_in_text(output, exit_code, hint, j);
}

/// Every line that sums the build up, and reads as neither the banner nor an artifact,
/// stands in the filtered text, trimmed.
pub proof fn law_summary_stands_in_text(
    output: Seq<char>,
    exit_code: int,
    hint: Option<Seq<char>>,
    j: int,
)
    requires
        0 <= j < lines_of(without_ansi(output)).len(),
        ({
            let line = trimmed(lines_of(without_ansi(output))[j]);
            &&& "Bundled"@.is_prefix_of(line) || has_text(line, "built"@) || has_text(
                line,
                "Bundle"@,
            ) || "Done"@.is_prefix_of(line)
            &&& !regex_is_match(BUN_BANNER_RE@, line)
            &&& !regex_is_match(BUN_BUILD_ENTRY_RE@, line)
        }),
    ensures
        has_text(
            filtered_build(output, exit_code, hint),
            trimmed(lines_of(without_ansi(output))[j]),
        ),
{
    let ls = noted_lines(without_ansi(output));
    law_noted_lines_in_place(without_ansi(output), j);
    reveal_strlit("Bundled");
    reveal_strlit("built");
    reveal_strlit("Bundle");
    reveal_strlit("Done");
    law_kind_by_looks(ls[j].0, ls[j].1);
    law_message_stands_in_text(output, exit_code, hint, j);
}

/// Every artifact that is neither an error nor a warning nor the banner is listed, and
/// stands in the filtered text, unless it is one of more artifacts than are shown.
pub proof fn law_artifacts_are_kept(
    output: Seq<char>,
    exit_code: int,
    hint: Option<Seq<char>>,
    j: int,
)
    requires
        0 <= j < lines_of(without_ansi(output)).len(),
        ({
            let line = trimmed(lines_of(without_ansi(output))[j]);
            &&& line.len() > 0
            &&& regex_is_match(BUN_BUILD_ENTRY_RE@, line)
            &&& !regex_is_match(BUN_BANNER_RE@, line)
            &&& !has_text(line, "error"@) && !has_text(line, "warn"@)
            &&& !has_text(line, "Error"@) && !has_text(line, "Warn"@)
        }),
    ensures
        ({
            let line = trimmed(lines_of(without_ansi(output))[j]);
            let p = build_parts(noted_lines(without_ansi(output)));
            &&& p.items.contains(line)
            &&& p.items.len() <= CAP_LIST ==> has_text(
                filtered_build(output, exit_code, hint),
                line,
            )
        }),
{
    let ls = noted_lines(without_ansi(output));
    let p = build_parts(ls);
    law_noted_lines_in_place(without_ansi(output), j);
    law_kind_by_looks(ls[j].0, ls[j].1);
    law_line_is_kept(ls, j);
    if p.items.len() <= CAP_LIST {
        let k = choose|k: int| 0 <= k < p.items.len() && p.items[k] == ls[j].0;
        law_first_artifacts_stand_in_text(output, exit_code, hint, k);
    }
}

/// The artifacts and the messages of lines that follow one another are those of the first lines
/// and then those of the others, and one line is found under its kind alone: the lines keep
/// their order and their number.
pub proof fn law_lines_keep_their_order(a: Seq<NotedLine>, b: Seq<NotedLine>, l: NotedLine)
    ensures
        build_parts(a + b).items == build_parts(a).items + build_parts(b).items,
        build_parts(a + b).rest == build_parts(a).rest + build_parts(b).rest,
        build_parts(seq![l]).items == if kind(l) == BuildKind::Artifact {
            seq![l.0]
        } else {
            Seq::<Seq<char>>::empty()
        },
        build_parts(seq![l]).rest == if kind(l) == BuildKind::Message {
            seq![l.0]
        } else {
            Seq::<Seq<char>>::empty()
        },
{
    law_picked_of_both(a, b, by_kind(), BuildKind::Artifact);
    law_picked_of_both(a, b, by_kind(), BuildKind::Message);
    law_picked_of_one(l, by_kind(), BuildKind::Artifact);
    law_picked_of_one(l, by_kind(), BuildKind::Message);
}

/// Each noted line is a line of the text, trimmed, in its place.
pub proof fn law_noted_lines_in_place(text: Seq<char>, j: int)
    ensures
        noted_lines(text).len() == lines_of(text).len(),
        0 <= j < lines_of(text).len() ==> noted_lines(text)[j] == (
            trimmed(lines_of(text)[j]),
            build_matches(trimmed(lines_of(text)[j])),
        ),
{
    law_noted_in_place(text, by_pattern(), j);
}

/// Read line by line, a filtered text that shows all artifacts is the artifacts and then the
/// messages, each in its order, where there is any.
pub proof fn law_filtered_text_in_lines(output: Seq<char>, exit_code: int, hint: Option<Seq<char>>)
    requires
        ({
            let p = build_parts(noted_lines(without_ansi(output)));
            p.items.len() <= CAP_LIST && p.items.len() + p.rest.len() > 0
        }),
    ensures
        ({
            let p = build_parts(noted_lines(without_ansi(output)));
            &&& lines_of(filtered_build(output, exit_code, hint)) == p.items + p.rest
            &&& filtered_build(output, exit_code, hint) == joined(p.items + p.rest, "\n"@)
        }),
{
    let p = build_parts(noted_lines(without_ansi(output)));
    let all = p.items + p.rest;
    lemma_listed_lines_are_plain(output);
    law_plain_lines_read_back(all);
    law_trimmed_same(all[0]);
    law_finished_shows(all, exit_code, "bun build"@, 0);
}

/// A filtered text that hides artifacts is the first artifacts, a line that says how many are
/// hidden, the hint where there is one, and the messages, each in its order.
pub proof fn law_filtered_text_beyond_the_cap(
    output: Seq<char>,
    exit_code: int,
    hint: Option<Seq<char>>,
)
    requires
        build_parts(noted_lines(without_ansi(output))).items.len() > CAP_LIST,
    ensures
        ({
            let p = build_parts(noted_lines(without_ansi(output)));
            let note = "… +"@ + decimal((p.items.len() - CAP_LIST) as nat) + " more artifacts"@;
            let hinted = match hint {
                Some(h) => seq![h],
                None => Seq::<Seq<char>>::empty(),
            };
            filtered_build(output, exit_code, hint) == trimmed(
                joined(p.items.take(CAP_LIST as int) + seq![note] + hinted + p.rest, "\n"@),
            )
        }),
{
    let p = build_parts(noted_lines(without_ansi(output)));
    let all = listing_lines(p, "artifacts"@, hint);
    let note = "… +"@ + decimal((p.items.len() - CAP_LIST) as nat) + " more artifacts"@;
    let hinted = match hint {
        Some(h) => seq![h],
        None => Seq::<Seq<char>>::empty(),
    };
    reveal_strlit(" more ");
    reveal_strlit("artifacts");
    reveal_strlit(" more artifacts");
    assert(note =~= "… +"@ + decimal((p.items.len() - CAP_LIST) as nat) + " more "@ + "artifacts"@);
    assert(all =~= p.items.take(CAP_LIST as int) + seq![note] + hinted + p.rest);
    lemma_listed_lines_are_plain(output);
    law_first_items_are_shown(p, "artifacts"@, hint, 0);
    assert((p.items + p.rest)[0] == p.items[0]);
    law_trimmed_same(all[0]);
    law_finished_shows(all, exit_code, "bun build"@, 0);
}

proof fn lemma_listed_lines_are_plain(output: Seq<char>)
    ensures
        ({
            let p = build_parts(noted_lines(without_ansi(output)));
            forall|i: int|
                0 <= i < (p.items + p.rest).len() ==> is_plain_line(
                    #[trigger] (p.items + p.rest)[i],
                )
        }),
{
    let text = without_ansi(output);
    let p = build_parts(noted_lines(text));
    let all = p.items + p.rest;
    let n = p.items.len() as int;
    assert forall|i: int| 0 <= i < all.len() implies is_plain_line(#[trigger] all[i]) by {
        if i < n {
            lemma_listed_lines(text, by_pattern(), by_kind(), BuildKind::Artifact, i);
        } else {
            lemma_listed_lines(text, by_pattern(), by_kind(), BuildKind::Message, i - n);
        }
    }
}

} // verus!
