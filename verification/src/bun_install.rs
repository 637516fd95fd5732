//! Filters the output of `bun install`: progress goes, packages and messages stay.
use crate::ansi::{law_plain_text_unchanged, strip_ansi, without_ansi};
use crate::kinds::{
    law_noted_in_place, law_noted_is_trimmed, law_other_kinds_change_nothing, law_picked_has,
    law_picked_is_of_kind, law_picked_of_both, law_picked_of_one, law_report_is_stable,
    lemma_listed_lines, noted_trimmed, picked,
};
use crate::limits::CAP_LIST;
use crate::lines::{joined, lines_of, split_lines, texts};
use crate::listing::{
    items_left_out, law_first_items_are_shown, law_rest_ends_listing, listing_lines, Listing,
    ListingParts,
};
use crate::patterns::{
    is_banner_line, is_package_line, law_banner_opens_with_bun, may_be_banner_line, regex_is_match,
    splits_as_package, Matcher, BUN_BANNER_RE, BUN_PACKAGE_RE,
};
use crate::report::{
    finish, finished, hint_text, is_plain_line, law_blank_lines_are_nothing, law_finished_shows,
    law_plain_lines_read_back, nothing_kept, TeeRequest,
};
use crate::text::{
    contains_char, decimal, has_text, law_trimmed_same, starts_with,
    trim, trimmed,
};
use vstd::prelude::*;

verus! {

/// What the patterns say of a line.
#[derive(Clone, Copy, PartialEq, Eq, Structural, Debug)]
pub struct InstallMatches {
    pub banner: bool,
    pub package: bool,
}

/// What a line is to the report.
#[derive(Clone, Copy, PartialEq, Eq, Structural, Debug)]
pub enum InstallKind {
    /// Blank, progress or the banner.
    Dropped,
    /// An installed or removed package.
    Package,
    /// Counts, warnings, errors, lockfile info.
    Message,
}

/// A trimmed line with what the patterns say of it.
pub type NotedLine = (Seq<char>, InstallMatches);

/// What the patterns say of a trimmed line.
pub open spec fn install_matches(line: Seq<char>) -> InstallMatches {
    InstallMatches {
        banner: regex_is_match(BUN_BANNER_RE@, line),
        package: regex_is_match(BUN_PACKAGE_RE@, line),
    }
}

/// Whether a trimmed line shows progress: a bar, resolution, download, extraction.
pub open spec fn is_progress(line: Seq<char>) -> bool {
    ||| line.contains('⸩')
    ||| line.contains('⸨')
    ||| "Resolving"@.is_prefix_of(line)
    ||| "Downloading"@.is_prefix_of(line)
    ||| "Extracting"@.is_prefix_of(line)
}

/// What a trimmed line is, given what the patterns say of it.
pub open spec fn kind(l: NotedLine) -> InstallKind {
    if l.0.len() == 0 || is_progress(l.0) || l.1.banner {
        InstallKind::Dropped
    } else if l.1.package {
        InstallKind::Package
    } else {
        InstallKind::Message
    }
}

/// What each noted line is.
pub open spec fn by_kind() -> spec_fn(NotedLine) -> InstallKind {
    |l: NotedLine| kind(l)
}

/// How the lines look that the patterns match, and which lines they match for certain.
pub open spec fn install_shapes(line: Seq<char>, m: InstallMatches) -> bool {
    &&& m.banner ==> may_be_banner_line(line)
    &&& is_banner_line(line) ==> m.banner
    &&& m.package == is_package_line(line)
}

/// What the patterns say of each trimmed line.
pub open spec fn by_pattern() -> spec_fn(Seq<char>) -> InstallMatches {
    |line: Seq<char>| install_matches(line)
}

/// The lines of a given kind.
pub open spec fn of_kind(ls: Seq<NotedLine>, k: InstallKind) -> Seq<Seq<char>> {
    picked(ls, by_kind(), k)
}

/// The content of a list of noted lines.
pub open spec fn noted(v: Seq<(String, InstallMatches)>) -> Seq<NotedLine> {
    v.map_values(|l: (String, InstallMatches)| (l.0@, l.1))
}

/// The lines of `text`, trimmed, each with what the patterns say of it.
pub open spec fn noted_lines(text: Seq<char>) -> Seq<NotedLine> {
    noted_trimmed(text, by_pattern())
}

/// The packages, and the messages.
pub open spec fn install_parts(ls: Seq<NotedLine>) -> ListingParts {
    ListingParts {
        items: of_kind(ls, InstallKind::Package),
        rest: of_kind(ls, InstallKind::Message),
    }
}

/// The filtered output of `bun install`.
pub open spec fn filtered_install(
    output: Seq<char>,
    exit_code: int,
    hint: Option<Seq<char>>,
) -> Seq<char> {
    finished(
        listing_lines(install_parts(noted_lines(without_ansi(output))), "packages"@, hint),
        exit_code,
        "bun install"@,
    )
}

/// What a trimmed line is, given what the patterns say of it.
pub fn line_kind(line: &str, m: InstallMatches) -> (r: InstallKind)
    ensures
        r == kind((line@, m)),
{
    if line.is_empty() {
        return InstallKind::Dropped;
    }
    // Skip progress indicators
    if contains_char(line, '⸩') || contains_char(line, '⸨') {
        return InstallKind::Dropped;
    }
    // Skip resolution/download progress
    if starts_with(line, "Resolving") || starts_with(line, "Downloading") || starts_with(
        line,
        "Extracting",
    ) {
        return InstallKind::Dropped;
    }
    if m.banner {
        return InstallKind::Dropped;
    }
    if m.package {
        InstallKind::Package
    } else {
        InstallKind::Message
    }
}

/// The lines of an install's output, trimmed, each with what the patterns say of it.
pub fn note_install_lines(output: &str) -> (r: Vec<(String, InstallMatches)>)
    ensures
        noted(r@) == noted_lines(without_ansi(output@)),
        forall|j: int|
            0 <= j < noted_lines(without_ansi(output@)).len() ==> install_shapes(
                (#[trigger] noted_lines(without_ansi(output@))[j]).0,
                noted_lines(without_ansi(output@))[j].1,
            ),
{
    let clean = strip_ansi(output);
    let lines = split_lines(clean.as_str());
    let banner = Matcher::compile(BUN_BANNER_RE);
    let package = Matcher::compile(BUN_PACKAGE_RE);
    let mut out: Vec<(String, InstallMatches)> = Vec::new();
    let ghost all = lines_of(clean@);
    let mut i: usize = 0;
    while i < lines.len()
        invariant
            i <= lines@.len(),
            out@.len() == i,
            banner@ == BUN_BANNER_RE@,
            package@ == BUN_PACKAGE_RE@,
            all == texts(lines@),
            forall|k: int|
                0 <= k < i ==> (#[trigger] out@[k]).0@ == trimmed(all[k]) && out@[k].1
                    == install_matches(trimmed(all[k])) && install_shapes(
                    trimmed(all[k]),
                    out@[k].1,
                ),
        decreases lines@.len() - i,
    {
        let line = trim(lines[i].as_str());
        let m = InstallMatches { banner: banner.is_match(line), package: package.is_match(line) };
        assert(all[i as int] == lines@[i as int]@);
        out.push((line.to_string(), m));
        i += 1;
    }
    assert(noted(out@) =~= noted_lines(clean@));
    proof {
        let ls = noted_lines(clean@);
        assert forall|j: int| 0 <= j < ls.len() implies install_shapes(
            (#[trigger] ls[j]).0,
            ls[j].1,
        ) by {
            assert(out@[j].0@ == trimmed(all[j]));
        }
    }
    out
}

/// Sorts noted lines into packages and messages.
pub fn collect_install(lines: &Vec<(String, InstallMatches)>) -> (r: Listing)
    ensures
        r@ == install_parts(noted(lines@)),
        texts(r.items@) == install_parts(noted(lines@)).items,
        texts(r.rest@) == install_parts(noted(lines@)).rest,
{
    let mut packages: Vec<String> = Vec::new();
    let mut rest: Vec<String> = Vec::new();
    let ghost all = noted(lines@);
    let mut i: usize = 0;
    assert(all.take(0) =~= Seq::<NotedLine>::empty());
    assert(texts(packages@) =~= seq![]);
    while i < lines.len()
        invariant
            i <= lines@.len(),
            all == noted(lines@),
            texts(packages@) == of_kind(all.take(i as int), InstallKind::Package),
            texts(rest@) == of_kind(all.take(i as int), InstallKind::Message),
        decreases lines@.len() - i,
    {
        let line = &lines[i].0;
        let ghost now = all.take(i + 1);
        let ghost old_packages = texts(packages@);
        let ghost old_rest = texts(rest@);
        proof {
            assert(now.drop_last() =~= all.take(i as int));
            assert(now.last() == (line@, lines@[i as int].1));
        }
        match line_kind(line.as_str(), lines[i].1) {
            InstallKind::Dropped => {},
            InstallKind::Package => {
                packages.push(line.clone());
                assert(texts(packages@) =~= old_packages.push(line@));
            },
            InstallKind::Message => {
                rest.push(line.clone());
                assert(texts(rest@) =~= old_rest.push(line@));
            },
        }
        i += 1;
    }
    assert(all.take(i as int) =~= all);
    Listing { items: packages, rest }
}

/// Reads an install's output into packages and messages.
pub fn read_install(output: &str) -> (r: Listing)
    ensures
        r@ == install_parts(noted_lines(without_ansi(output@))),
        forall|j: int|
            0 <= j < noted_lines(without_ansi(output@)).len() ==> install_shapes(
                (#[trigger] noted_lines(without_ansi(output@))[j]).0,
                noted_lines(without_ansi(output@))[j].1,
            ),
{
    let lines = note_install_lines(output);
    collect_install(&lines)
}

/// The packages in full where the report cuts their list.
pub fn install_tee_request(listing: &Listing) -> (r: Option<TeeRequest>)
    ensures
        r is Some <==> items_left_out(listing@, "bun-install"@) is Some,
        r matches Some(t) ==> items_left_out(listing@, "bun-install"@) == Some((t.full@, t.slug@)),
        r is Some <==> listing.items@.len() > CAP_LIST,
        r matches Some(t) ==> t.full@ == joined(texts(listing.items@), "\n"@) && t.slug@
            == "bun-install"@,
{
    listing.tee_request("bun-install")
}

/// The report of an install as one text.
pub fn render_install(listing: &Listing, exit_code: i32, hint: Option<&str>) -> (r: String)
    ensures
        r@ == finished(
            listing_lines(listing@, "packages"@, hint_text(hint)),
            exit_code as int,
            "bun install"@,
        ),
{
    finish(listing.lines("packages", hint), exit_code, "bun install")
}

/// Filter bun install output: strip progress bars, keep summary. `hint` points at
/// the file that holds the whole list of packages, where there is one.
///
/// Every line is what `install_shapes` says of it, so the laws that ask for that hold of it.
pub fn filter_bun_install(output: &str, exit_code: i32, hint: Option<&str>) -> (r: String)
    ensures
        r@ == filtered_install(output@, exit_code as int, hint_text(hint)),
        forall|j: int|
            0 <= j < noted_lines(without_ansi(output@)).len() ==> install_shapes(
                (#[trigger] noted_lines(without_ansi(output@))[j]).0,
                noted_lines(without_ansi(output@))[j].1,
            ),
{
    let listing = read_install(output);
    render_install(&listing, exit_code, hint)
}

/// Every line of a kind is found among the lines of that kind.
pub proof fn law_line_is_kept(ls: Seq<NotedLine>, j: int)
    requires
        0 <= j < ls.len(),
    ensures
        of_kind(ls, kind(ls[j])).contains(ls[j].0),
{
    law_picked_has(ls, by_kind(), j);
}

/// Nothing but the lines of a kind is found among the lines of that kind.
pub proof fn law_kept_line_is_of_kind(ls: Seq<NotedLine>, k: InstallKind, i: int)
    requires
        0 <= i < of_kind(ls, k).len(),
    ensures
        exists|j: int|
            0 <= j < ls.len() && kind(#[trigger] ls[j]) == k && ls[j].0 == of_kind(ls, k)[i],
{
    law_picked_is_of_kind(ls, by_kind(), k, i);
    let j = choose|j: int|
        0 <= j < ls.len() && by_kind()(#[trigger] ls[j]) == k && ls[j].0 == of_kind(ls, k)[i];
    assert(kind(ls[j]) == k);
}

/// Every message stands in the filtered text.
pub proof fn law_message_stands_in_text(
    output: Seq<char>,
    exit_code: int,
    hint: Option<Seq<char>>,
    j: int,
)
    requires
        0 <= j < noted_lines(without_ansi(output)).len(),
        kind(noted_lines(without_ansi(output))[j]) == InstallKind::Message,
    ensures
        has_text(filtered_install(output, exit_code, hint), noted_lines(without_ansi(output))[j].0),
{
    let ls = noted_lines(without_ansi(output));
    let p = install_parts(ls);
    let all = listing_lines(p, "packages"@, hint);
    law_line_is_kept(ls, j);
    let k = choose|k: int| 0 <= k < p.rest.len() && p.rest[k] == ls[j].0;
    law_rest_ends_listing(p, "packages"@, hint);
    let i = all.len() - p.rest.len() + k;
    assert(all[i] == ls[j].0);
    law_noted_is_trimmed(without_ansi(output), by_pattern(), j);
    law_finished_shows(all, exit_code, "bun install"@, i);
}

/// The first packages stand in the filtered text.
pub proof fn law_first_packages_stand_in_text(
    output: Seq<char>,
    exit_code: int,
    hint: Option<Seq<char>>,
    k: int,
)
    requires
        0 <= k < of_kind(noted_lines(without_ansi(output)), InstallKind::Package).len(),
        k < CAP_LIST,
    ensures
        has_text(
            filtered_install(output, exit_code, hint),
            of_kind(noted_lines(without_ansi(output)), InstallKind::Package)[k],
        ),
{
    let ls = noted_lines(without_ansi(output));
    let p = install_parts(ls);
    law_kept_line_is_of_kind(ls, InstallKind::Package, k);
    let j = choose|j: int|
        0 <= j < ls.len() && kind(#[trigger] ls[j]) == InstallKind::Package && ls[j].0
            == p.items[k];
    law_noted_is_trimmed(without_ansi(output), by_pattern(), j);
    law_first_items_are_shown(p, "packages"@, hint, k);
    law_finished_shows(listing_lines(p, "packages"@, hint), exit_code, "bun install"@, k);
}

/// A package's line is listed, unless it shows progress.
pub proof fn law_package_is_listed(line: Seq<char>, m: InstallMatches)
    requires
        install_shapes(line, m),
        is_package_line(line),
        !is_progress(line),
    ensures
        kind((line, m)) == InstallKind::Package,
{
    let (p, i, j) = choose|p: int, i: int, j: int| splits_as_package(line, p, i, j);
    reveal_strlit("installed");
    assert("installed"@.is_prefix_of(line) ==> line[0] == "installed"@[0]);
    if m.banner {
        reveal_strlit("bun ");
        law_banner_opens_with_bun(line);
        assert(line[0] == "bun "@[0]);
    }
}

/// The banner is dropped.
pub proof fn law_banner_is_dropped(line: Seq<char>, m: InstallMatches)
    requires
        install_shapes(line, m),
        is_banner_line(line),
    ensures
        kind((line, m)) == InstallKind::Dropped,
{
}

/// Every other line that is neither blank nor progress, and does not read as the banner, is
/// a message.
pub proof fn law_other_line_is_message(line: Seq<char>, m: InstallMatches)
    requires
        install_shapes(line, m),
        line.len() > 0,
        !is_progress(line),
        !may_be_banner_line(line),
        !is_package_line(line),
    ensures
        kind((line, m)) == InstallKind::Message,
{
}

/// A run of which no line is kept is reported by its exit code alone.
pub proof fn law_empty_run_is_reported(output: Seq<char>, exit_code: int, hint: Option<Seq<char>>)
    requires
        forall|j: int|
            0 <= j < noted_lines(without_ansi(output)).len() ==> kind(
                #[trigger] noted_lines(without_ansi(output))[j],
            ) == InstallKind::Dropped,
    ensures
        filtered_install(output, exit_code, hint) == nothing_kept(exit_code, "bun install"@),
{
    let ls = noted_lines(without_ansi(output));
    let p = install_parts(ls);
    if p.items.len() > 0 {
        law_kept_line_is_of_kind(ls, InstallKind::Package, 0);
    }
    if p.rest.len() > 0 {
        law_kept_line_is_of_kind(ls, InstallKind::Message, 0);
    }
    let all = listing_lines(p, "packages"@, hint);
    assert(all =~= Seq::<Seq<char>>::empty());
    law_blank_lines_are_nothing(all, exit_code, "bun install"@);
}

/// No kept line shows progress or is blank.
pub proof fn law_progress_is_dropped(ls: Seq<NotedLine>, i: int)
    ensures
        0 <= i < install_parts(ls).items.len() ==> !is_progress(install_parts(ls).items[i])
            && install_parts(ls).items[i].len() > 0,
        0 <= i < install_parts(ls).rest.len() ==> !is_progress(install_parts(ls).rest[i])
            && install_parts(ls).rest[i].len() > 0,
{
    if 0 <= i < install_parts(ls).items.len() {
        law_kept_line_is_of_kind(ls, InstallKind::Package, i);
    }
    if 0 <= i < install_parts(ls).rest.len() {
        law_kept_line_is_of_kind(ls, InstallKind::Message, i);
    }
}

/// Whole lines that are dropped, such as blank lines, banners and progress, change nothing
/// in the filtered text, wherever they stand.
pub proof fn law_dropped_lines_change_nothing(
    output: Seq<char>,
    other: Seq<char>,
    before: Seq<char>,
    dropped: Seq<char>,
    after: Seq<char>,
    exit_code: int,
    hint: Option<Seq<char>>,
)
    requires
        without_ansi(output) == before + dropped + after,
        without_ansi(other) == before + after,
        before.len() == 0 || before.last() == '\n',
        dropped.len() == 0 || dropped.last() == '\n',
        forall|j: int|
            0 <= j < noted_lines(dropped).len() ==> kind(#[trigger] noted_lines(dropped)[j])
                == InstallKind::Dropped,
    ensures
        filtered_install(output, exit_code, hint) == filtered_install(other, exit_code, hint),
{
    assert forall|j: int| 0 <= j < noted_trimmed(dropped, by_pattern()).len() implies by_kind()(
        #[trigger] noted_trimmed(dropped, by_pattern())[j],
    ) == InstallKind::Dropped by {
        assert(kind(noted_lines(dropped)[j]) == InstallKind::Dropped);
    }
    law_other_kinds_change_nothing(
        before, dropped, after, by_pattern(), by_kind(), InstallKind::Package,
    );
    law_other_kinds_change_nothing(
        before, dropped, after, by_pattern(), by_kind(), InstallKind::Message,
    );
}

/// Filtering the filtered text again gives the same text, where it shows all packages and
/// holds no escape sequence.
pub proof fn law_filtering_again_changes_nothing(
    output: Seq<char>,
    exit_code: int,
    hint: Option<Seq<char>>,
    other: Option<Seq<char>>,
)
    requires
        of_kind(noted_lines(without_ansi(output)), InstallKind::Package).len() <= CAP_LIST,
        without_ansi(filtered_install(output, exit_code, hint)) == filtered_install(
            output,
            exit_code,
            hint,
        ),
    ensures
        filtered_install(filtered_install(output, exit_code, hint), exit_code, other)
            == filtered_install(output, exit_code, hint),
{
    lemma_report_is_stable(output, exit_code, hint, other);
}

/// Where the output holds no escape character but those of its escape sequences, and all
/// packages are shown, the filtered text holds no escape sequence.
pub proof fn law_filtered_text_is_plain(output: Seq<char>, exit_code: int, hint: Option<Seq<char>>)
    requires
        of_kind(noted_lines(without_ansi(output)), InstallKind::Package).len() <= CAP_LIST,
        !without_ansi(output).contains('\u{1b}'),
    ensures
        without_ansi(filtered_install(output, exit_code, hint)) == filtered_install(
            output,
            exit_code,
            hint,
        ),
{
    lemma_report_is_stable(output, exit_code, hint, hint);
    law_plain_text_unchanged(filtered_install(output, exit_code, hint));
}

proof fn lemma_report_is_stable(
    output: Seq<char>,
    exit_code: int,
    hint: Option<Seq<char>>,
    other: Option<Seq<char>>,
)
    requires
        of_kind(noted_lines(without_ansi(output)), InstallKind::Package).len() <= CAP_LIST,
    ensures
        ({
            let r = filtered_install(output, exit_code, hint);
            let again = listing_lines(install_parts(noted_lines(r)), "packages"@, other);
            &&& finished(again, exit_code, "bun install"@) == r
            &&& !without_ansi(output).contains('\u{1b}') ==> !r.contains('\u{1b}')
        }),
{
    reveal_strlit("bun install");
    law_report_is_stable(
        without_ansi(output),
        by_pattern(),
        by_kind(),
        InstallKind::Package,
        InstallKind::Message,
        "packages"@,
        hint,
        other,
        exit_code,
        "bun install"@,
    );
}

/// What a trimmed line is, told by the line and by what the patterns say of it: only
/// progress bars, lines that begin as resolution, download or extraction, the banner and
/// empty lines are dropped, and of the others a package is what its pattern matches.
pub proof fn law_kind_by_looks(line: Seq<char>, m: InstallMatches)
    ensures
        kind((line, m)) == InstallKind::Dropped <==> {
            ||| line.len() == 0
            ||| exists|k: int| 0 <= k < line.len() && (#[trigger] line[k] == '⸩' || line[k] == '⸨')
            ||| "Resolving"@.is_prefix_of(line)
            ||| "Downloading"@.is_prefix_of(line)
            ||| "Extracting"@.is_prefix_of(line)
            ||| m.banner
        },
        kind((line, m)) == InstallKind::Package <==> m.package && kind((line, m))
            != InstallKind::Dropped,
        kind((line, m)) == InstallKind::Message <==> !m.package && kind((line, m))
            != InstallKind::Dropped,
{
    if line.contains('⸩') || line.contains('⸨') {
        let k = choose|k: int| 0 <= k < line.len() && (line[k] == '⸩' || line[k] == '⸨');
        assert(line[k] == '⸩' || line[k] == '⸨');
    }
}

/// Every line that is not empty, holds no progress bar, begins neither as resolution nor as
/// download nor as extraction, and is not the banner is kept, trimmed: among the packages
/// where the package pattern matches it, and else among the messages. It stands in the
/// filtered text, unless it is one of more packages than are shown.
pub proof fn law_every_other_line_is_kept(
    output: Seq<char>,
    exit_code: int,
    hint: Option<Seq<char>>,
    j: int,
)
    requires
        0 <= j < lines_of(without_ansi(output)).len(),
        ({
            let line = trimmed(lines_of(without_ansi(output))[j]);
            &&& line.len() > 0
            &&& forall|k: int|
                0 <= k < line.len() ==> #[trigger] line[k] != '⸩' && line[k] != '⸨'
            &&& !"Resolving"@.is_prefix_of(line)
            &&& !"Downloading"@.is_prefix_of(line)
            &&& !"Extracting"@.is_prefix_of(line)
            &&& !regex_is_match(BUN_BANNER_RE@, line)
        }),
    ensures
        ({
            let line = trimmed(lines_of(without_ansi(output))[j]);
            let package = regex_is_match(BUN_PACKAGE_RE@, line);
            let p = install_parts(noted_lines(without_ansi(output)));
            let r = filtered_install(output, exit_code, hint);
            &&& package ==> p.items.contains(line)
            &&& !package ==> p.rest.contains(line)
            &&& !package || p.items.len() <= CAP_LIST ==> has_text(r, line)
        }),
{
    let text = without_ansi(output);
    let ls = noted_lines(text);
    let line = trimmed(lines_of(text)[j]);
    let p = install_parts(ls);
    law_noted_lines_in_place(text, j);
    law_kind_by_looks(line, ls[j].1);
    law_line_is_kept(ls, j);
    if kind(ls[j]) == InstallKind::Message {
        law_message_stands_in_text(output, exit_code, hint, j);
    } else if p.items.len() <= CAP_LIST {
        let k = choose|k: int| 0 <= k < p.items.len() && p.items[k] == line;
        law_first_packages_stand_in_text(output, exit_code, hint, k);
    }
}

/// The packages and the messages of lines that follow one another are those of the first lines
/// and then those of the others, and one line is found under its kind alone: the lines keep
/// their order and their number.
pub proof fn law_lines_keep_their_order(a: Seq<NotedLine>, b: Seq<NotedLine>, l: NotedLine)
    ensures
        install_parts(a + b).items == install_parts(a).items + install_parts(b).items,
        install_parts(a + b).rest == install_parts(a).rest + install_parts(b).rest,
        install_parts(seq![l]).items == if kind(l) == InstallKind::Package {
            seq![l.0]
        } else {
            Seq::<Seq<char>>::empty()
        },
        install_parts(seq![l]).rest == if kind(l) == InstallKind::Message {
            seq![l.0]
        } else {
            Seq::<Seq<char>>::empty()
        },
{
    law_picked_of_both(a, b, by_kind(), InstallKind::Package);
    law_picked_of_both(a, b, by_kind(), InstallKind::Message);
    law_picked_of_one(l, by_kind(), InstallKind::Package);
    law_picked_of_one(l, by_kind(), InstallKind::Message);
}

/// Each noted line is a line of the text, trimmed, in its place.
pub proof fn law_noted_lines_in_place(text: Seq<char>, j: int)
    ensures
        noted_lines(text).len() == lines_of(text).len(),
        0 <= j < lines_of(text).len() ==> noted_lines(text)[j] == (
            trimmed(lines_of(text)[j]),
            install_matches(trimmed(lines_of(text)[j])),
        ),
{
    law_noted_in_place(text, by_pattern(), j);
}

/// Read line by line, a filtered text that shows all packages is the packages and then the
/// messages, each in its order, where there is any.
pub proof fn law_filtered_text_in_lines(output: Seq<char>, exit_code: int, hint: Option<Seq<char>>)
    requires
        ({
            let p = install_parts(noted_lines(without_ansi(output)));
            p.items.len() <= CAP_LIST && p.items.len() + p.rest.len() > 0
        }),
    ensures
        ({
            let p = install_parts(noted_lines(without_ansi(output)));
            &&& lines_of(filtered_install(output, exit_code, hint)) == p.items + p.rest
            &&& filtered_install(output, exit_code, hint) == joined(p.items + p.rest, "\n"@)
        }),
{
    let p = install_parts(noted_lines(without_ansi(output)));
    let all = p.items + p.rest;
    lemma_listed_lines_are_plain(output);
    law_plain_lines_read_back(all);
    law_trimmed_same(all[0]);
    law_finished_shows(all, exit_code, "bun install"@, 0);
}

/// A filtered text that hides packages is the first packages, a line that says how many are
/// hidden, the hint where there is one, and the messages, each in its order.
pub proof fn law_filtered_text_beyond_the_cap(
    output: Seq<char>,
    exit_code: int,
    hint: Option<Seq<char>>,
)
    requires
        install_parts(noted_lines(without_ansi(output))).items.len() > CAP_LIST,
    ensures
        ({
            let p = install_parts(noted_lines(without_ansi(output)));
            let note = "… +"@ + decimal((p.items.len() - CAP_LIST) as nat) + " more packages"@;
            let hinted = match hint {
                Some(h) => seq![h],
                None => Seq::<Seq<char>>::empty(),
            };
            filtered_install(output, exit_code, hint) == trimmed(
                joined(p.items.take(CAP_LIST as int) + seq![note] + hinted + p.rest, "\n"@),
            )
        }),
{
    let p = install_parts(noted_lines(without_ansi(output)));
    let all = listing_lines(p, "packages"@, hint);
    let note = "… +"@ + decimal((p.items.len() - CAP_LIST) as nat) + " more packages"@;
    let hinted = match hint {
        Some(h) => seq![h],
        None => Seq::<Seq<char>>::empty(),
    };
    reveal_strlit(" more ");
    reveal_strlit("packages");
    reveal_strlit(" more packages");
    assert(note =~= "… +"@ + decimal((p.items.len() - CAP_LIST) as nat) + " more "@ + "packages"@);
    assert(all =~= p.items.take(CAP_LIST as int) + seq![note] + hinted + p.rest);
    lemma_listed_lines_are_plain(output);
    law_first_items_are_shown(p, "packages"@, hint, 0);
    assert((p.items + p.rest)[0] == p.items[0]);
    law_trimmed_same(all[0]);
    law_finished_shows(all, exit_code, "bun install"@, 0);
}

proof fn lemma_listed_lines_are_plain(output: Seq<char>)
    ensures
        ({
            let p = install_parts(noted_lines(without_ansi(output)));
            forall|i: int|
                0 <= i < (p.items + p.rest).len() ==> is_plain_line(
                    #[trigger] (p.items + p.rest)[i],
                )
        }),
{
    let text = without_ansi(output);
    let p = install_parts(noted_lines(text));
    let all = p.items + p.rest;
    let n = p.items.len() as int;
    assert forall|i: int| 0 <= i < all.len() implies is_plain_line(#[trigger] all[i]) by {
        if i < n {
            lemma_listed_lines(text, by_pattern(), by_kind(), InstallKind::Package, i);
        } else {
            lemma_listed_lines(text, by_pattern(), by_kind(), InstallKind::Message, i - n);
        }
    }
}

} // verus!
