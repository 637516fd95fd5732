//! Filters the output of `bun run`: the script's own output stays.
use crate::ansi::{law_plain_text_unchanged, strip_ansi, without_ansi};
use crate::lines::{
    joined, law_joined_holds_the_parts_characters, law_joined_lines_read_back,
    law_lines_hold_no_line_feed, law_lines_hold_the_texts_characters, law_lines_of_both, lines_of,
    split_lines, texts,
};
use crate::patterns::{
    is_banner_line, law_banner_opens_with_bun, may_be_banner_line, regex_is_match, Matcher,
    BUN_BANNER_RE,
};
use crate::report::{
    finish_verbatim, finished_verbatim, is_plain_line, law_blank_lines_are_nothing,
    law_finished_verbatim_shows, law_nothing_kept_is_one_line, law_verbatim_text_is_its_lines,
    nothing_kept,
};
use crate::text::{
    has_text, is_blank, is_white_space, law_blank_trims_to_nothing, law_trimmed_same, trim, trimmed,
};
use vstd::prelude::*;

verus! {

/// Whether the banner pattern matches each of the lines, trimmed.
pub open spec fn banners(lines: Seq<Seq<char>>) -> Seq<bool> {
    lines.map_values(|l: Seq<char>| regex_is_match(BUN_BANNER_RE@, trimmed(l)))
}

/// The lines that are neither blank nor, as `banner` says, Bun's banner.
pub open spec fn script_lines(lines: Seq<Seq<char>>, banner: Seq<bool>) -> Seq<Seq<char>>
    decreases lines.len(),
{
    if lines.len() == 0 {
        seq![]
    } else if is_blank(lines.last()) || banner[lines.len() - 1] {
        script_lines(lines.drop_last(), banner)
    } else {
        script_lines(lines.drop_last(), banner).push(lines.last())
    }
}

/// The filtered output of `bun run`.
pub open spec fn filtered_run(output: Seq<char>, exit_code: int) -> Seq<char> {
    let lines = lines_of(without_ansi(output));
    finished_verbatim(script_lines(lines, banners(lines)), exit_code, "bun run"@)
}

/// Asks the banner pattern about each of the lines, trimmed. It matches every line that is
/// a banner in ASCII digits, and none that does not read as one.
pub fn find_banners(lines: &Vec<String>) -> (r: Vec<bool>)
    ensures
        r@ == banners(texts(lines@)),
        forall|i: int|
            0 <= i < r@.len() && #[trigger] r@[i] ==> may_be_banner_line(trimmed(lines@[i]@)),
        forall|i: int|
            0 <= i < r@.len() && is_banner_line(trimmed((#[trigger] lines@[i])@)) ==> r@[i],
{
    let banner = Matcher::compile(BUN_BANNER_RE);
    let mut out: Vec<bool> = Vec::new();
    let ghost all = texts(lines@);
    let mut i: usize = 0;
    while i < lines.len()
        invariant
            i <= lines@.len(),
            out@.len() == i,
            banner@ == BUN_BANNER_RE@,
            all == texts(lines@),
            forall|k: int|
                0 <= k < i ==> #[trigger] out@[k] == regex_is_match(
                    BUN_BANNER_RE@,
                    trimmed(all[k]),
                ),
            forall|k: int|
                0 <= k < i && #[trigger] out@[k] ==> may_be_banner_line(trimmed(all[k])),
            forall|k: int|
                0 <= k < i && is_banner_line(trimmed(#[trigger] all[k])) ==> out@[k],
        decreases lines@.len() - i,
    {
        assert(all[i as int] == lines@[i as int]@);
        out.push(banner.is_match(trim(lines[i].as_str())));
        i += 1;
    }
    assert(out@ =~= banners(all));
    assert forall|k: int| 0 <= k < out@.len() && is_banner_line(
        trimmed((#[trigger] lines@[k])@),
    ) implies out@[k] by {
        assert(all[k] == lines@[k]@);
    }
    out
}

/// The lines that are neither blank nor, as `banner` says, Bun's banner.
pub fn keep_script_lines(lines: &Vec<String>, banner: &Vec<bool>) -> (r: Vec<String>)
    requires
        banner@.len() == lines@.len(),
    ensures
        texts(r@) == script_lines(texts(lines@), banner@),
{
    let mut out: Vec<String> = Vec::new();
    let ghost all = texts(lines@);
    let mut i: usize = 0;
    assert(all.take(0) =~= Seq::<Seq<char>>::empty());
    assert(texts(out@) =~= seq![]);
    while i < lines.len()
        invariant
            i <= lines@.len() == banner@.len(),
            all == texts(lines@),
            texts(out@) == script_lines(all.take(i as int), banner@),
        decreases lines@.len() - i,
    {
        let t = trim(lines[i].as_str());
        let ghost before = texts(out@);
        proof {
            assert(all.take(i + 1).drop_last() =~= all.take(i as int));
            law_blank_trims_to_nothing(lines@[i as int]@);
        }
        if !t.is_empty() && !banner[i] {
            out.push(lines[i].clone());
            assert(texts(out@) =~= before.push(all[i as int]));
        }
        i += 1;
    }
    assert(all.take(i as int) =~= all);
    out
}

/// Filter bun run output: keep the script's own output.
///
/// The `$ <cmd>` echo is suppressed by `--silent` on the command line, so nothing here
/// inspects `$`-prefixed lines: they all belong to the script. Lines are never
/// trimmed either, this is passthrough of arbitrary output where indentation
/// is content.
///
/// Of the lines that are not blank, each that does not read as the banner stands in the
/// result as it is, and so does each that begins with `$`. A banner in ASCII digits is one.
pub fn filter_bun_run(output: &str, exit_code: i32) -> (r: String)
    ensures
        r@ == filtered_run(output@, exit_code as int),
        forall|i: int|
            0 <= i < lines_of(without_ansi(output@)).len() && !is_blank(
                #[trigger] lines_of(without_ansi(output@))[i],
            ) && !may_be_banner_line(trimmed(lines_of(without_ansi(output@))[i])) ==> has_text(
                r@,
                lines_of(without_ansi(output@))[i],
            ),
        forall|i: int|
            0 <= i < lines_of(without_ansi(output@)).len() && is_banner_line(
                trimmed(#[trigger] lines_of(without_ansi(output@))[i]),
            ) ==> banners(lines_of(without_ansi(output@)))[i],
        forall|i: int|
            0 <= i < lines_of(without_ansi(output@)).len() && seq!['$'].is_prefix_of(
                trimmed(#[trigger] lines_of(without_ansi(output@))[i]),
            ) ==> has_text(r@, lines_of(without_ansi(output@))[i]),
{
    let clean = strip_ansi(output);
    let lines = split_lines(clean.as_str());
    let banner = find_banners(&lines);
    proof {
        let all = lines_of(clean@);
        assert forall|i: int|
            0 <= i < all.len() && !is_blank(#[trigger] all[i]) && !may_be_banner_line(
                trimmed(all[i]),
            ) implies has_text(filtered_run(output@, exit_code as int), all[i]) by {
            assert(lines@[i]@ == all[i]);
            assert(!banner@[i]);
            law_script_line_stands_in_text(output@, exit_code as int, i);
        }
        assert forall|i: int| 0 <= i < all.len() && is_banner_line(
            trimmed(#[trigger] all[i]),
        ) implies banners(all)[i] by {
            assert(lines@[i]@ == all[i]);
        }
        assert forall|i: int|
            0 <= i < all.len() && seq!['$'].is_prefix_of(
                trimmed(#[trigger] all[i]),
            ) implies !is_blank(all[i]) && !may_be_banner_line(trimmed(all[i])) by {
            reveal_strlit("bun ");
            law_blank_trims_to_nothing(all[i]);
            assert(trimmed(all[i])[0] == seq!['$'][0]);
            if may_be_banner_line(trimmed(all[i])) {
                law_banner_opens_with_bun(trimmed(all[i]));
                assert(trimmed(all[i])[0] == "bun "@[0]);
            }
        }
    }
    finish_verbatim(keep_script_lines(&lines, &banner), exit_code, "bun run")
}

/// A line that is neither blank nor a banner is one of the script's.
proof fn lemma_script_line_is_kept(lines: Seq<Seq<char>>, banner: Seq<bool>, i: int)
    requires
        0 <= i < lines.len(),
        !is_blank(lines[i]),
        !banner[i],
    ensures
        script_lines(lines, banner).contains(lines[i]),
    decreases lines.len(),
{
    let init = script_lines(lines.drop_last(), banner);
    if i == lines.len() - 1 {
        assert(script_lines(lines, banner)[init.len() as int] == lines[i]);
    } else {
        lemma_script_line_is_kept(lines.drop_last(), banner, i);
        let k = choose|k: int| 0 <= k < init.len() && init[k] == lines[i];
        assert(script_lines(lines, banner)[k] == lines[i]);
    }
}

/// Every line that is neither blank nor a banner stands in the filtered text as it
/// is.
pub proof fn law_script_line_stands_in_text(output: Seq<char>, exit_code: int, i: int)
    requires
        ({
            let lines = lines_of(without_ansi(output));
            0 <= i < lines.len() && !is_blank(lines[i]) && !banners(lines)[i]
        }),
    ensures
        has_text(filtered_run(output, exit_code), lines_of(without_ansi(output))[i]),
{
    let lines = lines_of(without_ansi(output));
    let kept = script_lines(lines, banners(lines));
    lemma_script_line_is_kept(lines, banners(lines), i);
    let k = choose|k: int| 0 <= k < kept.len() && kept[k] == lines[i];
    law_finished_verbatim_shows(kept, exit_code, "bun run"@, k);
}

/// Every line of the script is a line of the output as it is, and not blank.
pub proof fn law_script_lines_are_verbatim(lines: Seq<Seq<char>>, banner: Seq<bool>, k: int)
    requires
        0 <= k < script_lines(lines, banner).len(),
    ensures
        exists|i: int|
            0 <= i < lines.len() && #[trigger] lines[i] == script_lines(lines, banner)[k]
                && !is_blank(lines[i]) && !banner[i],
    decreases lines.len(),
{
    let init = script_lines(lines.drop_last(), banner);
    if k < init.len() {
        law_script_lines_are_verbatim(lines.drop_last(), banner, k);
        let i = choose|i: int|
            0 <= i < lines.len() - 1 && #[trigger] lines.drop_last()[i] == init[k] && !is_blank(
                lines.drop_last()[i],
            ) && !banner[i];
        assert(lines[i] == lines.drop_last()[i]);
    } else {
        assert(lines[lines.len() - 1] == script_lines(lines, banner)[k]);
    }
}

/// Read line by line, the filtered text is the script's lines, in their order and
/// with their white space. A line before the last that ends with a carriage return of its
/// own would lose it, and is left out.
pub proof fn law_script_lines_read_back(output: Seq<char>, exit_code: int)
    requires
        ({
            let lines = lines_of(without_ansi(output));
            let kept = script_lines(lines, banners(lines));
            kept.len() > 0 && forall|k: int|
                0 <= k < kept.len() - 1 ==> (#[trigger] kept[k]).last() != '\r'
        }),
    ensures
        ({
            let lines = lines_of(without_ansi(output));
            lines_of(filtered_run(output, exit_code)) == script_lines(lines, banners(lines))
        }),
{
    let text = without_ansi(output);
    let lines = lines_of(text);
    let kept = script_lines(lines, banners(lines));
    assert forall|k: int| 0 <= k < kept.len() implies !is_blank(#[trigger] kept[k])
        && !kept[k].contains('\n') by {
        law_script_lines_are_verbatim(lines, banners(lines), k);
        let i = choose|i: int|
            0 <= i < lines.len() && #[trigger] lines[i] == kept[k] && !is_blank(lines[i])
                && !banners(lines)[i];
        law_lines_hold_no_line_feed(text, i);
    }
    assert(!is_blank(kept[kept.len() - 1]));
    law_finished_verbatim_shows(kept, exit_code, "bun run"@, kept.len() - 1);
    law_joined_lines_read_back(kept);
}

/// A run of which nothing is left but blank lines and banners is reported by its
/// exit code alone.
pub proof fn law_empty_run_is_reported(output: Seq<char>, exit_code: int)
    requires
        ({
            let lines = lines_of(without_ansi(output));
            forall|i: int|
                0 <= i < lines.len() ==> is_blank(#[trigger] lines[i]) || banners(lines)[i]
        }),
    ensures
        filtered_run(output, exit_code) == nothing_kept(exit_code, "bun run"@),
{
    let lines = lines_of(without_ansi(output));
    let kept = script_lines(lines, banners(lines));
    if kept.len() > 0 {
        law_script_lines_are_verbatim(lines, banners(lines), 0);
    }
    law_blank_lines_are_nothing(kept, exit_code, "bun run"@);
}

/// Lines of which none is blank and none is a banner are all the script's.
proof fn lemma_all_lines_are_the_scripts(lines: Seq<Seq<char>>, banner: Seq<bool>)
    requires
        forall|i: int| 0 <= i < lines.len() ==> !is_blank(#[trigger] lines[i]) && !banner[i],
    ensures
        script_lines(lines, banner) == lines,
    decreases lines.len(),
{
    if lines.len() > 0 {
        assert(!is_blank(lines[lines.len() - 1]));
        assert forall|i: int| 0 <= i < lines.len() - 1 implies !is_blank(
            #[trigger] lines.drop_last()[i],
        ) && !banner[i] by {
            assert(lines.drop_last()[i] == lines[i]);
        }
        lemma_all_lines_are_the_scripts(lines.drop_last(), banner);
    }
    assert(script_lines(lines, banner) =~= lines);
}

/// Filtering the filtered text again gives the same text, where it holds no escape
/// sequence and no line before the last ends with a carriage return of its own.
pub proof fn law_filtering_again_changes_nothing(output: Seq<char>, exit_code: int)
    requires
        ({
            let lines = lines_of(without_ansi(output));
            let kept = script_lines(lines, banners(lines));
            forall|k: int| 0 <= k < kept.len() - 1 ==> (#[trigger] kept[k]).last() != '\r'
        }),
        without_ansi(filtered_run(output, exit_code)) == filtered_run(output, exit_code),
    ensures
        filtered_run(filtered_run(output, exit_code), exit_code) == filtered_run(output, exit_code),
{
    let lines = lines_of(without_ansi(output));
    let kept = script_lines(lines, banners(lines));
    let r = filtered_run(output, exit_code);
    if kept.len() > 0 {
        law_script_lines_read_back(output, exit_code);
        assert forall|k: int| 0 <= k < kept.len() implies !is_blank(#[trigger] kept[k])
            && !banners(kept)[k] by {
            law_script_lines_are_verbatim(lines, banners(lines), k);
        }
        lemma_all_lines_are_the_scripts(kept, banners(kept));
    } else {
        lemma_nothing_kept(exit_code);
        law_blank_lines_are_nothing(kept, exit_code, "bun run"@);
        let one = seq![r];
        assert(joined(one, "\n"@) == r);
        law_joined_lines_read_back(one);
        reveal_with_fuel(script_lines, 2);
        assert(one.drop_last() =~= Seq::<Seq<char>>::empty());
        if banners(one)[0] {
            assert(script_lines(one, banners(one)) =~= kept);
        } else {
            assert(script_lines(one, banners(one)) =~= one);
            law_finished_verbatim_shows(one, exit_code, "bun run"@, 0);
        }
    }
}

/// Where the output holds no escape character but those of its escape sequences, the
/// filtered text holds no escape sequence.
pub proof fn law_filtered_text_is_plain(output: Seq<char>, exit_code: int)
    requires
        !without_ansi(output).contains('\u{1b}'),
    ensures
        without_ansi(filtered_run(output, exit_code)) == filtered_run(output, exit_code),
{
    let text = without_ansi(output);
    let lines = lines_of(text);
    let kept = script_lines(lines, banners(lines));
    assert forall|k: int| 0 <= k < kept.len() implies !is_blank(#[trigger] kept[k])
        && !kept[k].contains('\u{1b}') by {
        law_script_lines_are_verbatim(lines, banners(lines), k);
        let i = choose|i: int|
            0 <= i < lines.len() && #[trigger] lines[i] == kept[k] && !is_blank(lines[i])
                && !banners(lines)[i];
        if kept[k].contains('\u{1b}') {
            law_lines_hold_the_texts_characters(text, i, '\u{1b}');
        }
    }
    if kept.len() > 0 {
        reveal_strlit("\n");
        assert(!is_blank(kept[kept.len() - 1]));
        law_joined_holds_the_parts_characters(kept, "\n"@, '\u{1b}');
    } else {
        lemma_nothing_kept(exit_code);
    }
    law_plain_text_unchanged(filtered_run(output, exit_code));
}

proof fn lemma_nothing_kept(exit_code: int)
    ensures
        is_plain_line(nothing_kept(exit_code, "bun run"@)),
        !is_blank(nothing_kept(exit_code, "bun run"@)),
        !nothing_kept(exit_code, "bun run"@).contains('\u{1b}'),
{
    reveal_strlit("bun run");
    law_nothing_kept_is_one_line(exit_code, "bun run"@);
    law_trimmed_same(nothing_kept(exit_code, "bun run"@));
}

/// The script's lines of two texts are those of the one and then those of the other, and of
/// one line they are the line unless it is blank or a banner: the lines keep their order and
/// their number.
pub proof fn law_lines_keep_their_order(
    a: Seq<Seq<char>>,
    b: Seq<Seq<char>>,
    banner_a: Seq<bool>,
    banner_b: Seq<bool>,
)
    requires
        banner_a.len() == a.len(),
        banner_b.len() == b.len(),
    ensures
        script_lines(a + b, banner_a + banner_b) == script_lines(a, banner_a) + script_lines(
            b,
            banner_b,
        ),
    decreases b.len(),
{
    let both = banner_a + banner_b;
    if b.len() == 0 {
        assert(a + b =~= a);
        assert(both =~= banner_a);
        assert(script_lines(a, banner_a) + script_lines(b, banner_b) =~= script_lines(a, banner_a));
    } else {
        let init = banner_b.drop_last();
        assert((a + b).drop_last() =~= a + b.drop_last());
        assert((a + b).last() == b.last());
        law_lines_keep_their_order(a, b.drop_last(), banner_a, init);
        lemma_flags_of_the_lines(a + b.drop_last(), both, banner_a + init);
        lemma_flags_of_the_lines(b.drop_last(), banner_b, init);
        assert(both[a.len() + b.len() - 1] == banner_b[b.len() - 1]);
        assert(script_lines(a + b, both) =~= script_lines(a, banner_a) + script_lines(b, banner_b));
    }
}

/// Only the flags of the lines count.
proof fn lemma_flags_of_the_lines(lines: Seq<Seq<char>>, banner: Seq<bool>, other: Seq<bool>)
    requires
        forall|i: int| 0 <= i < lines.len() ==> #[trigger] banner[i] == other[i],
    ensures
        script_lines(lines, banner) == script_lines(lines, other),
    decreases lines.len(),
{
    if lines.len() > 0 {
        assert(banner[lines.len() - 1] == other[lines.len() - 1]);
        lemma_flags_of_the_lines(lines.drop_last(), banner, other);
    }
}

/// One line is the script's, as it is, unless it is white space only or a banner.
pub proof fn law_one_line_is_kept_or_not(line: Seq<char>, banner: bool)
    ensures
        script_lines(seq![line], seq![banner]) == if banner || (forall|k: int|
            0 <= k < line.len() ==> is_white_space(#[trigger] line[k])) {
            Seq::<Seq<char>>::empty()
        } else {
            seq![line]
        },
        script_lines(Seq::empty(), Seq::empty()) == Seq::<Seq<char>>::empty(),
        banners(seq![line]) == seq![regex_is_match(BUN_BANNER_RE@, trimmed(line))],
{
    reveal_with_fuel(script_lines, 2);
    assert(seq![line].drop_last() =~= Seq::<Seq<char>>::empty());
    assert(seq![line].last() == line);
    assert(banners(seq![line]) =~= seq![regex_is_match(BUN_BANNER_RE@, trimmed(line))]);
}

/// The script's lines of a text whose lines follow one another.
proof fn lemma_script_lines_of_both(a: Seq<Seq<char>>, b: Seq<Seq<char>>)
    ensures
        script_lines(a + b, banners(a + b)) == script_lines(a, banners(a)) + script_lines(
            b,
            banners(b),
        ),
{
    assert(banners(a + b) =~= banners(a) + banners(b));
    law_lines_keep_their_order(a, b, banners(a), banners(b));
}

/// Whole lines that are blank or banners change nothing in the filtered text, wherever they
/// stand.
pub proof fn law_dropped_lines_change_nothing(
    output: Seq<char>,
    other: Seq<char>,
    before: Seq<char>,
    dropped: Seq<char>,
    after: Seq<char>,
    exit_code: int,
)
    requires
        without_ansi(output) == before + dropped + after,
        without_ansi(other) == before + after,
        before.len() == 0 || before.last() == '\n',
        dropped.len() == 0 || dropped.last() == '\n',
        forall|j: int|
            0 <= j < lines_of(dropped).len() ==> is_blank(#[trigger] lines_of(dropped)[j])
                || regex_is_match(BUN_BANNER_RE@, trimmed(lines_of(dropped)[j])),
    ensures
        filtered_run(output, exit_code) == filtered_run(other, exit_code),
{
    let b = lines_of(before);
    let d = lines_of(dropped);
    let a = lines_of(after);
    law_lines_of_both(before, after);
    law_lines_of_both(dropped, after);
    law_lines_of_both(before, dropped + after);
    assert(before + dropped + after =~= before + (dropped + after));
    lemma_script_lines_of_both(b, a);
    lemma_script_lines_of_both(d, a);
    lemma_script_lines_of_both(b, d + a);
    let none = script_lines(d, banners(d));
    if none.len() > 0 {
        law_script_lines_are_verbatim(d, banners(d), 0);
    }
    assert(none + script_lines(a, banners(a)) =~= script_lines(a, banners(a)));
}

/// The filtered text is the script's lines, one behind the other, where there is any.
pub proof fn law_filtered_text_in_lines(output: Seq<char>, exit_code: int)
    ensures
        ({
            let lines = lines_of(without_ansi(output));
            let kept = script_lines(lines, banners(lines));
            kept.len() > 0 ==> filtered_run(output, exit_code) == joined(kept, "\n"@)
        }),
{
    let lines = lines_of(without_ansi(output));
    let kept = script_lines(lines, banners(lines));
    if kept.len() > 0 {
        law_script_lines_are_verbatim(lines, banners(lines), kept.len() - 1);
        law_finished_verbatim_shows(kept, exit_code, "bun run"@, kept.len() - 1);
        law_verbatim_text_is_its_lines(kept, exit_code, "bun run"@);
    }
}

/// Each flag is what the banner pattern says of the line in its place, trimmed.
pub proof fn law_banners_in_place(lines: Seq<Seq<char>>, i: int)
    ensures
        banners(lines).len() == lines.len(),
        0 <= i < lines.len() ==> banners(lines)[i] == regex_is_match(
            BUN_BANNER_RE@,
            trimmed(lines[i]),
        ),
{
}

} // verus!
