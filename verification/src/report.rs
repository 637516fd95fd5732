//! What every filter ends with: the kept lines as one text, or why there are none.
use crate::lines::{
    join, joined, law_joined_ends, law_joined_has_parts, law_joined_lines_read_back, lines_of,
    texts,
};
use crate::text::{
    decimal, has_text, is_blank, is_white_space, law_blank_trims_to_nothing, law_decimal_is_digits,
    law_has_text_between, law_has_text_transitive, law_trimmed_is_inner, law_trimmed_keeps,
    law_trimmed_same, push_decimal, signed_decimal, signed_to_string, trim, trimmed,
};
use vstd::prelude::*;

verus! {

/// Content that did not fit the report, for the file that holds it in full.
pub struct TeeRequest {
    /// What the file is to hold.
    pub full: String,
    /// What the file is named after.
    pub slug: String,
}

/// The content of an optional string.
pub open spec fn hint_text(hint: Option<&str>) -> Option<Seq<char>> {
    match hint {
        Some(h) => Some(h@),
        None => None,
    }
}

/// The report of a command of which no line was kept.
pub open spec fn nothing_kept(exit_code: int, label: Seq<char>) -> Seq<char> {
    if exit_code != 0 {
        label + " exited with code "@ + signed_decimal(exit_code)
    } else {
        "ok"@
    }
}

/// The lines as one text without white space around it, or why nothing was kept.
pub open spec fn finished(lines: Seq<Seq<char>>, exit_code: int, label: Seq<char>) -> Seq<char> {
    let output = trimmed(joined(lines, "\n"@));
    if output.len() > 0 {
        output
    } else {
        nothing_kept(exit_code, label)
    }
}

/// `lines` without the blank ones at its end.
pub open spec fn without_trailing_blanks(lines: Seq<Seq<char>>) -> Seq<Seq<char>>
    decreases lines.len(),
{
    if lines.len() > 0 && is_blank(lines.last()) {
        without_trailing_blanks(lines.drop_last())
    } else {
        lines
    }
}

/// The lines as one text, each as it is, without the blank ones at the end, or why
/// nothing was kept.
pub open spec fn finished_verbatim(
    lines: Seq<Seq<char>>,
    exit_code: int,
    label: Seq<char>,
) -> Seq<char> {
    let kept = without_trailing_blanks(lines);
    if kept.len() > 0 {
        joined(kept, "\n"@)
    } else {
        nothing_kept(exit_code, label)
    }
}

/// The lines that stand for `hidden` items: their number and, where there is one,
/// the hint at the full content.
pub open spec fn overflow_lines(
    hidden: nat,
    label: Seq<char>,
    hint: Option<Seq<char>>,
) -> Seq<Seq<char>> {
    let note = "… +"@ + decimal(hidden) + " more "@ + label;
    match hint {
        Some(h) => seq![note, h],
        None => seq![note],
    }
}

/// Whether a text is one line that begins and ends with something else than white
/// space.
pub open spec fn is_plain_line(line: Seq<char>) -> bool {
    &&& line.len() > 0
    &&& !is_white_space(line[0])
    &&& !is_white_space(line.last())
    &&& !line.contains('\n')
}

/// Says why nothing was kept: the exit code of a command that failed, or "ok".
fn explain_nothing(exit_code: i32, label: &str) -> (r: String)
    ensures
        r@ == nothing_kept(exit_code as int, label@),
{
    if exit_code != 0 {
        let mut out = label.to_string();
        out.append(" exited with code ");
        out.append(signed_to_string(exit_code).as_str());
        return out;
    }
    "ok".to_string()
}

/// Join filtered lines, or report why nothing was kept.
///
/// An empty filter result with a non-zero exit means the command died before
/// printing anything parseable (a SIGKILLed test run prints the banner and
/// nothing else). Reporting "ok" there would hide a crash behind a success
/// message, so the exit code is surfaced instead.
pub fn finish(lines: Vec<String>, exit_code: i32, label: &str) -> (r: String)
    ensures
        r@ == finished(texts(lines@), exit_code as int, label@),
{
    let text = join(&lines, "\n");
    let output = trim(text.as_str());
    if !output.is_empty() {
        return output.to_string();
    }
    explain_nothing(exit_code, label)
}

/// Join filtered lines whose white space is content, or report why nothing was
/// kept. Only blank lines at the end are left out.
pub fn finish_verbatim(lines: Vec<String>, exit_code: i32, label: &str) -> (r: String)
    ensures
        r@ == finished_verbatim(texts(lines@), exit_code as int, label@),
{
    let mut kept = lines;
    let ghost all = texts(lines@);
    assert(all.take(all.len() as int) =~= all);
    loop
        invariant
            texts(kept@) == all.take(kept@.len() as int),
            kept@.len() <= all.len(),
            without_trailing_blanks(all) == without_trailing_blanks(texts(kept@)),
        ensures
            texts(kept@) == without_trailing_blanks(all),
        decreases kept@.len(),
    {
        if kept.len() == 0 {
            break;
        }
        let last = trim(kept[kept.len() - 1].as_str());
        proof {
            assert(texts(kept@).last() == kept@.last()@);
            law_blank_trims_to_nothing(kept@.last()@);
        }
        if !last.is_empty() {
            break;
        }
        assert(texts(kept@).drop_last() =~= all.take(kept@.len() - 1));
        kept.pop();
        assert(texts(kept@) =~= all.take(kept@.len() as int));
    }
    if kept.len() == 0 {
        return explain_nothing(exit_code, label);
    }
    join(&kept, "\n")
}

/// Append `… +N more <label>` plus the hint that points at the full content, where
/// there is one.
pub fn push_overflow(result: &mut Vec<String>, hidden: usize, label: &str, hint: Option<&str>)
    ensures
        texts(final(result)@) == texts(old(result)@) + overflow_lines(
            hidden as nat,
            label@,
            hint_text(hint),
        ),
{
    let mut note = String::new();
    note.append("… +");
    push_decimal(&mut note, hidden as u64);
    note.append(" more ");
    note.append(label);
    result.push(note);
    if let Some(h) = hint {
        result.push(h.to_string());
    }
    assert(texts(result@) =~= texts(old(result)@) + overflow_lines(
        hidden as nat,
        label@,
        hint_text(hint),
    ));
}

/// A command that fails without a kept line is reported with its exit code, and
/// never as "ok".
pub proof fn law_crash_is_reported(exit_code: int, label: Seq<char>)
    requires
        exit_code != 0,
    ensures
        nothing_kept(exit_code, label) != "ok"@,
        has_text(nothing_kept(exit_code, label), signed_decimal(exit_code)),
        has_text(nothing_kept(exit_code, label), label),
{
    reveal_strlit("ok");
    reveal_strlit(" exited with code ");
    let none = Seq::<char>::empty();
    let middle = " exited with code "@;
    let code = signed_decimal(exit_code);
    assert(nothing_kept(exit_code, label).len() > "ok"@.len());
    law_has_text_between(label + middle, code, none);
    assert(label + middle + code + none =~= nothing_kept(exit_code, label));
    law_has_text_between(none, label, middle + code);
    assert(none + label + (middle + code) =~= nothing_kept(exit_code, label));
}

/// The report of a command of which no line was kept is one line, and holds no escape
/// character of its own.
pub proof fn law_nothing_kept_is_one_line(exit_code: int, label: Seq<char>)
    requires
        is_plain_line(label),
        !label.contains('\u{1b}'),
    ensures
        is_plain_line(nothing_kept(exit_code, label)),
        !nothing_kept(exit_code, label).contains('\u{1b}'),
{
    reveal_strlit("ok");
    reveal_strlit(" exited with code ");
    let r = nothing_kept(exit_code, label);
    let middle = " exited with code "@;
    let code = signed_decimal(exit_code);
    if exit_code != 0 {
        law_decimal_is_digits(exit_code as nat);
        law_decimal_is_digits((-exit_code) as nat);
        assert forall|k: int| 0 <= k < code.len() implies code[k] == '-' || '0'
            <= #[trigger] code[k] <= '9' by {
            if exit_code < 0 && k > 0 {
                assert(code[k] == decimal((-exit_code) as nat)[k - 1]);
            }
        }
        assert forall|k: int| 0 <= k < r.len() implies r[k] != '\n' && r[k] != '\u{1b}' by {
            if k < label.len() {
                assert(r[k] == label[k]);
            } else if k < label.len() + middle.len() {
                assert(r[k] == middle[k - label.len()]);
            } else {
                assert(r[k] == code[k - label.len() - middle.len()]);
            }
        }
        assert(r[0] == label[0]);
        assert(r.last() == code[code.len() - 1]);
    }
}

/// Plain lines, joined by line feeds, are a text with no white space at its ends that is
/// read back as those lines.
pub proof fn law_plain_lines_read_back(lines: Seq<Seq<char>>)
    requires
        lines.len() > 0,
        forall|i: int| 0 <= i < lines.len() ==> is_plain_line(#[trigger] lines[i]),
    ensures
        trimmed(joined(lines, "\n"@)) == joined(lines, "\n"@),
        joined(lines, "\n"@).len() > 0,
        lines_of(joined(lines, "\n"@)) == lines,
{
    assert(is_plain_line(lines[0]));
    assert(is_plain_line(lines[lines.len() - 1]));
    law_joined_ends(lines, "\n"@);
    law_trimmed_same(joined(lines, "\n"@));
    assert forall|i: int| 0 <= i < lines.len() implies !(#[trigger] lines[i]).contains('\n')
        && lines[i].last() != '\r' by {
        assert(is_plain_line(lines[i]));
    }
    law_joined_lines_read_back(lines);
}

/// Every line that is not blank stands in the finished text, trimmed.
pub proof fn law_finished_shows(
    lines: Seq<Seq<char>>,
    exit_code: int,
    label: Seq<char>,
    i: int,
)
    requires
        0 <= i < lines.len(),
        !is_blank(lines[i]),
    ensures
        has_text(finished(lines, exit_code, label), trimmed(lines[i])),
        finished(lines, exit_code, label) == trimmed(joined(lines, "\n"@)),
{
    let whole = joined(lines, "\n"@);
    law_joined_has_parts(lines, "\n"@, i);
    law_trimmed_is_inner(lines[i]);
    law_blank_trims_to_nothing(lines[i]);
    law_has_text_transitive(whole, lines[i], trimmed(lines[i]));
    law_trimmed_keeps(whole, trimmed(lines[i]));
}

/// Every line that is not blank stands in the verbatim text as it is.
pub proof fn law_finished_verbatim_shows(
    lines: Seq<Seq<char>>,
    exit_code: int,
    label: Seq<char>,
    i: int,
)
    requires
        0 <= i < lines.len(),
        !is_blank(lines[i]),
    ensures
        has_text(finished_verbatim(lines, exit_code, label), lines[i]),
        finished_verbatim(lines, exit_code, label) == joined(without_trailing_blanks(lines), "\n"@),
{
    lemma_trailing_blanks(lines, i);
    law_joined_has_parts(without_trailing_blanks(lines), "\n"@, i);
}

proof fn lemma_trailing_blanks(lines: Seq<Seq<char>>, i: int)
    requires
        0 <= i < lines.len(),
        !is_blank(lines[i]),
    ensures
        i < without_trailing_blanks(lines).len(),
        without_trailing_blanks(lines)[i] == lines[i],
    decreases lines.len(),
{
    if is_blank(lines.last()) {
        lemma_trailing_blanks(lines.drop_last(), i);
    }
}

/// Where all lines are blank, both ways to finish say that nothing was kept.
pub proof fn law_blank_lines_are_nothing(
    lines: Seq<Seq<char>>,
    exit_code: int,
    label: Seq<char>,
)
    requires
        forall|i: int| 0 <= i < lines.len() ==> is_blank(#[trigger] lines[i]),
    ensures
        finished(lines, exit_code, label) == nothing_kept(exit_code, label),
        finished_verbatim(lines, exit_code, label) == nothing_kept(exit_code, label),
    decreases lines.len(),
{
    lemma_joined_blank(lines);
    law_blank_trims_to_nothing(joined(lines, "\n"@));
    if lines.len() > 0 {
        assert(is_blank(lines[lines.len() - 1]));
        assert forall|i: int| 0 <= i < lines.len() - 1 implies is_blank(
            #[trigger] lines.drop_last()[i],
        ) by {
            assert(lines.drop_last()[i] == lines[i]);
        }
        law_blank_lines_are_nothing(lines.drop_last(), exit_code, label);
    }
}

proof fn lemma_joined_blank(lines: Seq<Seq<char>>)
    requires
        forall|i: int| 0 <= i < lines.len() ==> is_blank(#[trigger] lines[i]),
    ensures
        is_blank(joined(lines, "\n"@)),
    decreases lines.len(),
{
    reveal_strlit("\n");
    if lines.len() > 1 {
        assert forall|i: int| 0 <= i < lines.len() - 1 implies is_blank(
            #[trigger] lines.drop_last()[i],
        ) by {
            assert(lines.drop_last()[i] == lines[i]);
        }
        lemma_joined_blank(lines.drop_last());
        assert(is_blank(lines[lines.len() - 1]));
        let head = joined(lines.drop_last(), "\n"@);
        let s = joined(lines, "\n"@);
        assert forall|k: int| 0 <= k < s.len() implies is_white_space(#[trigger] s[k]) by {
            if k < head.len() {
                assert(s[k] == head[k]);
            } else if k == head.len() {
                assert(s[k] == '\n');
            } else {
                assert(s[k] == lines.last()[k - head.len() - 1]);
            }
        }
    } else if lines.len() == 1 {
        assert(is_blank(lines[0]));
    }
}

/// The two answers of a command of which no line was kept.
pub proof fn law_nothing_kept_in_words(exit_code: int, label: Seq<char>)
    ensures
        exit_code == 0 <==> nothing_kept(exit_code, label) == "ok"@,
        exit_code != 0 ==> label.is_prefix_of(nothing_kept(exit_code, label)) && nothing_kept(
            exit_code,
            label,
        ).skip(label.len() as int) == " exited with code "@ + signed_decimal(exit_code),
{
    if exit_code != 0 {
        law_crash_is_reported(exit_code, label);
        let r = nothing_kept(exit_code, label);
        assert(r.subrange(0, label.len() as int) =~= label);
        assert(r.skip(label.len() as int) =~= " exited with code "@ + signed_decimal(exit_code));
    }
}

/// What is cut off the end of a verbatim text is blank lines, all of them, and nothing else.
pub proof fn law_only_trailing_blanks_are_cut(lines: Seq<Seq<char>>)
    ensures
        ({
            let n = without_trailing_blanks(lines).len() as int;
            &&& n <= lines.len()
            &&& without_trailing_blanks(lines) == lines.take(n)
            &&& forall|k: int| n <= k < lines.len() ==> is_blank(#[trigger] lines[k])
            &&& n > 0 ==> !is_blank(lines[n - 1])
        }),
    decreases lines.len(),
{
    let n = without_trailing_blanks(lines).len() as int;
    if lines.len() > 0 && is_blank(lines.last()) {
        law_only_trailing_blanks_are_cut(lines.drop_last());
        assert(lines.drop_last().take(n) =~= lines.take(n));
        assert forall|k: int| n <= k < lines.len() implies is_blank(#[trigger] lines[k]) by {
            if k < lines.len() - 1 {
                assert(lines.drop_last()[k] == lines[k]);
            }
        }
        if n > 0 {
            assert(lines.drop_last()[n - 1] == lines[n - 1]);
        }
    } else {
        assert(lines.take(n) =~= lines);
    }
}

/// A verbatim text whose last line is not blank is its lines, one behind the other.
pub proof fn law_verbatim_text_is_its_lines(
    lines: Seq<Seq<char>>,
    exit_code: int,
    label: Seq<char>,
)
    requires
        lines.len() > 0,
        !is_blank(lines.last()),
    ensures
        finished_verbatim(lines, exit_code, label) == joined(lines, "\n"@),
{
}

/// Hidden items are one line that says how many, and the hint behind it where there is one.
pub proof fn law_overflow_in_words(hidden: nat, label: Seq<char>, hint: Seq<char>)
    ensures
        overflow_lines(hidden, label, None) == seq![
            "… +"@ + decimal(hidden) + " more "@ + label,
        ],
        overflow_lines(hidden, label, Some(hint)) == seq![
            "… +"@ + decimal(hidden) + " more "@ + label,
            hint,
        ],
{
}

/// The content of an optional string is that of the string.
pub proof fn law_hint_text(hint: &str)
    ensures
        hint_text(Some(hint)) == Some(hint@),
        hint_text(None) is None,
{
}

} // verus!
