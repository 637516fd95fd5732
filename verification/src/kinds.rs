//! Trimmed lines, each with what the patterns say of it, sorted by kind.
use crate::limits::CAP_LIST;
use crate::lines::{
    joined, law_joined_holds_the_parts_characters, law_joined_lines_read_back,
    law_lines_hold_no_line_feed, law_lines_hold_the_texts_characters, law_lines_of_both, lines_of,
};
use crate::listing::{listing_lines, ListingParts};
use crate::report::{
    finished, is_plain_line, law_blank_lines_are_nothing, law_finished_shows,
    law_nothing_kept_is_one_line, law_plain_lines_read_back,
};
use crate::text::{
    is_blank, law_blank_trims_to_nothing, law_trimmed_holds_the_texts_characters,
    law_trimmed_is_inner, law_trimmed_same, law_trimmed_twice, trimmed,
};
use vstd::prelude::*;

verus! {

/// The lines of `text`, trimmed, each with what the patterns say of it.
pub open spec fn noted_trimmed<M>(text: Seq<char>, matches: spec_fn(Seq<char>) -> M) -> Seq<
    (Seq<char>, M),
> {
    lines_of(text).map_values(|l: Seq<char>| (trimmed(l), matches(trimmed(l))))
}

/// The lines of a given kind.
pub open spec fn picked<M, K>(
    ls: Seq<(Seq<char>, M)>,
    kind: spec_fn((Seq<char>, M)) -> K,
    k: K,
) -> Seq<Seq<char>>
    decreases ls.len(),
{
    if ls.len() == 0 {
        seq![]
    } else if kind(ls.last()) == k {
        picked(ls.drop_last(), kind, k).push(ls.last().0)
    } else {
        picked(ls.drop_last(), kind, k)
    }
}

/// Every line of a kind is found among the lines of that kind.
pub proof fn law_picked_has<M, K>(
    ls: Seq<(Seq<char>, M)>,
    kind: spec_fn((Seq<char>, M)) -> K,
    j: int,
)
    requires
        0 <= j < ls.len(),
    ensures
        picked(ls, kind, kind(ls[j])).contains(ls[j].0),
    decreases ls.len(),
{
    let k = kind(ls[j]);
    let init = picked(ls.drop_last(), kind, k);
    if j == ls.len() - 1 {
        assert(picked(ls, kind, k)[init.len() as int] == ls[j].0);
    } else {
        law_picked_has(ls.drop_last(), kind, j);
        let i = choose|i: int| 0 <= i < init.len() && init[i] == ls[j].0;
        assert(picked(ls, kind, k)[i] == ls[j].0);
    }
}

/// Nothing but the lines of a kind is found among the lines of that kind.
pub proof fn law_picked_is_of_kind<M, K>(
    ls: Seq<(Seq<char>, M)>,
    kind: spec_fn((Seq<char>, M)) -> K,
    k: K,
    i: int,
)
    requires
        0 <= i < picked(ls, kind, k).len(),
    ensures
        exists|j: int|
            0 <= j < ls.len() && kind(#[trigger] ls[j]) == k && ls[j].0 == picked(ls, kind, k)[i],
    decreases ls.len(),
{
    let init = picked(ls.drop_last(), kind, k);
    if i < init.len() {
        law_picked_is_of_kind(ls.drop_last(), kind, k, i);
        let j = choose|j: int|
            0 <= j < ls.len() - 1 && kind(#[trigger] ls.drop_last()[j]) == k
                && ls.drop_last()[j].0 == init[i];
        assert(ls[j] == ls.drop_last()[j]);
    } else {
        assert(kind(ls[ls.len() - 1]) == k);
    }
}

/// The lines of a kind in two lists are those of the one and then those of the other.
pub proof fn law_picked_of_both<M, K>(
    a: Seq<(Seq<char>, M)>,
    b: Seq<(Seq<char>, M)>,
    kind: spec_fn((Seq<char>, M)) -> K,
    k: K,
)
    ensures
        picked(a + b, kind, k) == picked(a, kind, k) + picked(b, kind, k),
    decreases b.len(),
{
    if b.len() == 0 {
        assert(a + b =~= a);
        assert(picked(a, kind, k) + picked(b, kind, k) =~= picked(a, kind, k));
    } else {
        assert((a + b).drop_last() =~= a + b.drop_last());
        law_picked_of_both(a, b.drop_last(), kind, k);
        assert(picked(a + b, kind, k) =~= picked(a, kind, k) + picked(b, kind, k));
    }
}

/// Of one line, its kind has the line and every other kind has nothing.
pub proof fn law_picked_of_one<M, K>(
    l: (Seq<char>, M),
    kind: spec_fn((Seq<char>, M)) -> K,
    k: K,
)
    ensures
        kind(l) == k ==> picked(seq![l], kind, k) == seq![l.0],
        kind(l) != k ==> picked(seq![l], kind, k) == Seq::<Seq<char>>::empty(),
        picked(Seq::<(Seq<char>, M)>::empty(), kind, k) == Seq::<Seq<char>>::empty(),
{
    reveal_with_fuel(picked, 2);
    assert(seq![l].drop_last() =~= Seq::<(Seq<char>, M)>::empty());
    assert(seq![l].last() == l);
}

/// Each noted line is a line of the text, trimmed, in its place.
pub proof fn law_noted_in_place<M>(text: Seq<char>, matches: spec_fn(Seq<char>) -> M, j: int)
    ensures
        noted_trimmed(text, matches).len() == lines_of(text).len(),
        0 <= j < lines_of(text).len() ==> noted_trimmed(text, matches)[j] == (
            trimmed(lines_of(text)[j]),
            matches(trimmed(lines_of(text)[j])),
        ),
{
}

/// Of lines that are all of one kind, that kind has all.
proof fn lemma_picked_all<M, K>(
    ls: Seq<(Seq<char>, M)>,
    kind: spec_fn((Seq<char>, M)) -> K,
    k: K,
    texts: Seq<Seq<char>>,
)
    requires
        texts.len() == ls.len(),
        forall|j: int| 0 <= j < ls.len() ==> kind(#[trigger] ls[j]) == k && ls[j].0 == texts[j],
    ensures
        picked(ls, kind, k) == texts,
    decreases ls.len(),
{
    if ls.len() > 0 {
        assert(kind(ls[ls.len() - 1]) == k);
        assert forall|j: int| 0 <= j < ls.len() - 1 implies kind(#[trigger] ls.drop_last()[j]) == k
            && ls.drop_last()[j].0 == texts.drop_last()[j] by {
            assert(ls.drop_last()[j] == ls[j]);
        }
        lemma_picked_all(ls.drop_last(), kind, k, texts.drop_last());
    }
    assert(picked(ls, kind, k) =~= texts);
}

/// Of lines of other kinds, a kind has none.
proof fn lemma_picked_none<M, K>(
    ls: Seq<(Seq<char>, M)>,
    kind: spec_fn((Seq<char>, M)) -> K,
    k: K,
)
    requires
        forall|j: int| 0 <= j < ls.len() ==> kind(#[trigger] ls[j]) != k,
    ensures
        picked(ls, kind, k) == Seq::<Seq<char>>::empty(),
{
    if picked(ls, kind, k).len() > 0 {
        law_picked_is_of_kind(ls, kind, k, 0);
    }
    assert(picked(ls, kind, k) =~= Seq::<Seq<char>>::empty());
}

/// A noted line that is not empty has nothing left to trim.
pub proof fn law_noted_is_trimmed<M>(text: Seq<char>, matches: spec_fn(Seq<char>) -> M, j: int)
    requires
        0 <= j < noted_trimmed(text, matches).len(),
        noted_trimmed(text, matches)[j].0.len() > 0,
    ensures
        trimmed(noted_trimmed(text, matches)[j].0) == noted_trimmed(text, matches)[j].0,
        !is_blank(noted_trimmed(text, matches)[j].0),
{
    let line = lines_of(text)[j];
    law_trimmed_twice(line);
    law_blank_trims_to_nothing(trimmed(line));
}

/// Whole lines of other kinds, wherever they are put in, change nothing in the lines of
/// a kind.
pub proof fn law_other_kinds_change_nothing<M, K>(
    before: Seq<char>,
    more: Seq<char>,
    after: Seq<char>,
    matches: spec_fn(Seq<char>) -> M,
    kind: spec_fn((Seq<char>, M)) -> K,
    k: K,
)
    requires
        before.len() == 0 || before.last() == '\n',
        more.len() == 0 || more.last() == '\n',
        forall|j: int|
            0 <= j < noted_trimmed(more, matches).len() ==> kind(
                #[trigger] noted_trimmed(more, matches)[j],
            ) != k,
    ensures
        picked(noted_trimmed(before + more + after, matches), kind, k) == picked(
            noted_trimmed(before + after, matches),
            kind,
            k,
        ),
{
    let b = noted_trimmed(before, matches);
    let m = noted_trimmed(more, matches);
    let a = noted_trimmed(after, matches);
    law_lines_of_both(before, after);
    law_lines_of_both(more, after);
    law_lines_of_both(before, more + after);
    assert(before + more + after =~= before + (more + after));
    assert(noted_trimmed(before + after, matches) =~= b + a);
    assert(noted_trimmed(before + more + after, matches) =~= b + (m + a));
    law_picked_of_both(b, a, kind, k);
    law_picked_of_both(m, a, kind, k);
    law_picked_of_both(b, m + a, kind, k);
    lemma_picked_none(m, kind, k);
    assert(picked(b + (m + a), kind, k) =~= picked(b + a, kind, k));
}

/// The items and the messages of a text.
pub open spec fn sorted_parts<M, K>(
    ls: Seq<(Seq<char>, M)>,
    kind: spec_fn((Seq<char>, M)) -> K,
    item: K,
    message: K,
) -> ListingParts {
    ListingParts { items: picked(ls, kind, item), rest: picked(ls, kind, message) }
}

/// The report on the items and the messages of a text.
pub open spec fn sorted_report<M, K>(
    text: Seq<char>,
    matches: spec_fn(Seq<char>) -> M,
    kind: spec_fn((Seq<char>, M)) -> K,
    item: K,
    message: K,
    noun: Seq<char>,
    hint: Option<Seq<char>>,
    exit_code: int,
    label: Seq<char>,
) -> Seq<char> {
    finished(
        listing_lines(sorted_parts(noted_trimmed(text, matches), kind, item, message), noun, hint),
        exit_code,
        label,
    )
}

/// The items and the messages of a text are plain lines, of which the patterns say what
/// they said before, and hold no escape character where the text holds none.
pub(crate) proof fn lemma_listed_lines<M, K>(
    text: Seq<char>,
    matches: spec_fn(Seq<char>) -> M,
    kind: spec_fn((Seq<char>, M)) -> K,
    k: K,
    i: int,
)
    requires
        forall|l: (Seq<char>, M)| #[trigger] kind(l) == k ==> l.0.len() > 0,
        0 <= i < picked(noted_trimmed(text, matches), kind, k).len(),
    ensures
        ({
            let line = picked(noted_trimmed(text, matches), kind, k)[i];
            &&& is_plain_line(line)
            &&& kind((line, matches(line))) == k
            &&& !text.contains('\u{1b}') ==> !line.contains('\u{1b}')
        }),
{
    let ls = noted_trimmed(text, matches);
    let line = picked(ls, kind, k)[i];
    law_picked_is_of_kind(ls, kind, k, i);
    let j = choose|j: int| 0 <= j < ls.len() && kind(#[trigger] ls[j]) == k && ls[j].0 == line;
    let whole = lines_of(text)[j];
    law_trimmed_is_inner(whole);
    law_lines_hold_no_line_feed(text, j);
    if line.contains('\n') {
        law_trimmed_holds_the_texts_characters(whole, '\n');
    }
    if line.contains('\u{1b}') {
        law_trimmed_holds_the_texts_characters(whole, '\u{1b}');
        law_lines_hold_the_texts_characters(text, j, '\u{1b}');
    }
}

/// A report on at most as many items as are shown, read as a text of its own, gives the
/// same report.
pub proof fn law_report_is_stable<M, K>(
    text: Seq<char>,
    matches: spec_fn(Seq<char>) -> M,
    kind: spec_fn((Seq<char>, M)) -> K,
    item: K,
    message: K,
    noun: Seq<char>,
    hint: Option<Seq<char>>,
    other: Option<Seq<char>>,
    exit_code: int,
    label: Seq<char>,
)
    requires
        item != message,
        forall|l: (Seq<char>, M)| #[trigger] kind(l) == item ==> l.0.len() > 0,
        forall|l: (Seq<char>, M)| #[trigger] kind(l) == message ==> l.0.len() > 0,
        is_plain_line(label),
        !label.contains('\u{1b}'),
        picked(noted_trimmed(text, matches), kind, item).len() <= CAP_LIST,
    ensures
        ({
            let r = sorted_report(
                text, matches, kind, item, message, noun, hint, exit_code, label,
            );
            &&& sorted_report(r, matches, kind, item, message, noun, other, exit_code, label) == r
            &&& !text.contains('\u{1b}') ==> !r.contains('\u{1b}')
        }),
{
    let p = sorted_parts(noted_trimmed(text, matches), kind, item, message);
    let all = listing_lines(p, noun, hint);
    let r = finished(all, exit_code, label);
    let n = p.items.len() as int;
    assert(all =~= p.items + p.rest);
    assert forall|i: int| 0 <= i < all.len() implies is_plain_line(#[trigger] all[i]) && (
    !text.contains('\u{1b}') ==> !all[i].contains('\u{1b}')) by {
        if i < n {
            lemma_listed_lines(text, matches, kind, item, i);
        } else {
            lemma_listed_lines(text, matches, kind, message, i - n);
        }
    }
    if all.len() > 0 {
        law_plain_lines_read_back(all);
        assert(is_plain_line(all[0]));
        law_trimmed_same(all[0]);
        law_finished_shows(all, exit_code, label, 0);
        if !text.contains('\u{1b}') {
            reveal_strlit("\n");
            law_joined_holds_the_parts_characters(all, "\n"@, '\u{1b}');
        }
        let again = noted_trimmed(r, matches);
        assert forall|i: int| 0 <= i < all.len() implies #[trigger] again[i] == (
            all[i],
            matches(all[i]),
        ) by {
            assert(is_plain_line(all[i]));
            law_trimmed_same(all[i]);
        }
        let first = again.take(n);
        let second = again.skip(n);
        assert(again =~= first + second);
        assert forall|i: int| 0 <= i < n implies kind(#[trigger] first[i]) == item && first[i].0
            == p.items[i] by {
            assert(first[i] == again[i]);
            lemma_listed_lines(text, matches, kind, item, i);
        }
        assert forall|i: int| 0 <= i < second.len() implies kind(#[trigger] second[i]) == message
            && second[i].0 == p.rest[i] by {
            assert(second[i] == again[n + i]);
            assert(all[n + i] == p.rest[i]);
            lemma_listed_lines(text, matches, kind, message, i);
        }
        lemma_picked_all(first, kind, item, p.items);
        lemma_picked_all(second, kind, message, p.rest);
        lemma_picked_none(first, kind, message);
        lemma_picked_none(second, kind, item);
        law_picked_of_both(first, second, kind, item);
        law_picked_of_both(first, second, kind, message);
        assert(picked(again, kind, item) =~= p.items);
        assert(picked(again, kind, message) =~= p.rest);
    } else {
        law_blank_lines_are_nothing(all, exit_code, label);
        law_nothing_kept_is_one_line(exit_code, label);
        law_trimmed_same(r);
        let one = seq![r];
        assert(joined(one, "\n"@) == r);
        law_joined_lines_read_back(one);
        let again = noted_trimmed(r, matches);
        assert(again =~= seq![(r, matches(r))]);
        assert(again.drop_last() =~= Seq::<(Seq<char>, M)>::empty());
        reveal_with_fuel(picked, 2);
        let k = kind(again.last());
        let shown = listing_lines(sorted_parts(again, kind, item, message), noun, other);
        if k == item || k == message {
            assert(shown =~= one);
            law_finished_shows(one, exit_code, label, 0);
        } else {
            assert(shown =~= all);
        }
    }
}

} // verus!
