//! Characters and searches in text: white space, trimming, prefixes, suffixes,
//! substrings and decimal numbers.
use vstd::prelude::*;

verus! {

/// `String::push` appends the given character to the end of the string.
pub assume_specification[ String::push ](s: &mut String, c: char)
    ensures
        final(s)@ == old(s)@.push(c),
;

/// The characters with Unicode's `White_Space` property.
pub open spec fn is_white_space(c: char) -> bool {
    ||| '\u{9}' <= c <= '\u{d}'
    ||| c == ' '
    ||| c == '\u{85}'
    ||| c == '\u{a0}'
    ||| c == '\u{1680}'
    ||| '\u{2000}' <= c <= '\u{200a}'
    ||| c == '\u{2028}'
    ||| c == '\u{2029}'
    ||| c == '\u{202f}'
    ||| c == '\u{205f}'
    ||| c == '\u{3000}'
}

/// `s` without the white space that it starts with.
pub open spec fn trimmed_start(s: Seq<char>) -> Seq<char>
    decreases s.len(),
{
    if s.len() > 0 && is_white_space(s[0]) {
        trimmed_start(s.drop_first())
    } else {
        s
    }
}

/// `s` without the white space that it ends with.
pub open spec fn trimmed_end(s: Seq<char>) -> Seq<char>
    decreases s.len(),
{
    if s.len() > 0 && is_white_space(s.last()) {
        trimmed_end(s.drop_last())
    } else {
        s
    }
}

/// `s` without the white space around it.
pub open spec fn trimmed(s: Seq<char>) -> Seq<char> {
    trimmed_end(trimmed_start(s))
}

/// Whether `s` is white space only.
pub open spec fn is_blank(s: Seq<char>) -> bool {
    forall|i: int| 0 <= i < s.len() ==> is_white_space(#[trigger] s[i])
}

/// Whether `part` stands somewhere in `s`.
pub open spec fn has_text(s: Seq<char>, part: Seq<char>) -> bool {
    exists|i: int|
        0 <= i <= s.len() - part.len() && #[trigger] s.subrange(i, i + part.len()) == part
}

/// How often `c` stands in `s`.
pub open spec fn occurrences(s: Seq<char>, c: char) -> nat
    decreases s.len(),
{
    if s.len() == 0 {
        0
    } else if s.last() == c {
        occurrences(s.drop_last(), c) + 1
    } else {
        occurrences(s.drop_last(), c)
    }
}

/// The decimal digits of `n`.
pub open spec fn decimal(n: nat) -> Seq<char>
    decreases n,
{
    if n < 10 {
        seq![(48 + n) as char]
    } else {
        decimal(n / 10).push((48 + n % 10) as char)
    }
}

/// `n` in decimal, behind a minus sign where it is negative.
pub open spec fn signed_decimal(n: int) -> Seq<char> {
    if n < 0 {
        seq!['-'] + decimal((-n) as nat)
    } else {
        decimal(n as nat)
    }
}

/// Whether `c` has the `White_Space` property.
pub fn white_space(c: char) -> (r: bool)
    ensures
        r == is_white_space(c),
{
    ('\u{9}' <= c && c <= '\u{d}') || c == ' ' || c == '\u{85}' || c == '\u{a0}' || c == '\u{1680}'
        || ('\u{2000}' <= c && c <= '\u{200a}') || c == '\u{2028}' || c == '\u{2029}' || c
        == '\u{202f}' || c == '\u{205f}' || c == '\u{3000}'
}

/// The characters of a string.
pub fn chars_of(s: &str) -> (r: Vec<char>)
    ensures
        r@ == s@,
{
    let mut out: Vec<char> = Vec::new();
    for c in it: s.chars()
        invariant
            it.seq() == s@,
            out@ == it.seq().take(it.index()),
    {
        out.push(c);
        assert(it.seq().take(it.index() + 1) =~= it.seq().take(it.index()).push(c));
    }
    out
}

/// The string of the characters from `from` up to `to`.
pub fn string_of(cs: &Vec<char>, from: usize, to: usize) -> (r: String)
    requires
        from <= to <= cs@.len(),
    ensures
        r@ == cs@.subrange(from as int, to as int),
{
    let mut out = String::new();
    let mut i: usize = from;
    while i < to
        invariant
            from <= i <= to <= cs@.len(),
            out@ == cs@.subrange(from as int, i as int),
        decreases to - i,
    {
        out.push(cs[i]);
        i += 1;
    }
    out
}

/// The text without the white space around it.
pub fn trim<'a>(s: &'a str) -> (r: &'a str)
    ensures
        r@ == trimmed(s@),
{
    let cs = chars_of(s);
    let mut from: usize = 0;
    assert(s@.skip(0) =~= s@);
    while from < cs.len() && white_space(cs[from])
        invariant
            cs@ == s@,
            from <= cs@.len(),
            trimmed_start(s@) == trimmed_start(s@.skip(from as int)),
        decreases cs@.len() - from,
    {
        assert(s@.skip(from as int).drop_first() =~= s@.skip(from + 1));
        from += 1;
    }
    let mut to: usize = cs.len();
    let ghost rest = s@.skip(from as int);
    assert(trimmed_start(s@) == rest);
    assert(s@.subrange(from as int, to as int) =~= rest);
    while from < to && white_space(cs[to - 1])
        invariant
            cs@ == s@,
            from <= to <= cs@.len(),
            trimmed_end(rest) == trimmed_end(s@.subrange(from as int, to as int)),
        decreases to,
    {
        assert(s@.subrange(from as int, to as int).drop_last() =~= s@.subrange(
            from as int,
            to - 1,
        ));
        to -= 1;
    }
    s.substring_char(from, to)
}

/// Whether `s` begins with `prefix`.
pub fn starts_with(s: &str, prefix: &str) -> (r: bool)
    ensures
        r == prefix@.is_prefix_of(s@),
{
    let a = chars_of(s);
    let b = chars_of(prefix);
    matches_at(&a, &b, 0)
}

/// Whether `s` ends with `suffix`.
pub fn ends_with(s: &str, suffix: &str) -> (r: bool)
    ensures
        r == suffix@.is_suffix_of(s@),
{
    let a = chars_of(s);
    let b = chars_of(suffix);
    if b.len() > a.len() {
        return false;
    }
    matches_at(&a, &b, a.len() - b.len())
}

/// Whether `part` stands in `cs` at index `at`.
fn matches_at(cs: &Vec<char>, part: &Vec<char>, at: usize) -> (r: bool)
    requires
        at <= cs@.len(),
    ensures
        r == (at + part@.len() <= cs@.len() && cs@.subrange(at as int, at + part@.len()) == part@),
{
    if part.len() > cs.len() - at {
        return false;
    }
    let mut i: usize = 0;
    while i < part.len()
        invariant
            at + part@.len() <= cs@.len() == cs.len(),
            i <= part@.len(),
            forall|k: int| 0 <= k < i ==> cs@[at + k] == #[trigger] part@[k],
        decreases part@.len() - i,
    {
        if cs[at + i] != part[i] {
            assert(cs@.subrange(at as int, at + part@.len())[i as int] != part@[i as int]);
            return false;
        }
        i += 1;
    }
    assert(cs@.subrange(at as int, at + part@.len()) =~= part@);
    true
}

/// Whether `part` stands somewhere in `s`.
pub fn contains(s: &str, part: &str) -> (r: bool)
    ensures
        r == has_text(s@, part@),
{
    let a = chars_of(s);
    let b = chars_of(part);
    let mut i: usize = 0;
    while i < a.len()
        invariant
            i <= a@.len(),
            forall|k: int|
                0 <= k < i && k + b@.len() <= a@.len() ==> #[trigger] a@.subrange(k, k + b@.len())
                    != b@,
            a@ == s@,
            b@ == part@,
        decreases a@.len() - i,
    {
        if matches_at(&a, &b, i) {
            return true;
        }
        i += 1;
    }
    matches_at(&a, &b, i)
}

/// Whether `c` stands somewhere in `s`.
pub fn contains_char(s: &str, c: char) -> (r: bool)
    ensures
        r == s@.contains(c),
{
    let cs = chars_of(s);
    let mut i: usize = 0;
    while i < cs.len()
        invariant
            cs@ == s@,
            i <= cs@.len(),
            forall|k: int| 0 <= k < i ==> s@[k] != c,
        decreases cs@.len() - i,
    {
        if cs[i] == c {
            assert(s@[i as int] == c);
            return true;
        }
        i += 1;
    }
    false
}

/// How often `c` stands in `s`.
pub fn count_char(s: &str, c: char) -> (r: usize)
    ensures
        r == occurrences(s@, c),
{
    let cs = chars_of(s);
    let mut n: usize = 0;
    let mut i: usize = 0;
    assert(s@.take(0) =~= Seq::<char>::empty());
    while i < cs.len()
        invariant
            cs@ == s@,
            n <= i <= cs@.len(),
            n == occurrences(s@.take(i as int), c),
        decreases cs@.len() - i,
    {
        assert(s@.take(i + 1).drop_last() =~= s@.take(i as int));
        if cs[i] == c {
            n += 1;
        }
        i += 1;
    }
    assert(s@.take(i as int) =~= s@);
    n
}

/// Appends `n` in decimal.
pub fn push_decimal(out: &mut String, n: u64)
    ensures
        final(out)@ == old(out)@ + decimal(n as nat),
    decreases n,
{
    if n >= 10 {
        push_decimal(out, n / 10);
    }
    out.push((48u8 + (n % 10) as u8) as char);
}

/// `n` in decimal.
pub fn signed_to_string(n: i32) -> (r: String)
    ensures
        r@ == signed_decimal(n as int),
{
    let mut out = String::new();
    if n < 0 {
        out.push('-');
        push_decimal(&mut out, (-(n as i64)) as u64);
    } else {
        push_decimal(&mut out, n as u64);
    }
    out
}

/// Trimming leaves nothing of a text if and only if the text is blank.
pub proof fn law_blank_trims_to_nothing(s: Seq<char>)
    ensures
        trimmed(s).len() == 0 <==> is_blank(s),
{
    lemma_trimmed_start_blank(s);
    lemma_trimmed_end_blank(trimmed_start(s));
}

proof fn lemma_trimmed_start_blank(s: Seq<char>)
    ensures
        is_blank(trimmed_start(s)) <==> is_blank(s),
    decreases s.len(),
{
    if s.len() > 0 && is_white_space(s[0]) {
        lemma_trimmed_start_blank(s.drop_first());
        assert forall|i: int| is_blank(s.drop_first()) && 0 <= i < s.len() implies is_white_space(
            #[trigger] s[i],
        ) by {
            if i > 0 {
                assert(s.drop_first()[i - 1] == s[i]);
            }
        }
        assert forall|i: int| is_blank(s) && 0 <= i < s.len() - 1 implies is_white_space(
            #[trigger] s.drop_first()[i],
        ) by {
            assert(s.drop_first()[i] == s[i + 1]);
        }
    }
}

proof fn lemma_trimmed_end_blank(s: Seq<char>)
    ensures
        trimmed_end(s).len() == 0 <==> is_blank(s),
    decreases s.len(),
{
    if s.len() > 0 {
        if is_white_space(s.last()) {
            lemma_trimmed_end_blank(s.drop_last());
            assert forall|i: int|
                is_blank(s.drop_last()) && 0 <= i < s.len() implies is_white_space(
                #[trigger] s[i],
            ) by {
                if i < s.len() - 1 {
                    assert(s.drop_last()[i] == s[i]);
                }
            }
            assert forall|i: int| is_blank(s) && 0 <= i < s.len() - 1 implies is_white_space(
                #[trigger] s.drop_last()[i],
            ) by {
                assert(s.drop_last()[i] == s[i]);
            }
        } else {
            assert(!is_white_space(s[s.len() - 1]));
        }
    }
}

/// Where a text stands in a second and the second in a third, the first stands in the
/// third.
pub proof fn law_has_text_transitive(s: Seq<char>, part: Seq<char>, inner: Seq<char>)
    requires
        has_text(s, part),
        has_text(part, inner),
    ensures
        has_text(s, inner),
{
    let i = choose|i: int|
        0 <= i <= s.len() - part.len() && #[trigger] s.subrange(i, i + part.len()) == part;
    let j = choose|j: int|
        0 <= j <= part.len() - inner.len() && #[trigger] part.subrange(j, j + inner.len()) == inner;
    assert(s.subrange(i + j, i + j + inner.len()) =~= inner);
}

/// A text stands between any two others that it is put between.
pub proof fn law_has_text_between(before: Seq<char>, part: Seq<char>, after: Seq<char>)
    ensures
        has_text(before + part + after, part),
{
    let s = before + part + after;
    let i = before.len() as int;
    assert(s.subrange(i, i + part.len()) =~= part);
}

/// Trimming leaves what neither begins nor ends with white space.
pub proof fn law_trimmed_keeps(s: Seq<char>, part: Seq<char>)
    requires
        has_text(s, part),
        part.len() > 0,
        !is_white_space(part[0]),
        !is_white_space(part.last()),
    ensures
        has_text(trimmed(s), part),
{
    lemma_trimmed_start_keeps(s, part);
    lemma_trimmed_end_keeps(trimmed_start(s), part);
}

proof fn lemma_trimmed_start_keeps(s: Seq<char>, part: Seq<char>)
    requires
        has_text(s, part),
        part.len() > 0,
        !is_white_space(part[0]),
    ensures
        has_text(trimmed_start(s), part),
    decreases s.len(),
{
    if s.len() > 0 && is_white_space(s[0]) {
        let i = choose|i: int|
            0 <= i <= s.len() - part.len() && #[trigger] s.subrange(i, i + part.len()) == part;
        assert(part[0] == s[i]);
        assert(s.drop_first().subrange(i - 1, i - 1 + part.len()) =~= part);
        lemma_trimmed_start_keeps(s.drop_first(), part);
    }
}

proof fn lemma_trimmed_end_keeps(s: Seq<char>, part: Seq<char>)
    requires
        has_text(s, part),
        part.len() > 0,
        !is_white_space(part.last()),
    ensures
        has_text(trimmed_end(s), part),
    decreases s.len(),
{
    if s.len() > 0 && is_white_space(s.last()) {
        let i = choose|i: int|
            0 <= i <= s.len() - part.len() && #[trigger] s.subrange(i, i + part.len()) == part;
        assert(part.last() == s[i + part.len() - 1]);
        assert(s.drop_last().subrange(i, i + part.len()) =~= part);
        lemma_trimmed_end_keeps(s.drop_last(), part);
    }
}

/// What trimming leaves of a text stands in the text, and has no white space at its
/// ends.
pub proof fn law_trimmed_is_inner(s: Seq<char>)
    ensures
        has_text(s, trimmed(s)),
        trimmed(s).len() > 0 ==> !is_white_space(trimmed(s)[0]) && !is_white_space(
            trimmed(s).last(),
        ),
{
    lemma_trimmed_start_is_suffix(s);
    let t = trimmed_start(s);
    lemma_trimmed_end_is_prefix(t);
    let n = s.len() - t.len();
    assert(s.subrange(n, n + trimmed(s).len()) =~= trimmed(s));
}

proof fn lemma_trimmed_start_is_suffix(s: Seq<char>)
    ensures
        trimmed_start(s).len() <= s.len(),
        trimmed_start(s) == s.skip(s.len() - trimmed_start(s).len()),
        trimmed_start(s).len() > 0 ==> !is_white_space(trimmed_start(s)[0]),
        forall|k: int|
            0 <= k < s.len() - trimmed_start(s).len() ==> is_white_space(#[trigger] s[k]),
    decreases s.len(),
{
    if s.len() > 0 && is_white_space(s[0]) {
        lemma_trimmed_start_is_suffix(s.drop_first());
        let t = trimmed_start(s);
        assert forall|k: int| 0 <= k < s.len() - t.len() implies is_white_space(
            #[trigger] s[k],
        ) by {
            if k > 0 {
                assert(s.drop_first()[k - 1] == s[k]);
            }
        }
        assert(s.drop_first().skip(s.len() - 1 - t.len()) =~= s.skip(s.len() - t.len()));
    } else {
        assert(s.skip(0) =~= s);
    }
}

proof fn lemma_trimmed_end_is_prefix(s: Seq<char>)
    ensures
        trimmed_end(s).len() <= s.len(),
        trimmed_end(s) == s.take(trimmed_end(s).len() as int),
        trimmed_end(s).len() > 0 ==> !is_white_space(trimmed_end(s).last()),
        forall|k: int| trimmed_end(s).len() <= k < s.len() ==> is_white_space(#[trigger] s[k]),
    decreases s.len(),
{
    if s.len() > 0 && is_white_space(s.last()) {
        lemma_trimmed_end_is_prefix(s.drop_last());
        assert forall|k: int| trimmed_end(s).len() <= k < s.len() implies is_white_space(
            #[trigger] s[k],
        ) by {
            if k < s.len() - 1 {
                assert(s.drop_last()[k] == s[k]);
            }
        }
        let n = trimmed_end(s).len() as int;
        assert(s.drop_last().take(n) =~= s.take(n));
    } else {
        assert(s.take(s.len() as int) =~= s);
    }
}

/// White space is what Unicode counts as such, by the characters' numbers.
pub proof fn law_white_space_by_number(c: char)
    ensures
        is_white_space(c) <==> ({
            let n = c as u32;
            ||| 9 <= n <= 13
            ||| n == 32 || n == 133 || n == 160 || n == 5760
            ||| 8192 <= n <= 8202
            ||| n == 8232 || n == 8233 || n == 8239 || n == 8287 || n == 12288
        }),
{
}

/// Trimming cuts white space off at both ends, and nothing else.
pub proof fn law_trimmed_cuts_white_space(s: Seq<char>)
    ensures
        exists|a: int, b: int|
            {
                &&& 0 <= a <= b <= s.len()
                &&& trimmed(s) == #[trigger] s.subrange(a, b)
                &&& forall|k: int| 0 <= k < a ==> is_white_space(#[trigger] s[k])
                &&& forall|k: int| b <= k < s.len() ==> is_white_space(#[trigger] s[k])
                &&& a < b ==> !is_white_space(s[a]) && !is_white_space(s[b - 1])
            },
{
    lemma_trimmed_start_is_suffix(s);
    let t = trimmed_start(s);
    lemma_trimmed_end_is_prefix(t);
    let a = s.len() - t.len();
    let b = a + trimmed(s).len();
    assert(s.subrange(a, b) =~= trimmed(s));
    assert forall|k: int| b <= k < s.len() implies is_white_space(#[trigger] s[k]) by {
        assert(t[k - a] == s[k]);
    }
    if a < b {
        assert(s[a] == t[0]);
        assert(s[b - 1] == trimmed(s).last());
    }
}

/// A text stands in another where the other is made of it and something before and behind.
pub proof fn law_has_text_splits(s: Seq<char>, part: Seq<char>)
    ensures
        has_text(s, part) <==> exists|before: Seq<char>, after: Seq<char>|
            s == #[trigger] (before + part + after),
{
    if has_text(s, part) {
        let i = choose|i: int|
            0 <= i <= s.len() - part.len() && #[trigger] s.subrange(i, i + part.len()) == part;
        assert(s =~= s.take(i) + part + s.skip(i + part.len()));
    }
    if exists|before: Seq<char>, after: Seq<char>| s == #[trigger] (before + part + after) {
        let (before, after) = choose|before: Seq<char>, after: Seq<char>|
            s == #[trigger] (before + part + after);
        law_has_text_between(before, part, after);
    }
}

/// A character occurs in two texts together as often as in the one and in the other.
pub proof fn law_occurrences_of_both(a: Seq<char>, b: Seq<char>, c: char)
    ensures
        occurrences(a + b, c) == occurrences(a, c) + occurrences(b, c),
        occurrences(seq![c], c) == 1,
        forall|x: char| x != c ==> occurrences(#[trigger] seq![x], c) == 0,
    decreases b.len(),
{
    reveal_with_fuel(occurrences, 2);
    if b.len() == 0 {
        assert(a + b =~= a);
    } else {
        assert((a + b).drop_last() =~= a + b.drop_last());
        law_occurrences_of_both(a, b.drop_last(), c);
    }
}

/// A character that occurs `n + 1` times stands somewhere behind `n` others of its kind.
pub proof fn law_last_occurrence(s: Seq<char>, c: char) -> (i: int)
    requires
        occurrences(s, c) > 0,
    ensures
        0 <= i < s.len(),
        s[i] == c,
        occurrences(s.take(i), c) == occurrences(s, c) - 1,
    decreases s.len(),
{
    if s.last() == c {
        assert(s.take(s.len() - 1) =~= s.drop_last());
        s.len() - 1
    } else {
        let i = law_last_occurrence(s.drop_last(), c);
        assert(s.drop_last().take(i) =~= s.take(i));
        i
    }
}

/// In decimal, ten times a number and a digit is the number and then the digit.
pub proof fn law_decimal_appends_digit(n: nat, d: nat)
    requires
        d < 10,
    ensures
        decimal(d) == seq!["0123456789"@[d as int]],
        n > 0 ==> decimal(10 * n + d) == decimal(n).push("0123456789"@[d as int]),
{
    reveal_strlit("0123456789");
    assert((10 * n + d) / 10 == n);
    assert((10 * n + d) % 10 == d);
}

/// A negative number is a minus sign and what it is without.
pub proof fn law_signed_decimal(n: nat)
    ensures
        signed_decimal(n as int) == decimal(n),
        n > 0 ==> signed_decimal(-(n as int)) == "-"@ + decimal(n),
{
    reveal_strlit("-");
    assert("-"@ =~= seq!['-']);
}

/// A trimmed text has nothing left to trim.
pub proof fn law_trimmed_twice(s: Seq<char>)
    ensures
        trimmed(trimmed(s)) == trimmed(s),
{
    law_trimmed_is_inner(s);
}

/// A text with no white space at its ends has nothing to trim.
pub proof fn law_trimmed_same(s: Seq<char>)
    requires
        s.len() > 0,
        !is_white_space(s[0]),
        !is_white_space(s.last()),
    ensures
        trimmed(s) == s,
        !is_blank(s),
{
}

/// Every character that trimming leaves is one of the text's.
pub proof fn law_trimmed_holds_the_texts_characters(s: Seq<char>, c: char)
    requires
        trimmed(s).contains(c),
    ensures
        s.contains(c),
{
    let t = trimmed(s);
    law_trimmed_is_inner(s);
    let i = choose|i: int|
        0 <= i <= s.len() - t.len() && #[trigger] s.subrange(i, i + t.len()) == t;
    let k = choose|k: int| 0 <= k < t.len() && t[k] == c;
    assert(s.subrange(i, i + t.len())[k] == s[i + k]);
}

/// A longer beginning of a text holds a character as often as a shorter one does, and once
/// more where the character stands right behind the shorter one.
pub proof fn law_occurrences_grow(s: Seq<char>, c: char, i: int, j: int)
    requires
        0 <= i < j <= s.len(),
    ensures
        occurrences(s.take(j), c) >= occurrences(s.take(i), c) + (if s[i] == c {
            1nat
        } else {
            0nat
        }),
    decreases j - i,
{
    assert(s.take(j).drop_last() =~= s.take(j - 1));
    assert(s.take(j).last() == s[j - 1]);
    if i < j - 1 {
        law_occurrences_grow(s, c, i, j - 1);
    }
}

/// A character that occurs in a text stands in it.
pub proof fn law_what_occurs_stands_in_text(s: Seq<char>, c: char)
    requires
        occurrences(s, c) > 0,
    ensures
        s.contains(c),
    decreases s.len(),
{
    if s.last() == c {
        assert(s[s.len() - 1] == c);
    } else {
        law_what_occurs_stands_in_text(s.drop_last(), c);
        let k = choose|k: int| 0 <= k < s.len() - 1 && s.drop_last()[k] == c;
        assert(s[k] == c);
    }
}

/// A number in decimal is made of digits.
pub proof fn law_decimal_is_digits(n: nat)
    ensures
        decimal(n).len() > 0,
        forall|k: int| 0 <= k < decimal(n).len() ==> '0' <= #[trigger] decimal(n)[k] <= '9',
    decreases n,
{
    if n >= 10 {
        law_decimal_is_digits(n / 10);
    }
}

} // verus!
