//! Removal of the terminal's colour and style sequences.
use crate::text::chars_of;
use vstd::prelude::*;

verus! {

/// A character of a sequence's parameters: an ASCII digit or a semicolon.
pub open spec fn is_parameter(c: char) -> bool {
    '0' <= c <= '9' || c == ';'
}

/// A character that ends a sequence: an ASCII letter.
pub open spec fn is_final(c: char) -> bool {
    'a' <= c <= 'z' || 'A' <= c <= 'Z'
}

/// How many parameter characters `s` begins with.
pub open spec fn parameters_len(s: Seq<char>) -> nat
    decreases s.len(),
{
    if s.len() > 0 && is_parameter(s[0]) {
        1 + parameters_len(s.drop_first())
    } else {
        0
    }
}

/// The length of the escape sequence that `s` begins with: the escape character,
/// an opening bracket, parameters and a letter. Zero where it begins with none.
pub open spec fn sequence_len(s: Seq<char>) -> nat {
    let n = parameters_len(s.skip(2));
    if s.len() >= 2 && s[0] == '\u{1b}' && s[1] == '[' && n + 2 < s.len() && is_final(
        s[n as int + 2],
    ) {
        n + 3
    } else {
        0
    }
}

/// `s` without its escape sequences, read from left to right.
pub open spec fn without_ansi(s: Seq<char>) -> Seq<char>
    decreases s.len(),
{
    if s.len() == 0 {
        s
    } else if 0 < sequence_len(s) <= s.len() {
        without_ansi(s.skip(sequence_len(s) as int))
    } else {
        seq![s[0]] + without_ansi(s.drop_first())
    }
}

/// The index behind the parameter characters that stand in `cs` from `from` on.
fn skip_parameters(cs: &Vec<char>, from: usize) -> (r: usize)
    requires
        from <= cs@.len(),
    ensures
        from <= r <= cs@.len(),
        r == from + parameters_len(cs@.skip(from as int)),
{
    let mut i: usize = from;
    while i < cs.len() && (('0' <= cs[i] && cs[i] <= '9') || cs[i] == ';')
        invariant
            from <= i <= cs@.len(),
            from + parameters_len(cs@.skip(from as int)) == i + parameters_len(cs@.skip(i as int)),
        decreases cs@.len() - i,
    {
        assert(cs@.skip(i as int).drop_first() =~= cs@.skip(i + 1));
        i += 1;
    }
    i
}

/// The length of the escape sequence that stands in `cs` at `at`, or zero.
fn sequence_at(cs: &Vec<char>, at: usize) -> (r: usize)
    requires
        at < cs@.len(),
    ensures
        r == sequence_len(cs@.skip(at as int)),
        at + r <= cs@.len(),
{
    if cs[at] != '\u{1b}' || cs.len() - at < 2 || cs[at + 1] != '[' {
        return 0;
    }
    let last: usize = skip_parameters(cs, at + 2);
    assert(cs@.skip(at as int).skip(2) =~= cs@.skip(at + 2));
    if last < cs.len() && (('a' <= cs[last] && cs[last] <= 'z') || ('A' <= cs[last] && cs[last]
        <= 'Z')) {
        last + 1 - at
    } else {
        0
    }
}

/// The text without its escape sequences.
pub fn strip_ansi(s: &str) -> (r: String)
    ensures
        r@ == without_ansi(s@),
{
    let cs = chars_of(s);
    let mut out = String::new();
    let mut i: usize = 0;
    assert(s@.skip(0) =~= s@);
    assert(without_ansi(s@) =~= out@ + without_ansi(s@.skip(0)));
    while i < cs.len()
        invariant
            cs@ == s@,
            i <= cs@.len(),
            without_ansi(s@) == out@ + without_ansi(s@.skip(i as int)),
        decreases cs@.len() - i,
    {
        let n: usize = sequence_at(&cs, i);
        let ghost rest = s@.skip(i as int);
        if n > 0 {
            assert(rest.skip(n as int) =~= s@.skip(i + n));
            i += n;
        } else {
            assert(rest.drop_first() =~= s@.skip(i + 1));
            assert(out@ + (seq![rest[0]] + without_ansi(rest.drop_first())) =~= out@.push(rest[0])
                + without_ansi(rest.drop_first()));
            out.push(cs[i]);
            i += 1;
        }
    }
    assert(s@.skip(i as int) =~= Seq::<char>::empty());
    assert(without_ansi(s@) =~= out@);
    out
}

/// A text without the escape character stays as it is.
pub proof fn law_plain_text_unchanged(s: Seq<char>)
    requires
        !s.contains('\u{1b}'),
    ensures
        without_ansi(s) == s,
    decreases s.len(),
{
    if s.len() > 0 {
        assert(s[0] != '\u{1b}');
        assert(!s.drop_first().contains('\u{1b}')) by {
            assert forall|k: int| 0 <= k < s.drop_first().len() implies s.drop_first()[k]
                != '\u{1b}' by {
                assert(s.drop_first()[k] == s[k + 1]);
            }
        }
        law_plain_text_unchanged(s.drop_first());
        assert(s =~= seq![s[0]] + s.drop_first());
    }
}

/// A sequence is removed: the escape character, a bracket, digits and semicolons, and a
/// letter that ends it.
pub proof fn law_sequence_is_removed(s: Seq<char>, n: int)
    requires
        2 <= n < s.len(),
        s[0] == '\u{1b}',
        s[1] == '[',
        forall|k: int| 2 <= k < n ==> '0' <= #[trigger] s[k] <= '9' || s[k] == ';',
        'a' <= s[n] <= 'z' || 'A' <= s[n] <= 'Z',
    ensures
        without_ansi(s) == without_ansi(s.skip(n + 1)),
{
    let rest = s.skip(2);
    assert forall|k: int| 0 <= k < n - 2 implies is_parameter(#[trigger] rest[k]) by {
        assert(rest[k] == s[k + 2]);
    }
    assert(rest[n - 2] == s[n]);
    lemma_parameters_len(rest, n - 2);
}

proof fn lemma_parameters_len(s: Seq<char>, n: int)
    requires
        0 <= n <= s.len(),
        forall|k: int| 0 <= k < n ==> is_parameter(#[trigger] s[k]),
        n < s.len() ==> !is_parameter(s[n]),
    ensures
        parameters_len(s) == n,
    decreases s.len(),
{
    if n > 0 {
        assert(is_parameter(s[0]));
        assert forall|k: int| 0 <= k < n - 1 implies is_parameter(#[trigger] s.drop_first()[k]) by {
            assert(s.drop_first()[k] == s[k + 1]);
        }
        lemma_parameters_len(s.drop_first(), n - 1);
    }
}

proof fn lemma_parameters_are_first(s: Seq<char>)
    ensures
        parameters_len(s) <= s.len(),
        forall|k: int| 0 <= k < parameters_len(s) ==> is_parameter(#[trigger] s[k]),
    decreases s.len(),
{
    if s.len() > 0 && is_parameter(s[0]) {
        lemma_parameters_are_first(s.drop_first());
        assert forall|k: int| 0 <= k < parameters_len(s) implies is_parameter(#[trigger] s[k]) by {
            if k > 0 {
                assert(s[k] == s.drop_first()[k - 1]);
            }
        }
    }
}

/// Every other character stays where it is, and so does an escape character that opens no
/// sequence.
pub proof fn law_other_characters_stay(c: char, rest: Seq<char>)
    requires
        c == '\u{1b}' ==> !exists|n: int|
            {
                &&& 1 <= n < rest.len()
                &&& rest[0] == '['
                &&& forall|k: int| 1 <= k < n ==> '0' <= #[trigger] rest[k] <= '9' || rest[k] == ';'
                &&& 'a' <= #[trigger] rest[n] <= 'z' || 'A' <= rest[n] <= 'Z'
            },
    ensures
        without_ansi(seq![c] + rest) == seq![c] + without_ansi(rest),
        without_ansi(Seq::empty()) == Seq::<char>::empty(),
{
    let s = seq![c] + rest;
    assert(s.drop_first() =~= rest);
    let n = parameters_len(s.skip(2));
    if sequence_len(s) > 0 {
        lemma_parameters_are_first(s.skip(2));
        assert(rest[0] == s[1]);
        assert forall|k: int| 1 <= k < n + 1 implies '0' <= #[trigger] rest[k] <= '9' || rest[k]
            == ';' by {
            assert(rest[k] == s.skip(2)[k - 1]);
            assert(is_parameter(s.skip(2)[k - 1]));
        }
        assert(rest[n as int + 1] == s[n as int + 2]);
    }
}

} // verus!
