//! Text as a sequence of lines.
use crate::text::{
    chars_of, has_text, law_has_text_between, law_has_text_transitive, string_of,
};
use vstd::prelude::*;

verus! {

/// The contents of a list of strings.
pub open spec fn texts(v: Seq<String>) -> Seq<Seq<char>> {
    v.map_values(|s: String| s@)
}

/// How many characters of `s` stand before its first line feed, or in all where
/// it has none.
pub open spec fn first_line_len(s: Seq<char>) -> nat
    decreases s.len(),
{
    if s.len() == 0 || s[0] == '\n' {
        0
    } else {
        1 + first_line_len(s.drop_first())
    }
}

/// `s` without the carriage return that it may end with.
pub open spec fn without_return(s: Seq<char>) -> Seq<char> {
    if s.len() > 0 && s.last() == '\r' {
        s.drop_last()
    } else {
        s
    }
}

/// The lines of `s`, without their ends. A line ends with a line feed, or with a
/// carriage return and a line feed; the last one may have no end.
pub open spec fn lines_of(s: Seq<char>) -> Seq<Seq<char>>
    decreases s.len(),
{
    let n = first_line_len(s);
    if s.len() == 0 {
        seq![]
    } else if n >= s.len() {
        seq![s]
    } else {
        seq![without_return(s.take(n as int))] + lines_of(s.skip(n as int + 1))
    }
}

/// The parts, one behind the other, with `sep` between them.
pub open spec fn joined(parts: Seq<Seq<char>>, sep: Seq<char>) -> Seq<char>
    decreases parts.len(),
{
    if parts.len() == 0 {
        seq![]
    } else if parts.len() == 1 {
        parts[0]
    } else {
        joined(parts.drop_last(), sep) + sep + parts.last()
    }
}

/// The lines of `s`, without their ends.
pub fn split_lines(s: &str) -> (r: Vec<String>)
    ensures
        texts(r@) == lines_of(s@),
{
    let cs = chars_of(s);
    let mut out: Vec<String> = Vec::new();
    let mut start: usize = 0;
    let mut i: usize = 0;
    assert(s@.skip(0) =~= s@);
    while i < cs.len()
        invariant
            cs@ == s@,
            start <= i <= cs@.len(),
            texts(out@) + lines_of(s@.skip(start as int)) == lines_of(s@),
            forall|k: int| start <= k < i ==> cs@[k] != '\n',
        decreases cs@.len() - i,
    {
        if cs[i] == '\n' {
            let ghost rest = s@.skip(start as int);
            proof {
                lemma_first_line_len(rest, (i - start) as nat);
                assert(rest.take(i - start) =~= s@.subrange(start as int, i as int));
                assert(rest.skip(i - start + 1) =~= s@.skip(i + 1));
            }
            let end: usize = if start < i && cs[i - 1] == '\r' {
                i - 1
            } else {
                i
            };
            let line = string_of(&cs, start, end);
            assert(line@ =~= without_return(rest.take(i - start)));
            let ghost before = texts(out@);
            out.push(line);
            proof {
                assert(texts(out@) =~= before.push(line@));
                assert(before + lines_of(rest) =~= texts(out@) + lines_of(s@.skip(i + 1)));
            }
            start = i + 1;
        }
        i += 1;
    }
    let ghost rest = s@.skip(start as int);
    if start < cs.len() {
        proof {
            lemma_no_line_end(rest);
            assert(rest =~= s@.subrange(start as int, i as int));
        }
        let line = string_of(&cs, start, cs.len());
        let ghost before = texts(out@);
        out.push(line);
        assert(texts(out@) =~= before + seq![line@]);
    } else {
        assert(rest =~= Seq::<char>::empty());
        assert(texts(out@) + lines_of(rest) =~= texts(out@));
    }
    out
}

/// The parts, one behind the other, with `sep` between them.
pub fn join(parts: &[String], sep: &str) -> (r: String)
    ensures
        r@ == joined(texts(parts@), sep@),
{
    let mut out = String::new();
    let mut i: usize = 0;
    let ghost all = texts(parts@);
    assert(all.take(0) =~= Seq::<Seq<char>>::empty());
    while i < parts.len()
        invariant
            i <= parts@.len(),
            all == texts(parts@),
            out@ == joined(all.take(i as int), sep@),
        decreases parts@.len() - i,
    {
        assert(all.take(i + 1).drop_last() =~= all.take(i as int));
        if i > 0 {
            out.append(sep);
        }
        out.append(parts[i].as_str());
        assert(out@ =~= joined(all.take(i + 1), sep@));
        i += 1;
    }
    assert(all.take(i as int) =~= all);
    out
}

/// Appends the first `n` of the given strings, or all where there are fewer.
pub fn push_first(out: &mut Vec<String>, more: &[String], n: usize)
    ensures
        texts(final(out)@) == texts(old(out)@) + texts(more@).take(
            if n <= more@.len() {
                n as int
            } else {
                more@.len() as int
            },
        ),
{
    let ghost before = texts(out@);
    let ghost all = texts(more@);
    let mut i: usize = 0;
    assert(texts(out@) =~= before + all.take(0));
    while i < n && i < more.len()
        invariant
            i <= n,
            i <= more@.len(),
            all == texts(more@),
            texts(out@) == before + all.take(i as int),
        decreases more@.len() - i,
    {
        let ghost grown = texts(out@);
        out.push(more[i].clone());
        assert(texts(out@) =~= grown.push(all[i as int]));
        assert(texts(out@) =~= before + all.take(i + 1));
        i += 1;
    }
}

/// A line feed behind `n` other characters is the end of the first line.
proof fn lemma_first_line_len(s: Seq<char>, n: nat)
    requires
        n < s.len(),
        s[n as int] == '\n',
        forall|k: int| 0 <= k < n ==> s[k] != '\n',
    ensures
        first_line_len(s) == n,
    decreases s.len(),
{
    if n > 0 {
        assert(s.drop_first()[n - 1] == '\n');
        assert forall|k: int| 0 <= k < n - 1 implies s.drop_first()[k] != '\n' by {
            assert(s.drop_first()[k] == s[k + 1]);
        }
        lemma_first_line_len(s.drop_first(), (n - 1) as nat);
    }
}

/// A text without line feeds is one line.
proof fn lemma_no_line_end(s: Seq<char>)
    requires
        forall|k: int| 0 <= k < s.len() ==> s[k] != '\n',
    ensures
        first_line_len(s) == s.len(),
    decreases s.len(),
{
    if s.len() > 0 {
        assert forall|k: int| 0 <= k < s.len() - 1 implies s.drop_first()[k] != '\n' by {
            assert(s.drop_first()[k] == s[k + 1]);
        }
        lemma_no_line_end(s.drop_first());
    }
}

/// Every part stands in what the parts are joined to.
pub proof fn law_joined_has_parts(parts: Seq<Seq<char>>, sep: Seq<char>, i: int)
    requires
        0 <= i < parts.len(),
    ensures
        has_text(joined(parts, sep), parts[i]),
    decreases parts.len(),
{
    let none = Seq::<char>::empty();
    if parts.len() == 1 {
        law_has_text_between(none, parts[i], none);
        assert(none + parts[i] + none =~= parts[i]);
    } else {
        let head = joined(parts.drop_last(), sep);
        if i < parts.len() - 1 {
            law_joined_has_parts(parts.drop_last(), sep, i);
            law_has_text_between(none, head, sep + parts.last());
            assert(none + head + (sep + parts.last()) =~= joined(parts, sep));
            law_has_text_transitive(joined(parts, sep), head, parts[i]);
        } else {
            law_has_text_between(head + sep, parts[i], none);
            assert(head + sep + parts[i] + none =~= joined(parts, sep));
        }
    }
}

/// Joining may begin with the first part.
proof fn lemma_joined_first(parts: Seq<Seq<char>>, sep: Seq<char>)
    requires
        parts.len() > 1,
    ensures
        joined(parts, sep) == parts[0] + sep + joined(parts.drop_first(), sep),
    decreases parts.len(),
{
    let rest = parts.drop_first();
    if parts.len() == 2 {
        reveal_with_fuel(joined, 2);
        assert(parts.drop_last() =~= seq![parts[0]]);
        assert(rest =~= seq![parts[1]]);
        assert(joined(parts, sep) =~= parts[0] + sep + joined(rest, sep));
    } else {
        lemma_joined_first(parts.drop_last(), sep);
        assert(parts.drop_last().drop_first() =~= rest.drop_last());
        assert(joined(parts, sep) =~= parts[0] + sep + joined(rest, sep));
    }
}

/// No line holds a line feed.
pub proof fn law_lines_hold_no_line_feed(s: Seq<char>, i: int)
    requires
        0 <= i < lines_of(s).len(),
    ensures
        !lines_of(s)[i].contains('\n'),
    decreases s.len(),
{
    let n = first_line_len(s);
    lemma_before_first_line_end(s);
    if n < s.len() {
        if i > 0 {
            law_lines_hold_no_line_feed(s.skip(n as int + 1), i - 1);
        } else {
            assert forall|k: int| 0 <= k < lines_of(s)[0].len() implies lines_of(s)[0][k]
                != '\n' by {
                assert(lines_of(s)[0][k] == s[k]);
            }
        }
    }
}

proof fn lemma_before_first_line_end(s: Seq<char>)
    ensures
        first_line_len(s) <= s.len(),
        forall|k: int| 0 <= k < first_line_len(s) ==> s[k] != '\n',
        first_line_len(s) < s.len() ==> s[first_line_len(s) as int] == '\n',
    decreases s.len(),
{
    if s.len() > 0 && s[0] != '\n' {
        lemma_before_first_line_end(s.drop_first());
        assert forall|k: int| 0 <= k < first_line_len(s) implies s[k] != '\n' by {
            if k > 0 {
                assert(s[k] == s.drop_first()[k - 1]);
            }
        }
    }
}

/// The lines of two texts are those of the one and then those of the other, where the
/// first text ends with a line.
pub proof fn law_lines_of_both(a: Seq<char>, b: Seq<char>)
    requires
        a.len() == 0 || a.last() == '\n',
    ensures
        lines_of(a + b) == lines_of(a) + lines_of(b),
    decreases a.len(),
{
    if a.len() == 0 {
        assert(a + b =~= b);
        assert(lines_of(a) + lines_of(b) =~= lines_of(b));
    } else {
        let n = first_line_len(a);
        lemma_before_first_line_end(a);
        assert(n < a.len());
        assert forall|k: int| 0 <= k < n implies (a + b)[k] != '\n' by {
            assert((a + b)[k] == a[k]);
        }
        assert((a + b)[n as int] == a[n as int]);
        lemma_first_line_len(a + b, n);
        let rest = a.skip(n as int + 1);
        assert((a + b).take(n as int) =~= a.take(n as int));
        assert((a + b).skip(n as int + 1) =~= rest + b);
        law_lines_of_both(rest, b);
        let head = seq![without_return(a.take(n as int))];
        assert(head + (lines_of(rest) + lines_of(b)) =~= (head + lines_of(rest)) + lines_of(b));
    }
}

/// The contents of a list of strings are those of its strings, each in its place.
pub proof fn law_texts_in_place(v: Seq<String>, i: int)
    ensures
        texts(v).len() == v.len(),
        0 <= i < v.len() ==> texts(v)[i] == v[i]@,
{
}

/// A text without a line feed is one line, as it is, and an empty text has no line.
pub proof fn law_unended_line(line: Seq<char>)
    requires
        !line.contains('\n'),
    ensures
        lines_of(line) == if line.len() == 0 {
            Seq::<Seq<char>>::empty()
        } else {
            seq![line]
        },
{
    assert forall|k: int| 0 <= k < line.len() implies line[k] != '\n' by {
        assert(line.contains(line[k]));
    }
    lemma_no_line_end(line);
}

/// A line feed ends a line, and so do a carriage return and a line feed. A carriage return
/// elsewhere is one of the line's characters.
pub proof fn law_line_ends(line: Seq<char>)
    requires
        !line.contains('\n'),
    ensures
        lines_of(line + seq!['\r', '\n']) == seq![line],
        line.len() == 0 || line.last() != '\r' ==> lines_of(line + seq!['\n']) == seq![line],
{
    let returned = line.push('\r');
    assert forall|k: int| 0 <= k < returned.len() implies returned[k] != '\n' by {
        assert(k < line.len() ==> line.contains(line[k]));
    }
    law_one_line(returned);
    assert(returned.push('\n') =~= line + seq!['\r', '\n']);
    assert(returned.drop_last() =~= line);
    law_one_line(line);
    assert(line.push('\n') =~= line + seq!['\n']);
}

/// Two lists joined together are the one joined, the separator and the other joined.
pub proof fn law_joined_of_both(a: Seq<Seq<char>>, b: Seq<Seq<char>>, sep: Seq<char>)
    requires
        a.len() > 0,
        b.len() > 0,
    ensures
        joined(a + b, sep) == joined(a, sep) + sep + joined(b, sep),
    decreases b.len(),
{
    assert((a + b).drop_last() =~= a + b.drop_last());
    assert((a + b).last() == b.last());
    if b.len() == 1 {
        assert(a + b.drop_last() =~= a);
    } else {
        law_joined_of_both(a, b.drop_last(), sep);
        assert(joined(a + b, sep) =~= joined(a, sep) + sep + joined(b, sep));
    }
}

/// Nothing joined is nothing, and one part joined is the part.
pub proof fn law_joined_of_one(part: Seq<char>, sep: Seq<char>)
    ensures
        joined(Seq::empty(), sep) == Seq::<char>::empty(),
        joined(seq![part], sep) == part,
{
}

/// The one line of a text that is a line.
pub proof fn law_one_line(line: Seq<char>)
    requires
        !line.contains('\n'),
    ensures
        lines_of(line.push('\n')) == seq![without_return(line)],
{
    let s = line.push('\n');
    assert forall|k: int| 0 <= k < line.len() implies s[k] != '\n' by {
        assert(s[k] == line[k]);
    }
    lemma_first_line_len(s, line.len());
    assert(s.take(line.len() as int) =~= line);
    assert(s.skip(line.len() as int + 1) =~= Seq::<char>::empty());
    reveal_with_fuel(lines_of, 2);
    assert(lines_of(s) =~= seq![without_return(line)]);
}

/// Every character of a line is one of the text's.
pub proof fn law_lines_hold_the_texts_characters(s: Seq<char>, i: int, c: char)
    requires
        0 <= i < lines_of(s).len(),
        lines_of(s)[i].contains(c),
    ensures
        s.contains(c),
    decreases s.len(),
{
    let n = first_line_len(s);
    lemma_before_first_line_end(s);
    let line = lines_of(s)[i];
    let k = choose|k: int| 0 <= k < line.len() && line[k] == c;
    if n < s.len() {
        if i > 0 {
            let rest = s.skip(n as int + 1);
            assert(line == lines_of(rest)[i - 1]);
            law_lines_hold_the_texts_characters(rest, i - 1, c);
            let j = choose|j: int| 0 <= j < rest.len() && rest[j] == c;
            assert(s[n as int + 1 + j] == c);
        } else {
            assert(s[k] == c);
        }
    }
}

/// Every character of joined parts is one of a part or of the separator.
pub proof fn law_joined_holds_the_parts_characters(
    parts: Seq<Seq<char>>,
    sep: Seq<char>,
    c: char,
)
    requires
        forall|i: int| 0 <= i < parts.len() ==> !(#[trigger] parts[i]).contains(c),
        !sep.contains(c),
    ensures
        !joined(parts, sep).contains(c),
    decreases parts.len(),
{
    if parts.len() == 1 {
        assert(!parts[0].contains(c));
    } else if parts.len() > 1 {
        assert forall|i: int|
            0 <= i < parts.len() - 1 implies !(#[trigger] parts.drop_last()[i]).contains(c) by {
            assert(parts.drop_last()[i] == parts[i]);
        }
        law_joined_holds_the_parts_characters(parts.drop_last(), sep, c);
        let head = joined(parts.drop_last(), sep);
        let s = joined(parts, sep);
        assert(!parts[parts.len() - 1].contains(c));
        assert forall|k: int| 0 <= k < s.len() implies s[k] != c by {
            if k < head.len() {
                assert(s[k] == head[k]);
            } else if k < head.len() + sep.len() {
                assert(s[k] == sep[k - head.len()]);
            } else {
                assert(s[k] == parts.last()[k - head.len() - sep.len()]);
            }
        }
    }
}

/// Joined parts begin as the first part begins and end as the last part ends.
pub proof fn law_joined_ends(parts: Seq<Seq<char>>, sep: Seq<char>)
    requires
        parts.len() > 0,
        parts[0].len() > 0,
        parts.last().len() > 0,
    ensures
        joined(parts, sep).len() > 0,
        joined(parts, sep)[0] == parts[0][0],
        joined(parts, sep).last() == parts.last().last(),
{
    if parts.len() > 1 {
        lemma_joined_first(parts, sep);
    }
}

/// Lines that are joined by line feeds are read back as they were: none holds a line
/// feed, none but the last ends with a carriage return, and the last is not empty.
pub proof fn law_joined_lines_read_back(lines: Seq<Seq<char>>)
    requires
        lines.len() > 0,
        lines.last().len() > 0,
        forall|i: int| 0 <= i < lines.len() ==> !(#[trigger] lines[i]).contains('\n'),
        forall|i: int|
            0 <= i < lines.len() - 1 && (#[trigger] lines[i]).len() > 0 ==> lines[i].last()
                != '\r',
    ensures
        lines_of(joined(lines, "\n"@)) == lines,
    decreases lines.len(),
{
    reveal_strlit("\n");
    let sep = "\n"@;
    let s = joined(lines, sep);
    let first = lines[0];
    assert forall|k: int| 0 <= k < first.len() implies first[k] != '\n' by {
        assert(!lines[0].contains('\n'));
    }
    if lines.len() == 1 {
        lemma_no_line_end(s);
        assert(lines_of(s) =~= lines);
    } else {
        let rest = lines.drop_first();
        lemma_joined_first(lines, sep);
        assert(sep =~= seq!['\n']);
        let n = first.len();
        assert(s[n as int] == '\n');
        assert forall|k: int| 0 <= k < n implies s[k] != '\n' by {
            assert(s[k] == first[k]);
        }
        lemma_first_line_len(s, n);
        assert(s.take(n as int) =~= first);
        assert(s.skip(n as int + 1) =~= joined(rest, sep));
        assert forall|i: int| 0 <= i < rest.len() implies !(#[trigger] rest[i]).contains('\n') by {
            assert(rest[i] == lines[i + 1]);
        }
        assert forall|i: int|
            0 <= i < rest.len() - 1 && (#[trigger] rest[i]).len() > 0 implies rest[i].last()
            != '\r' by {
            assert(rest[i] == lines[i + 1]);
        }
        law_joined_lines_read_back(rest);
        assert(lines_of(s) =~= lines);
    }
}

} // verus!
