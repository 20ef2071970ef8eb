use vstd::prelude::*;

verus! {

/// The characters that `str::trim` removes: Unicode `White_Space`.
pub open spec fn is_blank(c: char) -> bool {
    ('\u{9}' <= c && c <= '\u{d}') || c == ' ' || c == '\u{85}' || c == '\u{a0}'
        || c == '\u{1680}' || ('\u{2000}' <= c && c <= '\u{200a}') || c == '\u{2028}'
        || c == '\u{2029}' || c == '\u{202f}' || c == '\u{205f}' || c == '\u{3000}'
}

pub open spec fn trim_start(t: Seq<char>) -> Seq<char>
    decreases t.len(),
{
    if t.len() > 0 && is_blank(t[0]) {
        trim_start(t.skip(1))
    } else {
        t
    }
}

pub open spec fn trim_end(t: Seq<char>) -> Seq<char>
    decreases t.len(),
{
    if t.len() > 0 && is_blank(t.last()) {
        trim_end(t.drop_last())
    } else {
        t
    }
}

/// A line with blank characters removed from both ends.
pub open spec fn trim(t: Seq<char>) -> Seq<char> {
    trim_end(trim_start(t))
}

/// A line without the carriage return of a `\r\n` ending.
pub open spec fn strip_cr(line: Seq<char>) -> Seq<char> {
    if line.len() > 0 && line.last() == '\r' {
        line.drop_last()
    } else {
        line
    }
}

/// The lines of `s` read left to right, each without its `\n` or `\r\n`
/// ending: a text with `n` line feeds has `n + 1` pieces, the last one empty
/// where the text ends with a line feed.
pub open spec fn segments(s: Seq<char>) -> Seq<Seq<char>>
    decreases s.len(),
{
    if s.len() == 0 {
        seq![Seq::<char>::empty()]
    } else {
        let p = segments(s.drop_last());
        if s.last() == '\n' {
            p.update(p.len() - 1, strip_cr(p.last())).push(Seq::<char>::empty())
        } else {
            p.update(p.len() - 1, p.last().push(s.last()))
        }
    }
}

/// One record of a text corpus: the line as written, without its ending, and
/// its trimmed form, from which the molecule is built.
pub struct Record {
    pub line: String,
    pub text: String,
}

pub open spec fn record_view(r: Record) -> (Seq<char>, Seq<char>) {
    (r.line@, r.text@)
}

/// Each line of `lines` whose trimmed form is not empty, paired with that
/// trimmed form, in order.
pub open spec fn kept(lines: Seq<Seq<char>>) -> Seq<(Seq<char>, Seq<char>)>
    decreases lines.len(),
{
    if lines.len() == 0 {
        Seq::empty()
    } else {
        let rest = kept(lines.drop_last());
        if trim(lines.last()).len() > 0 {
            rest.push((lines.last(), trim(lines.last())))
        } else {
            rest
        }
    }
}

/// The records of a text corpus: each non-blank line as written, with its
/// trimmed form.
pub open spec fn records(s: Seq<char>) -> Seq<(Seq<char>, Seq<char>)> {
    kept(segments(s))
}

/// `s[a..b]` trimmed.
fn trimmed_range(s: &str, a: usize, b: usize) -> (r: String)
    requires
        a <= b <= s@.len(),
    ensures
        r@ == trim(s@.subrange(a as int, b as int)),
{
    let mut lo = a;
    while lo < b && is_blank_char(s.get_char(lo))
        invariant
            a <= lo <= b <= s@.len(),
            trim_start(s@.subrange(a as int, b as int)) == trim_start(
                s@.subrange(lo as int, b as int),
            ),
        decreases b - lo,
    {
        assert(s@.subrange(lo as int, b as int).skip(1) =~= s@.subrange(lo + 1, b as int));
        lo = lo + 1;
    }
    assert(trim_start(s@.subrange(lo as int, b as int)) == s@.subrange(lo as int, b as int));
    let mut hi = b;
    while hi > lo && is_blank_char(s.get_char(hi - 1))
        invariant
            a <= lo <= hi <= b <= s@.len(),
            trim(s@.subrange(a as int, b as int)) == trim_end(s@.subrange(lo as int, hi as int)),
        decreases hi - lo,
    {
        assert(s@.subrange(lo as int, hi as int).drop_last() =~= s@.subrange(
            lo as int,
            hi - 1,
        ));
        hi = hi - 1;
    }
    String::from_str(s.substring_char(lo, hi))
}

fn is_blank_char(c: char) -> (r: bool)
    ensures
        r == is_blank(c),
{
    ('\u{9}' <= c && c <= '\u{d}') || c == ' ' || c == '\u{85}' || c == '\u{a0}'
        || c == '\u{1680}' || ('\u{2000}' <= c && c <= '\u{200a}') || c == '\u{2028}'
        || c == '\u{2029}' || c == '\u{202f}' || c == '\u{205f}' || c == '\u{3000}'
}

/// Pushes `s[a..b]` onto `out` as a record where its trimmed form is not
/// empty.
fn keep_line(s: &str, a: usize, b: usize, out: &mut Vec<Record>, Ghost(done): Ghost<Seq<Seq<char>>>)
    requires
        a <= b <= s@.len(),
        old(out)@.map_values(|r: Record| record_view(r)) == kept(done),
    ensures
        final(out)@.map_values(|r: Record| record_view(r)) == kept(
            done.push(s@.subrange(a as int, b as int)),
        ),
{
    let ghost line = s@.subrange(a as int, b as int);
    assert(done.push(line).drop_last() =~= done);
    let t = trimmed_range(s, a, b);
    if t.unicode_len() > 0 {
        let ghost before = out@;
        let r = Record { line: String::from_str(s.substring_char(a, b)), text: t };
        out.push(r);
        assert(out@.map_values(|r: Record| record_view(r)) =~= before.map_values(
            |r: Record| record_view(r),
        ).push((line, trim(line))));
    }
}

/// Splits a text corpus into its records: one per non-blank line, as written
/// and trimmed, in source order.
pub fn text_records(contents: &str) -> (r: Vec<Record>)
    ensures
        r@.map_values(|r: Record| record_view(r)) == records(contents@),
{
    let n = contents.unicode_len();
    let mut out: Vec<Record> = Vec::new();
    let mut start: usize = 0;
    let mut i: usize = 0;
    let ghost mut done: Seq<Seq<char>> = Seq::empty();
    proof {
        assert(contents@.take(0) =~= Seq::<char>::empty());
        assert(contents@.subrange(0, 0) =~= Seq::<char>::empty());
        assert(done.push(Seq::<char>::empty()) =~= seq![Seq::<char>::empty()]);
        assert(out@.map_values(|r: Record| record_view(r)) =~= kept(done));
    }
    while i < n
        invariant
            n == contents@.len(),
            start <= i <= n,
            segments(contents@.take(i as int)) == done.push(
                contents@.subrange(start as int, i as int),
            ),
            out@.map_values(|r: Record| record_view(r)) == kept(done),
        decreases n - i,
    {
        let c = contents.get_char(i);
        let ghost prev = contents@.take(i as int);
        assert(contents@.take(i + 1).drop_last() =~= prev);
        if c == '\n' {
            let end = if i > start && contents.get_char(i - 1) == '\r' {
                i - 1
            } else {
                i
            };
            let ghost line = contents@.subrange(start as int, end as int);
            assert(strip_cr(contents@.subrange(start as int, i as int)) =~= line);
            keep_line(contents, start, end, &mut out, Ghost(done));
            proof {
                assert(done.push(contents@.subrange(start as int, i as int)).update(
                    done.len() as int,
                    line,
                ) =~= done.push(line));
                done = done.push(line);
            }
            start = i + 1;
            assert(contents@.subrange(start as int, i + 1) =~= Seq::<char>::empty());
        } else {
            assert(contents@.subrange(start as int, i + 1) =~= contents@.subrange(
                start as int,
                i as int,
            ).push(c));
        }
        i = i + 1;
    }
    assert(contents@.take(n as int) =~= contents@);
    keep_line(contents, start, n, &mut out, Ghost(done));
    out
}

} // verus!
