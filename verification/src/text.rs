//! Characters, lines and trimming: the vocabulary in which a post's body is
//! taken apart.
//!
//! Every function here works on sequences of characters. The spec functions
//! say what a line, a trimmed text or a part of a thread is; the executable
//! functions compute them and are proved to agree.

use vstd::prelude::*;

verus! {

/// Whether `c` has the Unicode property `White_Space`.
pub open spec fn is_whitespace(c: char) -> bool {
    let n = c as u32;
    ||| 0x09 <= n <= 0x0d
    ||| n == 0x20
    ||| n == 0x85
    ||| n == 0xa0
    ||| n == 0x1680
    ||| 0x2000 <= n <= 0x200a
    ||| n == 0x2028
    ||| n == 0x2029
    ||| n == 0x202f
    ||| n == 0x205f
    ||| n == 0x3000
}

/// `s` without the whitespace it starts with.
pub open spec fn trim_start(s: Seq<char>) -> Seq<char>
    decreases s.len(),
{
    if s.len() > 0 && is_whitespace(s.first()) {
        trim_start(s.drop_first())
    } else {
        s
    }
}

/// `s` without the whitespace it ends with.
pub open spec fn trim_end(s: Seq<char>) -> Seq<char>
    decreases s.len(),
{
    if s.len() > 0 && is_whitespace(s.last()) {
        trim_end(s.drop_last())
    } else {
        s
    }
}

/// `s` without the whitespace around it.
pub open spec fn trim(s: Seq<char>) -> Seq<char> {
    trim_end(trim_start(s))
}

/// The position of the first line feed in `s`, or `s.len()` where `s` holds none.
pub open spec fn line_end(s: Seq<char>) -> int
    decreases s.len(),
{
    if s.len() == 0 || s.first() == '\n' {
        0
    } else {
        1 + line_end(s.drop_first())
    }
}

/// `s` without one carriage return at its end.
pub open spec fn without_cr(s: Seq<char>) -> Seq<char> {
    if s.len() > 0 && s.last() == '\r' {
        s.drop_last()
    } else {
        s
    }
}

/// The lines of `s`. A line ends with a line feed, or with a carriage return
/// and a line feed; neither is part of the line. A last line needs no line
/// ending, and a line ending at the very end opens no further line.
pub open spec fn lines(s: Seq<char>) -> Seq<Seq<char>>
    decreases s.len(),
{
    if s.len() == 0 {
        Seq::empty()
    } else {
        let n = line_end(s);
        if 0 <= n < s.len() {
            seq![without_cr(s.take(n))] + lines(s.skip(n + 1))
        } else {
            seq![s]
        }
    }
}

/// Whether `line`, once trimmed, is the separator.
pub open spec fn is_separator(line: Seq<char>, separator: Seq<char>) -> bool {
    trim(line) == separator
}

/// The runs of lines that the separator lines part. There is always one run
/// more than there are separator lines, so a run may be empty.
pub open spec fn chunks(lines: Seq<Seq<char>>, separator: Seq<char>) -> Seq<Seq<Seq<char>>>
    decreases lines.len(),
{
    if lines.len() == 0 {
        seq![Seq::empty()]
    } else {
        let before = chunks(lines.drop_last(), separator);
        if is_separator(lines.last(), separator) {
            before.push(Seq::empty())
        } else {
            before.update(before.len() - 1, before.last().push(lines.last()))
        }
    }
}

/// The lines put together again, with one line feed between two of them.
pub open spec fn join(lines: Seq<Seq<char>>) -> Seq<char>
    decreases lines.len(),
{
    if lines.len() == 0 {
        Seq::empty()
    } else if lines.len() == 1 {
        lines[0]
    } else {
        join(lines.drop_last()) + seq!['\n'] + lines.last()
    }
}

/// The parts of `body`: each run of lines between separator lines, joined and
/// trimmed, in the order of the lines.
pub open spec fn split(body: Seq<char>, separator: Seq<char>) -> Seq<Seq<char>> {
    chunks(lines(body), separator).map_values(|chunk: Seq<Seq<char>>| trim(join(chunk)))
}

/// Whether some line of `body` is a separator line.
pub open spec fn is_thread(body: Seq<char>, separator: Seq<char>) -> bool {
    exists|i: int| 0 <= i < lines(body).len() && is_separator(#[trigger] lines(body)[i], separator)
}

/// What each line of a list of lines holds.
pub open spec fn line_views(v: Seq<Vec<char>>) -> Seq<Seq<char>> {
    Seq::new(v.len(), |i: int| v[i]@)
}

/// What each string of a list of strings holds.
pub open spec fn string_views(v: Seq<String>) -> Seq<Seq<char>> {
    Seq::new(v.len(), |i: int| v[i]@)
}

/// `String::push` of std appends one character to the string.
pub assume_specification[ String::push ](s: &mut String, c: char)
    ensures
        final(s)@ == old(s)@.push(c),
;

/// Tests a character for the Unicode property `White_Space`.
pub fn is_space(c: char) -> (r: bool)
    ensures
        r == is_whitespace(c),
{
    let n: u32 = c as u32;
    (0x09 <= n && n <= 0x0d) || n == 0x20 || n == 0x85 || n == 0xa0 || n == 0x1680 || (0x2000 <= n
        && n <= 0x200a) || n == 0x2028 || n == 0x2029 || n == 0x202f || n == 0x205f || n == 0x3000
}

/// The characters of `s`, in order.
pub fn chars_of(s: &str) -> (r: Vec<char>)
    ensures
        r@ == s@,
{
    let mut out: Vec<char> = Vec::new();
    for c in it: s.chars()
        invariant
            out@ == it.seq().take(it.index()),
            it.seq() == s@,
    {
        out.push(c);
    }
    out
}

/// A string of the characters of `v` from `from` up to `to`.
pub(crate) fn string_of(v: &Vec<char>, from: usize, to: usize) -> (r: String)
    requires
        from <= to <= v.len(),
    ensures
        r@ == v@.subrange(from as int, to as int),
{
    let mut out = String::new();
    let mut i: usize = from;
    while i < to
        invariant
            from <= i <= to <= v.len(),
            out@ == v@.subrange(from as int, i as int),
        decreases to - i,
    {
        out.push(v[i]);
        i += 1;
    }
    out
}

/// The characters of `v` from `from` up to `to`.
pub(crate) fn copy_range(v: &Vec<char>, from: usize, to: usize) -> (r: Vec<char>)
    requires
        from <= to <= v.len(),
    ensures
        r@ == v@.subrange(from as int, to as int),
{
    let mut out: Vec<char> = Vec::new();
    let mut i: usize = from;
    while i < to
        invariant
            from <= i <= to <= v.len(),
            out@ == v@.subrange(from as int, i as int),
        decreases to - i,
    {
        out.push(v[i]);
        i += 1;
    }
    out
}

/// Where the trimmed text lies in `v`: it is `v` from the first up to the
/// second position returned.
pub fn trim_range(v: &Vec<char>) -> (r: (usize, usize))
    ensures
        r.0 <= r.1 <= v.len(),
        v@.subrange(r.0 as int, r.1 as int) == trim(v@),
{
    let n = v.len();
    let mut start: usize = 0;
    assert(v@.subrange(0, n as int) == v@);
    while start < n && is_space(v[start])
        invariant
            start <= n == v.len(),
            trim_start(v@) == trim_start(v@.subrange(start as int, n as int)),
        decreases n - start,
    {
        assert(v@.subrange(start as int, n as int).drop_first() == v@.subrange(
            start as int + 1,
            n as int,
        ));
        start += 1;
    }
    assert(trim_start(v@) == v@.subrange(start as int, n as int));
    let mut end: usize = n;
    while end > start && is_space(v[end - 1])
        invariant
            start <= end <= n == v.len(),
            trim(v@) == trim_end(v@.subrange(start as int, end as int)),
        decreases end,
    {
        assert(v@.subrange(start as int, end as int).drop_last() == v@.subrange(
            start as int,
            end as int - 1,
        ));
        end -= 1;
    }
    (start, end)
}

/// The lines of `v`.
pub fn lines_of(v: &Vec<char>) -> (r: Vec<Vec<char>>)
    ensures
        line_views(r@) == lines(v@),
{
    let n = v.len();
    let mut out: Vec<Vec<char>> = Vec::new();
    let mut pos: usize = 0;
    assert(v@.skip(0) == v@);
    assert(line_views(out@) + lines(v@) == lines(v@));
    while pos < n
        invariant
            pos <= n == v.len(),
            line_views(out@) + lines(v@.skip(pos as int)) == lines(v@),
        decreases n - pos,
    {
        let ghost rest = v@.skip(pos as int);
        let mut end: usize = pos;
        while end < n && v[end] != '\n'
            invariant
                pos <= end <= n == v.len(),
                line_end(v@.skip(pos as int)) == (end - pos) + line_end(v@.skip(end as int)),
            decreases n - end,
        {
            assert(v@.skip(end as int).drop_first() == v@.skip(end as int + 1));
            end += 1;
        }
        assert(line_end(rest) == end - pos);
        let ghost before = out@;
        if end < n {
            let stop = if end > pos && v[end - 1] == '\r' {
                end - 1
            } else {
                end
            };
            let line = copy_range(v, pos, stop);
            proof {
                assert(rest.take(end - pos) == v@.subrange(pos as int, end as int));
                assert(line@ == without_cr(rest.take(end - pos)));
                assert(rest.skip(end - pos + 1) == v@.skip(end as int + 1));
            }
            out.push(line);
            pos = end + 1;
            proof {
                assert(lines(rest) == seq![line@] + lines(v@.skip(pos as int)));
                assert(line_views(out@) == line_views(before) + seq![line@]);
                assert(line_views(out@) + lines(v@.skip(pos as int)) == line_views(before) + lines(
                    rest,
                ));
            }
        } else {
            let line = copy_range(v, pos, n);
            proof {
                assert(line@ == rest);
                assert(lines(rest) == seq![rest]);
            }
            out.push(line);
            pos = n;
            proof {
                assert(v@.skip(n as int).len() == 0);
                assert(line_views(out@) == line_views(before) + seq![line@]);
                assert(line_views(out@) + lines(v@.skip(pos as int)) == line_views(before) + lines(
                    rest,
                ));
            }
        }
    }
    assert(v@.skip(n as int).len() == 0);
    assert(line_views(out@) + Seq::<Seq<char>>::empty() == line_views(out@));
    out
}

/// Whether `line`, once trimmed, is the separator.
pub fn line_is_separator(line: &Vec<char>, separator: &Vec<char>) -> (r: bool)
    ensures
        r == is_separator(line@, separator@),
{
    let (from, to) = trim_range(line);
    if to - from != separator.len() {
        return false;
    }
    let mut i: usize = 0;
    while i < separator.len()
        invariant
            from <= to <= line.len(),
            to - from == separator.len(),
            line@.subrange(from as int, to as int) == trim(line@),
            i <= separator.len(),
            forall|k: int| 0 <= k < i ==> line@[from + k] == separator@[k],
        decreases separator.len() - i,
    {
        if line[from + i] != separator[i] {
            assert(line@.subrange(from as int, to as int)[i as int] != separator@[i as int]);
            return false;
        }
        i += 1;
    }
    assert(line@.subrange(from as int, to as int) =~= separator@);
    true
}

/// Appends the characters of `more` to `to`.
pub fn append_chars(to: &mut Vec<char>, more: &Vec<char>)
    ensures
        final(to)@ == old(to)@ + more@,
{
    let mut i: usize = 0;
    while i < more.len()
        invariant
            i <= more.len(),
            to@ == old(to)@ + more@.take(i as int),
        decreases more.len() - i,
    {
        to.push(more[i]);
        i += 1;
    }
    assert(more@.take(more.len() as int) == more@);
}

/// The part that a run of lines makes: the lines joined, then trimmed.
pub open spec fn part(chunk: Seq<Seq<char>>) -> Seq<char> {
    trim(join(chunk))
}

/// There is always a run of lines, even where there is no line.
pub proof fn lemma_chunks_len(lines: Seq<Seq<char>>, separator: Seq<char>)
    ensures
        chunks(lines, separator).len() >= 1,
    decreases lines.len(),
{
    if lines.len() > 0 {
        lemma_chunks_len(lines.drop_last(), separator);
    }
}

/// Whether `body` holds a separator line, that is, whether it is a thread.
pub fn has_separator_line(body: &str, separator: &str) -> (r: bool)
    ensures
        r == is_thread(body@, separator@),
{
    let chars = chars_of(body);
    let sep = chars_of(separator);
    let ls = lines_of(&chars);
    let mut i: usize = 0;
    while i < ls.len()
        invariant
            i <= ls.len(),
            line_views(ls@) == lines(body@),
            sep@ == separator@,
            forall|k: int| 0 <= k < i ==> !is_separator(#[trigger] lines(body@)[k], separator@),
        decreases ls.len() - i,
    {
        if line_is_separator(&ls[i], &sep) {
            assert(line_views(ls@)[i as int] == ls@[i as int]@);
            assert(is_separator(lines(body@)[i as int], separator@));
            return true;
        }
        assert(line_views(ls@)[i as int] == ls@[i as int]@);
        i += 1;
    }
    false
}

/// The parts of `body`, one string for each, in the order of its lines.
pub fn split_text(body: &str, separator: &str) -> (r: Vec<String>)
    ensures
        string_views(r@) == split(body@, separator@),
{
    let chars = chars_of(body);
    let sep = chars_of(separator);
    let ls = lines_of(&chars);
    let mut parts: Vec<String> = Vec::new();
    let mut current: Vec<char> = Vec::new();
    let mut count: usize = 0;
    let mut i: usize = 0;
    assert(line_views(ls@).take(0) == Seq::<Seq<char>>::empty());
    assert(string_views(parts@) == chunks(line_views(ls@).take(0), sep@).drop_last().map_values(
        |chunk: Seq<Seq<char>>| part(chunk),
    ));
    while i < ls.len()
        invariant
            i <= ls.len(),
            count <= i,
            chunks(line_views(ls@).take(i as int), sep@).len() >= 1,
            string_views(parts@) == chunks(
                line_views(ls@).take(i as int),
                sep@,
            ).drop_last().map_values(|chunk: Seq<Seq<char>>| part(chunk)),
            current@ == join(chunks(line_views(ls@).take(i as int), sep@).last()),
            count == chunks(line_views(ls@).take(i as int), sep@).last().len(),
        decreases ls.len() - i,
    {
        let ghost before = chunks(line_views(ls@).take(i as int), sep@);
        let ghost after = chunks(line_views(ls@).take(i as int + 1), sep@);
        let ghost done = parts@;
        let line = &ls[i];
        proof {
            let upto = line_views(ls@).take(i as int + 1);
            assert(upto.drop_last() == line_views(ls@).take(i as int));
            assert(upto.last() == line@);
            lemma_chunks_len(upto, sep@);
        }
        if line_is_separator(line, &sep) {
            let (from, to) = trim_range(&current);
            let text = string_of(&current, from, to);
            parts.push(text);
            current = Vec::new();
            count = 0;
            proof {
                assert(after == before.push(Seq::empty()));
                assert(after.drop_last() == before);
                assert(before == before.drop_last().push(before.last()));
                assert(string_views(parts@) == string_views(done).push(text@));
                assert(string_views(parts@) == after.drop_last().map_values(
                    |chunk: Seq<Seq<char>>| part(chunk),
                ));
            }
        } else {
            if count > 0 {
                current.push('\n');
            }
            append_chars(&mut current, line);
            count += 1;
            proof {
                assert(after == before.update(before.len() - 1, before.last().push(line@)));
                assert(after.drop_last() == before.drop_last());
                assert(after.last() == before.last().push(line@));
                assert(after.last().drop_last() == before.last());
            }
        }
        i += 1;
    }
    let (from, to) = trim_range(&current);
    let text = string_of(&current, from, to);
    let ghost done = parts@;
    parts.push(text);
    proof {
        let all = chunks(line_views(ls@), sep@);
        assert(line_views(ls@).take(ls.len() as int) == line_views(ls@));
        assert(all == all.drop_last().push(all.last()));
        assert(string_views(parts@) == string_views(done).push(text@));
        assert(string_views(parts@) == all.map_values(|chunk: Seq<Seq<char>>| part(chunk)));
        assert(string_views(parts@) == split(body@, separator@));
    }
    parts
}

/// Whether two texts hold the same characters.
pub fn same_text(a: &str, b: &str) -> (r: bool)
    ensures
        r == (a@ == b@),
{
    let left = chars_of(a);
    let right = chars_of(b);
    if left.len() != right.len() {
        return false;
    }
    let mut i: usize = 0;
    while i < left.len()
        invariant
            i <= left.len() == right.len(),
            left@ == a@,
            right@ == b@,
            forall|k: int| 0 <= k < i ==> left@[k] == right@[k],
        decreases left.len() - i,
    {
        if left[i] != right[i] {
            return false;
        }
        i += 1;
    }
    assert(left@ =~= right@);
    true
}

} // verus!
