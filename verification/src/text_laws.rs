//! What holds of the parts of a body, whatever the body and the separator.

use crate::text::{
    chunks, is_separator, is_thread, is_whitespace, join, lemma_chunks_len, lines, split, trim,
    trim_end, trim_start,
};
use vstd::prelude::*;

verus! {

/// What is left after the whitespace at the start is gone does not start
/// with whitespace, and is an end of the text.
pub proof fn lemma_trim_start_is_done(s: Seq<char>)
    ensures
        trim_start(s).len() > 0 ==> !is_whitespace(trim_start(s).first()),
        trim_start(s).len() <= s.len(),
        trim_start(trim_start(s)) == trim_start(s),
    decreases s.len(),
{
    if s.len() > 0 && is_whitespace(s.first()) {
        lemma_trim_start_is_done(s.drop_first());
    }
}

/// What is left after the whitespace at the end is gone does not end with
/// whitespace, and starts as the text does.
pub proof fn lemma_trim_end_is_done(s: Seq<char>)
    ensures
        trim_end(s).len() > 0 ==> !is_whitespace(trim_end(s).last()),
        trim_end(s).len() > 0 ==> trim_end(s).first() == s.first(),
        trim_end(s).len() <= s.len(),
        trim_end(trim_end(s)) == trim_end(s),
    decreases s.len(),
{
    if s.len() > 0 && is_whitespace(s.last()) {
        lemma_trim_end_is_done(s.drop_last());
        if trim_end(s).len() > 0 {
            assert(s.drop_last().first() == s.first());
        }
    }
}

/// Trimming a trimmed text changes nothing.
pub proof fn lemma_trim_is_done(s: Seq<char>)
    ensures
        trim(trim(s)) == trim(s),
{
    let t = trim(s);
    lemma_trim_start_is_done(s);
    lemma_trim_end_is_done(trim_start(s));
    assert(trim_start(t) == t);
}

/// There is one run of lines more than there are separator lines: only lines
/// that are no separator make one run.
pub proof fn lemma_one_chunk_without_separator(lines: Seq<Seq<char>>, separator: Seq<char>)
    ensures
        chunks(lines, separator).len() >= 1,
        chunks(lines, separator).len() == 1 <==> forall|i: int|
            0 <= i < lines.len() ==> !is_separator(#[trigger] lines[i], separator),
        chunks(lines, separator).len() == 1 ==> chunks(lines, separator)[0] == lines,
    decreases lines.len(),
{
    if lines.len() > 0 {
        let before = lines.drop_last();
        lemma_one_chunk_without_separator(before, separator);
        if is_separator(lines.last(), separator) {
        } else {
            if chunks(before, separator).len() == 1 {
                assert forall|i: int| 0 <= i < lines.len() implies !is_separator(
                    #[trigger] lines[i],
                    separator,
                ) by {
                    if i < lines.len() - 1 {
                        assert(lines[i] == before[i]);
                    }
                }
                assert(chunks(lines, separator)[0] =~= lines);
            } else {
                let i = choose|i: int|
                    0 <= i < before.len() && is_separator(#[trigger] before[i], separator);
                assert(lines[i] == before[i]);
            }
        }
    } else {
        assert(chunks(lines, separator)[0] =~= lines);
    }
}

/// A body always has a part, even the empty body.
pub proof fn law_split_is_never_empty(body: Seq<char>, separator: Seq<char>)
    ensures
        split(body, separator).len() >= 1,
{
    lemma_chunks_len(lines(body), separator);
}

/// A body is a thread exactly when it has more than one part.
pub proof fn law_thread_has_several_parts(body: Seq<char>, separator: Seq<char>)
    ensures
        is_thread(body, separator) <==> split(body, separator).len() >= 2,
{
    lemma_one_chunk_without_separator(lines(body), separator);
}

/// A body without separator line has one part: its lines joined and trimmed.
pub proof fn law_body_without_separator_is_one_part(body: Seq<char>, separator: Seq<char>)
    requires
        !is_thread(body, separator),
    ensures
        split(body, separator) == seq![trim(join(lines(body)))],
{
    lemma_one_chunk_without_separator(lines(body), separator);
    assert(split(body, separator) =~= seq![trim(join(lines(body)))]);
}

/// No part starts or ends with whitespace: trimming a part changes nothing.
pub proof fn law_parts_are_trimmed(body: Seq<char>, separator: Seq<char>, i: int)
    requires
        0 <= i < split(body, separator).len(),
    ensures
        trim(split(body, separator)[i]) == split(body, separator)[i],
{
    lemma_trim_is_done(join(chunks(lines(body), separator)[i]));
}

} // verus!
