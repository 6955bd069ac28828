//! Full-text search over descriptions and notes.

use vstd::prelude::*;
use crate::text::{chars_of, string_from_chars};

verus! {

/// The text with every `"` doubled.
pub open spec fn doubled_quotes(s: Seq<char>) -> Seq<char>
    decreases s.len(),
{
    if s.len() == 0 {
        Seq::empty()
    } else if s.last() == '"' {
        doubled_quotes(s.drop_last()) + seq!['"', '"']
    } else {
        doubled_quotes(s.drop_last()).push(s.last())
    }
}

/// The FTS5 query for a raw search text: one quoted string, so that the
/// user's text is matched as a phrase and never read as query syntax.
pub open spec fn fts_phrase(raw: Seq<char>) -> Seq<char> {
    seq!['"'] + doubled_quotes(raw) + seq!['"']
}

/// Quote a search text for an FTS5 `MATCH`, doubling its quotes.
pub fn sanitize_fts_query(raw: &str) -> (r: String)
    ensures
        r@ == fts_phrase(raw@),
{
    let cs = chars_of(raw);
    let mut out: Vec<char> = Vec::new();
    out.push('"');
    for i in 0..cs.len()
        invariant
            cs@ == raw@,
            out@ == seq!['"'] + doubled_quotes(cs@.take(i as int)),
    {
        assert(cs@.take(i + 1).drop_last() =~= cs@.take(i as int));
        if cs[i] == '"' {
            out.push('"');
            out.push('"');
        } else {
            out.push(cs[i]);
        }
        assert(out@ =~= seq!['"'] + doubled_quotes(cs@.take(i + 1)));
    }
    out.push('"');
    assert(cs@.take(cs@.len() as int) =~= raw@);
    assert(out@ =~= fts_phrase(raw@));
    string_from_chars(out.as_slice())
}

/// The query a search runs, or `None` when the text is empty and the
/// search answers with no rows at once.
pub fn search_query(query: &str) -> (r: Option<String>)
    ensures
        r is None <==> query@.len() == 0,
        r matches Some(q) ==> q@ == fts_phrase(query@),
{
    if query.is_empty() {
        None
    } else {
        Some(sanitize_fts_query(query))
    }
}

/// How FTS5 reads the inside of a quoted string: a doubled `"` stands for
/// one `"`.
pub open spec fn undoubled_quotes(s: Seq<char>) -> Seq<char>
    decreases s.len(),
{
    if s.len() >= 2 && s.last() == '"' && s[s.len() - 2] == '"' {
        undoubled_quotes(s.subrange(0, s.len() - 2)).push('"')
    } else if s.len() > 0 {
        undoubled_quotes(s.drop_last()).push(s.last())
    } else {
        Seq::empty()
    }
}

/// The quoted search is read back as exactly the user's text: the phrase
/// starts and ends with a quote, and its inside, with doubled quotes read
/// as one, is the raw text. No input can end the string early or inject
/// query syntax.
pub proof fn fts_phrase_reads_back(raw: Seq<char>)
    ensures
        fts_phrase(raw)[0] == '"',
        fts_phrase(raw).last() == '"',
        undoubled_quotes(fts_phrase(raw).subrange(1, fts_phrase(raw).len() - 1)) == raw,
    decreases raw.len(),
{
    let q = fts_phrase(raw);
    assert(q.subrange(1, q.len() - 1) =~= doubled_quotes(raw));
    lemma_undouble(raw);
}

proof fn lemma_undouble(raw: Seq<char>)
    ensures
        undoubled_quotes(doubled_quotes(raw)) == raw,
    decreases raw.len(),
{
    if raw.len() > 0 {
        lemma_undouble(raw.drop_last());
        let d = doubled_quotes(raw.drop_last());
        if raw.last() == '"' {
            let e = d + seq!['"', '"'];
            assert(e.subrange(0, e.len() - 2) =~= d);
        } else {
            let e = d.push(raw.last());
            assert(e.drop_last() =~= d);
        }
        assert(raw.drop_last().push(raw.last()) =~= raw);
    }
}

} // verus!
