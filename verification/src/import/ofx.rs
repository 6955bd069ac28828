//! OFX / QFX statements (1.x SGML and 2.x XML): one row per `<STMTTRN>`.
//!
//! Tags are found without regard to ASCII case, because exporters vary.

use vstd::prelude::*;
use crate::import::amount::{amount_cents, amount_error, debug_escaped, debug_text};
use crate::import::csv::parse_amount;
use crate::import::json::{json_object_text, json_string_object, members_view};
use crate::import::ParsedRow;
use crate::text::{
    chars_of, concat_str, find_from, find_from_exec, index_of_exec, index_of_from, int_chars,
    int_text, rfind, rfind_exec, string_from_chars, trim, trim_chars,
};

verus! {

/// The characters of `s` from `a` up to `b`.
pub fn copy_range(s: &[char], a: usize, b: usize) -> (v: Vec<char>)
    requires
        a <= b <= s@.len(),
    ensures
        v@ == s@.subrange(a as int, b as int),
{
    let mut v: Vec<char> = Vec::new();
    let mut i = a;
    while i < b
        invariant
            a <= i <= b,
            b <= s@.len(),
            v@ == s@.subrange(a as int, i as int),
        decreases b - i,
    {
        v.push(s[i]);
        i = i + 1;
        assert(v@ =~= s@.subrange(a as int, i as int));
    }
    v
}

/// `<tag>` as it is searched for.
pub open spec fn open_tag(tag: Seq<char>) -> Seq<char> {
    seq!['<'] + tag + seq!['>']
}

/// The text value of the first `<tag>` in `block`: what follows the tag up
/// to the next `<` (or the end), trimmed; `None` when the tag is absent or
/// its value is blank. This reads OFX 1.x leaves, which have no closing
/// tag, and OFX 2.x elements alike.
///
/// The tag is found without regard to ASCII case, comparing characters, and
/// the value is taken from the text right after that occurrence. For the
/// OFX tag names this finds the same occurrence as a search in the
/// Unicode-lowercased text would: the only non-ASCII characters that
/// lowercase to ASCII letters are the Kelvin sign (to `k`, in no tag name)
/// and `İ` (to `i` and a combining dot, which no tag name has after an
/// `i`). The value is then read at that occurrence even where lowercasing
/// changes how many bytes a character takes.
pub open spec fn tag_value(block: Seq<char>, tag: Seq<char>) -> Option<Seq<char>> {
    match find_from(block, open_tag(tag), 0) {
        None => None,
        Some(p) => {
            let rest = block.subrange(p + open_tag(tag).len(), block.len() as int);
            let v = trim(rest.take(index_of_from(rest, '<', 0)));
            if v.len() == 0 {
                None
            } else {
                Some(v)
            }
        },
    }
}

/// A match that `find_from` reports starts at or after `i` and ends inside
/// the text.
pub proof fn lemma_find_from_bounds(s: Seq<char>, pat: Seq<char>, i: int)
    ensures
        find_from(s, pat, i) matches Some(p) ==> i <= p && p + pat.len() <= s.len(),
    decreases s.len() - i,
{
    if !(i < 0 || i + pat.len() > s.len()) && !crate::text::matches_at(s, pat, i) {
        lemma_find_from_bounds(s, pat, i + 1);
    }
}

proof fn lemma_rfind_from_bounds(s: Seq<char>, pat: Seq<char>, i: int)
    requires
        i + pat.len() <= s.len(),
    ensures
        rfind_from_ok(s, pat, i),
    decreases i + 1,
{
    if i >= 0 && !crate::text::matches_at(s, pat, i) {
        lemma_rfind_from_bounds(s, pat, i - 1);
    }
}

spec fn rfind_from_ok(s: Seq<char>, pat: Seq<char>, i: int) -> bool {
    crate::text::rfind_from(s, pat, i) matches Some(p) ==> 0 <= p && p + pat.len() <= s.len()
}

proof fn lemma_index_of_bounds(s: Seq<char>, c: char, i: int)
    requires
        0 <= i,
    ensures
        0 <= index_of_from(s, c, i) <= s.len(),
    decreases s.len() - i,
{
    if i < s.len() && s[i] != c {
        lemma_index_of_bounds(s, c, i + 1);
    }
}

fn tag_in(block: &[char], tag: &str) -> (r: Option<Vec<char>>)
    ensures
        r matches Some(v) ==> tag_value(block@, tag@) == Some(v@),
        r is None ==> tag_value(block@, tag@) is None,
{
    let tag_chars = chars_of(tag);
    let mut pat: Vec<char> = Vec::new();
    pat.push('<');
    for i in 0..tag_chars.len()
        invariant
            pat@ == seq!['<'] + tag_chars@.take(i as int),
    {
        pat.push(tag_chars[i]);
        assert(pat@ =~= seq!['<'] + tag_chars@.take(i + 1));
    }
    pat.push('>');
    assert(tag_chars@.take(tag_chars@.len() as int) =~= tag@);
    assert(pat@ =~= open_tag(tag@));
    match find_from_exec(block, pat.as_slice(), 0) {
        None => None,
        Some(p) => {
            proof {
                lemma_find_from_bounds(block@, pat@, 0);
            }
            assert(p + pat.len() <= block.len());
            let rest = copy_range(block, p + pat.len(), block.len());
            let e = index_of_exec(rest.as_slice(), '<', 0);
            proof {
                lemma_index_of_bounds(rest@, '<', 0);
            }
            let head = copy_range(rest.as_slice(), 0, e);
            assert(head@ =~= rest@.take(e as int));
            let v = trim_chars(head.as_slice());
            if v.len() == 0 {
                None
            } else {
                Some(v)
            }
        },
    }
}

/// The trimmed text value of the first `<tag>` in `block` (see `tag_value`).
pub fn extract_tag(block: &str, tag: &str) -> (r: Option<String>)
    ensures
        r matches Some(v) ==> tag_value(block@, tag@) == Some(v@),
        r is None ==> tag_value(block@, tag@) is None,
{
    let b = chars_of(block);
    match tag_in(b.as_slice(), tag) {
        Some(v) => Some(string_from_chars(v.as_slice())),
        None => None,
    }
}

/// How many bytes a character takes in UTF-8.
pub open spec fn utf8_width(c: char) -> nat {
    if (c as u32) < 0x80 {
        1
    } else if (c as u32) < 0x800 {
        2
    } else if (c as u32) < 0x10000 {
        3
    } else {
        4
    }
}

/// How many bytes a text takes in UTF-8.
pub open spec fn utf8_len(s: Seq<char>) -> nat
    decreases s.len(),
{
    if s.len() == 0 {
        0
    } else {
        utf8_len(s.drop_last()) + utf8_width(s.last())
    }
}

pub open spec fn is_ascii_digit(c: char) -> bool {
    '0' <= c <= '9'
}

/// An OFX date (`YYYYMMDD`, maybe followed by a time and a zone) as the
/// calendar date `YYYY-MM-DD`; the time and the zone are dropped.
pub open spec fn ofx_date(s: Seq<char>) -> Result<Seq<char>, Seq<char>> {
    let t = trim(s);
    if utf8_len(t) < 8 {
        Err("OFX date too short: "@ + debug_escaped(t))
    } else if !(t.len() >= 8 && forall|j: int| 0 <= j < 8 ==> is_ascii_digit(#[trigger] t[j])) {
        Err("OFX date has non-digit chars: "@ + debug_escaped(t))
    } else {
        Ok(t.subrange(0, 4) + seq!['-'] + t.subrange(4, 6) + seq!['-'] + t.subrange(6, 8))
    }
}

proof fn lemma_utf8_take_step(s: Seq<char>, k: int)
    requires
        0 <= k < s.len(),
    ensures
        utf8_len(s.take(k + 1)) == utf8_len(s.take(k)) + utf8_width(s[k]),
{
    assert(s.take(k + 1).drop_last() =~= s.take(k));
}

proof fn lemma_utf8_take_le(s: Seq<char>, k: int)
    requires
        0 <= k <= s.len(),
    ensures
        utf8_len(s.take(k)) <= utf8_len(s),
    decreases s.len() - k,
{
    if k < s.len() {
        lemma_utf8_take_step(s, k);
        lemma_utf8_take_le(s, k + 1);
    } else {
        assert(s.take(k) =~= s);
    }
}

/// Take the first 8 chars of an OFX date string (YYYYMMDD) and return
/// YYYY-MM-DD. OFX dates may include time and timezone
/// (`20260115120000.000[-5:EST]`); everything past the date is dropped,
/// because transaction dates are calendar dates. A trimmed text under eight
/// bytes is too short; otherwise its first eight characters must be ASCII
/// digits, or the date is refused.
pub fn parse_ofx_date(s: &str) -> (r: Result<String, String>)
    ensures
        r matches Ok(d) ==> ofx_date(s@) == Ok::<Seq<char>, Seq<char>>(d@),
        r matches Err(e) ==> ofx_date(s@) == Err::<Seq<char>, Seq<char>>(e@),
{
    let t = crate::text::trimmed_chars(s);
    let mut k: usize = 0;
    let mut bytes: usize = 0;
    while k < t.len() && bytes < 8
        invariant
            k <= t@.len(),
            bytes <= 11,
            bytes == utf8_len(t@.take(k as int)),
        decreases t@.len() - k,
    {
        proof {
            lemma_utf8_take_step(t@, k as int);
        }
        let c = t[k] as u32;
        let w: usize = if c < 0x80 {
            1
        } else if c < 0x800 {
            2
        } else if c < 0x10000 {
            3
        } else {
            4
        };
        bytes = bytes + w;
        k = k + 1;
    }
    proof {
        lemma_utf8_take_le(t@, k as int);
        if k == t@.len() {
            assert(t@.take(k as int) =~= t@);
        }
    }
    if bytes < 8 {
        let ts = string_from_chars(t.as_slice());
        let d = debug_text(ts.as_str());
        return Err(concat_str("OFX date too short: ", d.as_str()));
    }
    let mut digits = t.len() >= 8;
    if digits {
        let mut j: usize = 0;
        while j < 8
            invariant
                t@.len() >= 8,
                j <= 8,
                digits == forall|i: int| 0 <= i < j ==> is_ascii_digit(#[trigger] t@[i]),
            decreases 8 - j,
        {
            digits = digits && '0' <= t[j] && t[j] <= '9';
            j = j + 1;
        }
    }
    if !digits {
        let ts = string_from_chars(t.as_slice());
        let d = debug_text(ts.as_str());
        return Err(concat_str("OFX date has non-digit chars: ", d.as_str()));
    }
    let mut out: Vec<char> = Vec::new();
    let mut i: usize = 0;
    while i < 8
        invariant
            t@.len() >= 8,
            i <= 8,
            out@ == (if i <= 4 {
                t@.subrange(0, i as int)
            } else if i <= 6 {
                t@.subrange(0, 4) + seq!['-'] + t@.subrange(4, i as int)
            } else {
                t@.subrange(0, 4) + seq!['-'] + t@.subrange(4, 6) + seq!['-'] + t@.subrange(6, i as int)
            }),
        decreases 8 - i,
    {
        if i == 4 || i == 6 {
            out.push('-');
        }
        out.push(t[i]);
        i = i + 1;
        assert(out@ =~= (if i <= 4 {
            t@.subrange(0, i as int)
        } else if i <= 6 {
            t@.subrange(0, 4) + seq!['-'] + t@.subrange(4, i as int)
        } else {
            t@.subrange(0, 4) + seq!['-'] + t@.subrange(4, 6) + seq!['-'] + t@.subrange(6, i as int)
        }));
    }
    Ok(string_from_chars(out.as_slice()))
}

/// A row's fields: date, amount in cents, description, raw JSON, source id.
pub type RowFields = (Seq<char>, int, Seq<char>, Seq<char>, Option<Seq<char>>);

pub open spec fn row_fields(r: ParsedRow) -> RowFields {
    (
        r.date@,
        r.amount_cents as int,
        r.description@,
        r.raw_json@,
        match r.source_id {
            Some(s) => Some(s@),
            None => None,
        },
    )
}

pub open spec fn or_empty(o: Option<Seq<char>>) -> Seq<char> {
    match o {
        Some(v) => v,
        None => Seq::empty(),
    }
}

/// NAME, then " - " and MEMO when MEMO is present and differs; MEMO alone
/// when there is no NAME; `None` when both are missing.
pub open spec fn description_of(name: Option<Seq<char>>, memo: Option<Seq<char>>) -> Option<Seq<char>> {
    let n = or_empty(name);
    let m = or_empty(memo);
    if n.len() == 0 && m.len() == 0 {
        None
    } else if n.len() == 0 {
        Some(m)
    } else if m.len() > 0 && m != n {
        Some(n + " - "@ + m)
    } else {
        Some(n)
    }
}

/// The dedup key of an OFX row: the FITID when there is one, else date,
/// amount and description.
pub open spec fn ofx_source_id(
    account_id: Seq<char>,
    fitid: Option<Seq<char>>,
    date: Seq<char>,
    cents: int,
    description: Seq<char>,
) -> Seq<char> {
    match fitid {
        Some(id) => "ofx|"@ + account_id + "|"@ + id,
        None => "ofx|"@ + account_id + "|"@ + date + "|"@ + int_text(cents) + "|"@ + description,
    }
}

/// The members of the raw JSON record: DTPOSTED and TRNAMT always, then
/// FITID, NAME and MEMO where present.
pub open spec fn raw_members(
    dtposted: Seq<char>,
    trnamt: Seq<char>,
    fitid: Option<Seq<char>>,
    name: Option<Seq<char>>,
    memo: Option<Seq<char>>,
) -> Seq<(Seq<char>, Seq<char>)> {
    let base = seq![("DTPOSTED"@, dtposted), ("TRNAMT"@, trnamt)];
    let with_fitid = match fitid {
        Some(id) => base.push(("FITID"@, id)),
        None => base,
    };
    let with_name = match name {
        Some(n) => with_fitid.push(("NAME"@, n)),
        None => with_fitid,
    };
    match memo {
        Some(m) => with_name.push(("MEMO"@, m)),
        None => with_name,
    }
}

/// What one `<STMTTRN>` block gives: a row, or why it was skipped.
pub open spec fn stmttrn_outcome(block: Seq<char>, account_id: Seq<char>) -> Result<RowFields, Seq<char>> {
    match tag_value(block, "DTPOSTED"@) {
        None => Err("missing DTPOSTED"@),
        Some(dt) => match ofx_date(dt) {
            Err(e) => Err(e),
            Ok(date) => match tag_value(block, "TRNAMT"@) {
                None => Err("missing TRNAMT"@),
                Some(amt) => match amount_cents(amt) {
                    None => Err(amount_error(amt)),
                    Some(cents) => {
                        let name = tag_value(block, "NAME"@);
                        let memo = tag_value(block, "MEMO"@);
                        let fitid = tag_value(block, "FITID"@);
                        match description_of(name, memo) {
                            None => Err("missing NAME and MEMO"@),
                            Some(desc) => Ok(
                                (
                                    date,
                                    cents,
                                    desc,
                                    json_string_object(raw_members(dt, amt, fitid, name, memo)),
                                    Some(ofx_source_id(account_id, fitid, date, cents, desc)),
                                ),
                            ),
                        }
                    },
                },
            },
        },
    }
}

pub open spec fn row_outcome(r: Result<ParsedRow, String>) -> Result<RowFields, Seq<char>> {
    match r {
        Ok(row) => Ok(row_fields(row)),
        Err(e) => Err(e@),
    }
}

pub open spec fn opt_string_view(o: Option<String>) -> Option<Seq<char>> {
    match o {
        Some(s) => Some(s@),
        None => None,
    }
}

fn opt_text(o: &Option<String>) -> (r: String)
    ensures
        r@ == or_empty(opt_string_view(*o)),
{
    match o {
        Some(s) => String::from_str(s.as_str()),
        None => String::new(),
    }
}

/// One `<STMTTRN>` block as a row.
pub fn parse_stmttrn(block: &str, account_id: &str) -> (r: Result<ParsedRow, String>)
    ensures
        row_outcome(r) == stmttrn_outcome(block@, account_id@),
{
    let dtposted = match extract_tag(block, "DTPOSTED") {
        Some(v) => v,
        None => return Err(String::from_str("missing DTPOSTED")),
    };
    let date = match parse_ofx_date(dtposted.as_str()) {
        Ok(d) => d,
        Err(e) => return Err(e),
    };
    let trnamt = match extract_tag(block, "TRNAMT") {
        Some(v) => v,
        None => return Err(String::from_str("missing TRNAMT")),
    };
    let amount_cents = match parse_amount(trnamt.as_str()) {
        Ok(c) => c,
        Err(e) => return Err(e),
    };
    let name_tag = extract_tag(block, "NAME");
    let memo_tag = extract_tag(block, "MEMO");
    let name = opt_text(&name_tag);
    let memo = opt_text(&memo_tag);
    let description = if name.as_str().is_empty() && memo.as_str().is_empty() {
        return Err(String::from_str("missing NAME and MEMO"));
    } else if name.as_str().is_empty() {
        String::from_str(memo.as_str())
    } else if !memo.as_str().is_empty() && !crate::text::str_eq(memo.as_str(), name.as_str()) {
        let head = concat_str(name.as_str(), " - ");
        concat_str(head.as_str(), memo.as_str())
    } else {
        String::from_str(name.as_str())
    };
    let fitid = extract_tag(block, "FITID");
    let head = concat_str("ofx|", account_id);
    let head = concat_str(head.as_str(), "|");
    let source_id = match &fitid {
        Some(id) => concat_str(head.as_str(), id.as_str()),
        None => {
            let s1 = concat_str(head.as_str(), date.as_str());
            let s2 = concat_str(s1.as_str(), "|");
            let cents_text = int_chars(amount_cents);
            let cents = string_from_chars(cents_text.as_slice());
            let s3 = concat_str(s2.as_str(), cents.as_str());
            let s4 = concat_str(s3.as_str(), "|");
            concat_str(s4.as_str(), description.as_str())
        },
    };
    let mut members: Vec<(String, String)> = Vec::new();
    members.push((String::from_str("DTPOSTED"), String::from_str(dtposted.as_str())));
    members.push((String::from_str("TRNAMT"), String::from_str(trnamt.as_str())));
    let ghost dt = dtposted@;
    let ghost amt = trnamt@;
    let ghost fid = opt_string_view(fitid);
    let ghost nm = opt_string_view(name_tag);
    let ghost mm = opt_string_view(memo_tag);
    assert(members_view(members@) =~= seq![("DTPOSTED"@, dt), ("TRNAMT"@, amt)]);
    let ghost m1 = members_view(members@);
    match &fitid {
        Some(id) => members.push((String::from_str("FITID"), String::from_str(id.as_str()))),
        None => {},
    }
    assert(members_view(members@) =~= match fid {
        Some(i) => m1.push(("FITID"@, i)),
        None => m1,
    });
    let ghost m2 = members_view(members@);
    if !name.as_str().is_empty() {
        members.push((String::from_str("NAME"), String::from_str(name.as_str())));
    }
    assert(members_view(members@) =~= match nm {
        Some(n) => m2.push(("NAME"@, n)),
        None => m2,
    });
    let ghost m3 = members_view(members@);
    if !memo.as_str().is_empty() {
        members.push((String::from_str("MEMO"), String::from_str(memo.as_str())));
    }
    assert(members_view(members@) =~= match mm {
        Some(m) => m3.push(("MEMO"@, m)),
        None => m3,
    });
    let raw_json = json_object_text(&members);
    Ok(ParsedRow { date, amount_cents, description, raw_json, source_id: Some(source_id) })
}

pub open spec fn open_stmttrn() -> Seq<char> {
    seq!['<', 's', 't', 'm', 't', 't', 'r', 'n', '>']
}

pub open spec fn close_stmttrn() -> Seq<char> {
    seq!['<', '/', 's', 't', 'm', 't', 't', 'r', 'n', '>']
}

/// The transaction blocks of an OFX text, searched from `start`: for each
/// `</STMTTRN>`, the text after the last `<STMTTRN>` that precedes it
/// within the stretch since the previous close; a close with no open
/// before it gives no block.
pub open spec fn stmttrn_blocks(content: Seq<char>, start: int) -> Seq<Seq<char>>
    decreases content.len() - start,
{
    if start < 0 || start > content.len() {
        Seq::empty()
    } else {
        match find_from(content, close_stmttrn(), start) {
            None => Seq::empty(),
            Some(c) => {
                proof {
                    lemma_find_from_bounds(content, close_stmttrn(), start);
                }
                let seg = content.subrange(start, c);
                let rest = stmttrn_blocks(content, c + close_stmttrn().len());
                match rfind(seg, open_stmttrn()) {
                    Some(o) => seq![seg.subrange(o + open_stmttrn().len(), seg.len() as int)] + rest,
                    None => rest,
                }
            },
        }
    }
}

pub open spec fn blocks_view(v: Seq<Vec<char>>) -> Seq<Seq<char>> {
    v.map_values(|b: Vec<char>| b@)
}

/// The transaction blocks of an OFX text (see `stmttrn_blocks`).
pub fn stmttrn_blocks_of(text: &[char]) -> (v: Vec<Vec<char>>)
    ensures
        blocks_view(v@) == stmttrn_blocks(text@, 0),
{
    let open: Vec<char> = vec!['<', 's', 't', 'm', 't', 't', 'r', 'n', '>'];
    let close: Vec<char> = vec!['<', '/', 's', 't', 'm', 't', 't', 'r', 'n', '>'];
    assert(open@ =~= open_stmttrn());
    assert(close@ =~= close_stmttrn());
    let ghost all = stmttrn_blocks(text@, 0);
    let mut blocks: Vec<Vec<char>> = Vec::new();
    let mut start: usize = 0;
    let mut more = true;
    while more
        invariant
            all == stmttrn_blocks(text@, 0),
            open@ == open_stmttrn(),
            close@ == close_stmttrn(),
            start <= text@.len(),
            all == blocks_view(blocks@) + (if more {
                stmttrn_blocks(text@, start as int)
            } else {
                Seq::<Seq<char>>::empty()
            }),
        decreases text@.len() - start + (if more { 1int } else { 0int }),
    {
        match find_from_exec(text, close.as_slice(), start) {
            None => {
                assert(blocks_view(blocks@) + Seq::<Seq<char>>::empty() =~= blocks_view(blocks@));
                more = false;
            },
            Some(c) => {
                proof {
                    lemma_find_from_bounds(text@, close@, start as int);
                }
                assert(c + close.len() <= text.len());
                let seg = copy_range(text, start, c);
                match rfind_exec(seg.as_slice(), open.as_slice()) {
                    Some(o) => {
                        proof {
                            if seg@.len() >= open@.len() {
                                lemma_rfind_from_bounds(seg@, open@, seg@.len() - open@.len());
                            }
                        }
                        let block = copy_range(seg.as_slice(), o + open.len(), seg.len());
                        let ghost before = blocks_view(blocks@);
                        blocks.push(block);
                        proof {
                            assert(blocks_view(blocks@) =~= before.push(blocks@.last()@));
                            assert(before + stmttrn_blocks(text@, start as int) =~= blocks_view(blocks@)
                                + stmttrn_blocks(text@, c + 10));
                        }
                    },
                    None => {},
                }
                start = c + close.len();
            },
        }
    }
    assert(blocks_view(blocks@) + Seq::<Seq<char>>::empty() =~= blocks_view(blocks@));
    blocks
}

/// Parse an OFX or QFX file (1.x SGML or 2.x XML) and return one result
/// per `<STMTTRN>` block. The outer `Result` is for file-level failures;
/// per-row errors are inner `Err` values so the caller can count skipped
/// rows.
pub fn parse_ofx(content: &str, account_id: &str) -> (r: Result<Vec<Result<ParsedRow, String>>, String>)
    ensures
        r matches Ok(rows) && rows@.len() == stmttrn_blocks(content@, 0).len() && forall|k: int|
            0 <= k < rows@.len() ==> row_outcome(#[trigger] rows@[k]) == stmttrn_outcome(
                stmttrn_blocks(content@, 0)[k],
                account_id@,
            ),
{
    let text = chars_of(content);
    let blocks = stmttrn_blocks_of(text.as_slice());
    let ghost all = stmttrn_blocks(content@, 0);
    let mut results: Vec<Result<ParsedRow, String>> = Vec::new();
    let n = blocks.len();
    for i in 0..n
        invariant
            n == blocks@.len(),
            blocks_view(blocks@) == all,
            all == stmttrn_blocks(content@, 0),
            results@.len() == i,
            forall|k: int|
                0 <= k < i ==> row_outcome(#[trigger] results@[k]) == stmttrn_outcome(all[k], account_id@),
    {
        assert(all[i as int] == blocks@[i as int]@);
        let block_text = string_from_chars(blocks[i].as_slice());
        results.push(parse_stmttrn(block_text.as_str(), account_id));
    }
    Ok(results)
}

} // verus!
