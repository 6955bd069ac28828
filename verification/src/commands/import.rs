//! Statement import: from parsed rows to candidates, the preview of what
//! an import would do, and which candidates an import writes.

use vstd::prelude::*;
use crate::import::csv::ParsedRow as CsvRow;
use crate::import::csv::{
    csv_header_fields, csv_record_fields, extract_preview, preview_outcome, preview_view, CsvPreview,
};
use crate::import::dedup::{Candidate, ClassifiedRecord, DedupClass};
use crate::import::ofx::ofx_source_id;
use crate::import::ParsedRow as OfxRow;
use crate::text::{concat_str, int_chars, int_text, str_eq, string_from_chars};

verus! {

#[derive(Debug)]
pub struct ImportResult {
    pub batch_id: String,
    pub imported_count: u32,
    pub skipped_count: u32,
    pub errors: Vec<String>,
}

#[derive(Debug)]
pub struct UncertainMatch {
    pub candidate_source_id: String,
    pub candidate_date: String,
    pub candidate_amount_cents: i64,
    pub candidate_description: String,
    pub existing_raw_record_id: String,
    pub existing_source_id: String,
}

#[derive(Debug)]
pub struct PendingImport {
    pub new_count: u32,
    pub exact_duplicate_count: u32,
    pub uncertain: Vec<UncertainMatch>,
    pub errors: Vec<String>,
}

#[derive(Debug, Default)]
pub struct ImportDecision {
    pub candidate_source_id: String,
    /// true = treat as duplicate and skip; false (default) = insert as new.
    pub accept_as_duplicate: bool,
}

/// A candidate's fields: source id, date, amount, description, raw JSON.
pub type CandidateFields = (Seq<char>, Seq<char>, int, Seq<char>, Seq<char>);

pub open spec fn candidate_fields(c: Candidate) -> CandidateFields {
    (c.source_id@, c.date@, c.amount_cents as int, c.description@, c.raw_json@)
}

pub open spec fn candidates_view(cs: Seq<Candidate>) -> Seq<CandidateFields> {
    cs.map_values(|c: Candidate| candidate_fields(c))
}

pub open spec fn strings_view(v: Seq<String>) -> Seq<Seq<char>> {
    v.map_values(|s: String| s@)
}

/// The dedup key of a CSV row.
pub open spec fn csv_source_key(account_id: Seq<char>, date: Seq<char>, cents: int, description: Seq<char>) -> Seq<char> {
    "csv|"@ + account_id + "|"@ + date + "|"@ + int_text(cents) + "|"@ + description
}

/// `csv|{account}|{date}|{amount_cents}|{description}`.
pub fn csv_source_id(account_id: &str, date: &str, amount_cents: i64, description: &str) -> (r: String)
    ensures
        r@ == csv_source_key(account_id@, date@, amount_cents as int, description@),
{
    let s1 = concat_str("csv|", account_id);
    let s2 = concat_str(s1.as_str(), "|");
    let s3 = concat_str(s2.as_str(), date);
    let s4 = concat_str(s3.as_str(), "|");
    let cents_text = int_chars(amount_cents);
    let cents = string_from_chars(cents_text.as_slice());
    let s5 = concat_str(s4.as_str(), cents.as_str());
    let s6 = concat_str(s5.as_str(), "|");
    concat_str(s6.as_str(), description)
}

/// The error messages of the rows that failed, in order.
pub open spec fn row_errors<T>(rows: Seq<Result<T, String>>) -> Seq<Seq<char>>
    decreases rows.len(),
{
    if rows.len() == 0 {
        Seq::empty()
    } else {
        let prev = row_errors(rows.drop_last());
        match rows.last() {
            Ok(_) => prev,
            Err(e) => prev.push(e@),
        }
    }
}

/// The candidates of the CSV rows that parsed, in order, keyed by
/// `csv_source_key`.
pub open spec fn csv_candidates(rows: Seq<Result<CsvRow, String>>, account_id: Seq<char>) -> Seq<CandidateFields>
    decreases rows.len(),
{
    if rows.len() == 0 {
        Seq::empty()
    } else {
        let prev = csv_candidates(rows.drop_last(), account_id);
        match rows.last() {
            Ok(p) => prev.push(
                (
                    csv_source_key(account_id, p.date@, p.amount_cents as int, p.description@),
                    p.date@,
                    p.amount_cents as int,
                    p.description@,
                    p.raw_json@,
                ),
            ),
            Err(_) => prev,
        }
    }
}

/// The candidates of the OFX rows that parsed, in order: the parser's
/// source id, or date, amount and description when it gave none.
pub open spec fn ofx_candidates(rows: Seq<Result<OfxRow, String>>, account_id: Seq<char>) -> Seq<CandidateFields>
    decreases rows.len(),
{
    if rows.len() == 0 {
        Seq::empty()
    } else {
        let prev = ofx_candidates(rows.drop_last(), account_id);
        match rows.last() {
            Ok(p) => prev.push(
                (
                    match p.source_id {
                        Some(s) => s@,
                        None => ofx_source_id(account_id, None, p.date@, p.amount_cents as int, p.description@),
                    },
                    p.date@,
                    p.amount_cents as int,
                    p.description@,
                    p.raw_json@,
                ),
            ),
            Err(_) => prev,
        }
    }
}

fn copy_string(s: &String) -> (r: String)
    ensures
        r@ == s@,
{
    String::from_str(s.as_str())
}

/// The candidates and the row errors of parsed CSV rows.
pub fn csv_candidates_of(rows: &Vec<Result<CsvRow, String>>, account_id: &str) -> (r: (Vec<Candidate>, Vec<String>))
    ensures
        candidates_view(r.0@) == csv_candidates(rows@, account_id@),
        strings_view(r.1@) == row_errors(rows@),
{
    let mut candidates: Vec<Candidate> = Vec::new();
    let mut errors: Vec<String> = Vec::new();
    for i in 0..rows.len()
        invariant
            candidates_view(candidates@) == csv_candidates(rows@.take(i as int), account_id@),
            strings_view(errors@) == row_errors(rows@.take(i as int)),
    {
        assert(rows@.take(i + 1).drop_last() =~= rows@.take(i as int));
        let ghost before_c = candidates_view(candidates@);
        let ghost before_e = strings_view(errors@);
        match &rows[i] {
            Ok(parsed) => {
                let source_id = csv_source_id(
                    account_id,
                    parsed.date.as_str(),
                    parsed.amount_cents,
                    parsed.description.as_str(),
                );
                candidates.push(
                    Candidate {
                        source_id,
                        date: copy_string(&parsed.date),
                        amount_cents: parsed.amount_cents,
                        description: copy_string(&parsed.description),
                        raw_json: copy_string(&parsed.raw_json),
                    },
                );
                assert(candidates_view(candidates@) =~= before_c.push(candidate_fields(candidates@.last())));
                assert(strings_view(errors@) =~= before_e);
            },
            Err(e) => {
                errors.push(copy_string(e));
                assert(strings_view(errors@) =~= before_e.push(errors@.last()@));
                assert(candidates_view(candidates@) =~= before_c);
            },
        }
    }
    assert(rows@.take(rows@.len() as int) =~= rows@);
    (candidates, errors)
}

/// The candidates and the row errors of parsed OFX rows.
pub fn ofx_candidates_of(rows: &Vec<Result<OfxRow, String>>, account_id: &str) -> (r: (Vec<Candidate>, Vec<String>))
    ensures
        candidates_view(r.0@) == ofx_candidates(rows@, account_id@),
        strings_view(r.1@) == row_errors(rows@),
{
    let mut candidates: Vec<Candidate> = Vec::new();
    let mut errors: Vec<String> = Vec::new();
    for i in 0..rows.len()
        invariant
            candidates_view(candidates@) == ofx_candidates(rows@.take(i as int), account_id@),
            strings_view(errors@) == row_errors(rows@.take(i as int)),
    {
        assert(rows@.take(i + 1).drop_last() =~= rows@.take(i as int));
        let ghost before_c = candidates_view(candidates@);
        let ghost before_e = strings_view(errors@);
        match &rows[i] {
            Ok(parsed) => {
                let source_id = match &parsed.source_id {
                    Some(s) => copy_string(s),
                    None => {
                        let s1 = concat_str("ofx|", account_id);
                        let s2 = concat_str(s1.as_str(), "|");
                        let s3 = concat_str(s2.as_str(), parsed.date.as_str());
                        let s4 = concat_str(s3.as_str(), "|");
                        let cents_text = int_chars(parsed.amount_cents);
                        let cents = string_from_chars(cents_text.as_slice());
                        let s5 = concat_str(s4.as_str(), cents.as_str());
                        let s6 = concat_str(s5.as_str(), "|");
                        concat_str(s6.as_str(), parsed.description.as_str())
                    },
                };
                candidates.push(
                    Candidate {
                        source_id,
                        date: copy_string(&parsed.date),
                        amount_cents: parsed.amount_cents,
                        description: copy_string(&parsed.description),
                        raw_json: copy_string(&parsed.raw_json),
                    },
                );
                assert(candidates_view(candidates@) =~= before_c.push(candidate_fields(candidates@.last())));
                assert(strings_view(errors@) =~= before_e);
            },
            Err(e) => {
                errors.push(copy_string(e));
                assert(strings_view(errors@) =~= before_e.push(errors@.last()@));
                assert(candidates_view(candidates@) =~= before_c);
            },
        }
    }
    assert(rows@.take(rows@.len() as int) =~= rows@);
    (candidates, errors)
}

/// An uncertain match's fields: the candidate's source id, date, amount
/// and description, then the stored record's id and source id.
pub type UncertainFields = (Seq<char>, Seq<char>, int, Seq<char>, Seq<char>, Seq<char>);

pub open spec fn uncertain_fields(u: UncertainMatch) -> UncertainFields {
    (
        u.candidate_source_id@,
        u.candidate_date@,
        u.candidate_amount_cents as int,
        u.candidate_description@,
        u.existing_raw_record_id@,
        u.existing_source_id@,
    )
}

/// How many records are New.
pub open spec fn new_count_of(s: Seq<ClassifiedRecord>) -> nat
    decreases s.len(),
{
    if s.len() == 0 {
        0
    } else {
        new_count_of(s.drop_last()) + if s.last().class is New { 1nat } else { 0nat }
    }
}

/// How many records are exact duplicates.
pub open spec fn exact_count_of(s: Seq<ClassifiedRecord>) -> nat
    decreases s.len(),
{
    if s.len() == 0 {
        0
    } else {
        exact_count_of(s.drop_last()) + if s.last().class is Exact { 1nat } else { 0nat }
    }
}

/// The uncertain records, in order, with what they may duplicate.
pub open spec fn uncertain_of(s: Seq<ClassifiedRecord>) -> Seq<UncertainFields>
    decreases s.len(),
{
    if s.len() == 0 {
        Seq::empty()
    } else {
        let prev = uncertain_of(s.drop_last());
        let r = s.last();
        match r.class {
            DedupClass::Uncertain { existing_raw_record_id, existing_source_id } => prev.push(
                (
                    r.candidate.source_id@,
                    r.candidate.date@,
                    r.candidate.amount_cents as int,
                    r.candidate.description@,
                    existing_raw_record_id@,
                    existing_source_id@,
                ),
            ),
            _ => prev,
        }
    }
}

proof fn lemma_counts_add_up(s: Seq<ClassifiedRecord>)
    ensures
        new_count_of(s) + exact_count_of(s) + uncertain_of(s).len() == s.len(),
    decreases s.len(),
{
    if s.len() > 0 {
        lemma_counts_add_up(s.drop_last());
    }
}

proof fn lemma_counts_prefix(s: Seq<ClassifiedRecord>, k: int)
    requires
        0 <= k <= s.len(),
    ensures
        new_count_of(s.take(k)) <= new_count_of(s),
        exact_count_of(s.take(k)) <= exact_count_of(s),
    decreases s.len() - k,
{
    if k < s.len() {
        lemma_counts_prefix(s, k + 1);
        assert(s.take(k + 1).drop_last() =~= s.take(k));
    } else {
        assert(s.take(k) =~= s);
    }
}

/// How many records are new and how many are exact duplicates.
pub fn class_counts(classified: &Vec<ClassifiedRecord>) -> (r: (usize, usize))
    ensures
        r.0 == new_count_of(classified@),
        r.1 == exact_count_of(classified@),
{
    let mut news: usize = 0;
    let mut exacts: usize = 0;
    for i in 0..classified.len()
        invariant
            news == new_count_of(classified@.take(i as int)),
            exacts == exact_count_of(classified@.take(i as int)),
            news + exacts <= i,
    {
        assert(classified@.take(i + 1).drop_last() =~= classified@.take(i as int));
        match &classified[i].class {
            DedupClass::New => news = news + 1,
            DedupClass::Exact => exacts = exacts + 1,
            _ => {},
        }
    }
    assert(classified@.take(classified@.len() as int) =~= classified@);
    (news, exacts)
}

/// What an import would do, before anything is written: how many rows are
/// new, how many are exact duplicates, which may be duplicates, and the
/// rows that failed to parse.
pub fn build_pending_import(classified: Vec<ClassifiedRecord>, errors: Vec<String>) -> (p: PendingImport)
    requires
        new_count_of(classified@) <= u32::MAX,
        exact_count_of(classified@) <= u32::MAX,
    ensures
        p.new_count == new_count_of(classified@),
        p.exact_duplicate_count == exact_count_of(classified@),
        p.uncertain@.map_values(|u: UncertainMatch| uncertain_fields(u)) == uncertain_of(classified@),
        p.new_count + p.exact_duplicate_count + p.uncertain@.len() == classified@.len(),
        strings_view(p.errors@) == strings_view(errors@),
{
    let mut new_count: u32 = 0;
    let mut exact_duplicate_count: u32 = 0;
    let mut uncertain: Vec<UncertainMatch> = Vec::new();
    let n = classified.len();
    for i in 0..n
        invariant
            n == classified@.len(),
            new_count_of(classified@) <= u32::MAX,
            exact_count_of(classified@) <= u32::MAX,
            new_count == new_count_of(classified@.take(i as int)),
            exact_duplicate_count == exact_count_of(classified@.take(i as int)),
            uncertain@.map_values(|u: UncertainMatch| uncertain_fields(u)) == uncertain_of(
                classified@.take(i as int),
            ),
    {
        let ghost t = classified@.take(i as int);
        let ghost before = uncertain@.map_values(|u: UncertainMatch| uncertain_fields(u));
        proof {
            assert(classified@.take(i + 1).drop_last() =~= t);
            lemma_counts_prefix(classified@, i + 1);
        }
        let record = &classified[i];
        match &record.class {
            DedupClass::New => new_count = new_count + 1,
            DedupClass::Exact => exact_duplicate_count = exact_duplicate_count + 1,
            DedupClass::Uncertain { existing_raw_record_id, existing_source_id } => {
                uncertain.push(
                    UncertainMatch {
                        candidate_source_id: copy_string(&record.candidate.source_id),
                        candidate_date: copy_string(&record.candidate.date),
                        candidate_amount_cents: record.candidate.amount_cents,
                        candidate_description: copy_string(&record.candidate.description),
                        existing_raw_record_id: copy_string(existing_raw_record_id),
                        existing_source_id: copy_string(existing_source_id),
                    },
                );
                assert(uncertain@.map_values(|u: UncertainMatch| uncertain_fields(u)) =~= before.push(
                    uncertain_fields(uncertain@.last()),
                ));
            },
        }
        assert(uncertain@.map_values(|u: UncertainMatch| uncertain_fields(u)) == uncertain_of(
            classified@.take(i + 1),
        ));
    }
    proof {
        assert(classified@.take(n as int) =~= classified@);
        lemma_counts_add_up(classified@);
    }
    PendingImport { new_count, exact_duplicate_count, uncertain, errors }
}

/// The user's answer for a source id: the last decision given for it, or
/// `false` (insert) when there is none.
pub open spec fn decision_for(decisions: Seq<ImportDecision>, source_id: Seq<char>) -> bool
    decreases decisions.len(),
{
    if decisions.len() == 0 {
        false
    } else if decisions.last().candidate_source_id@ == source_id {
        decisions.last().accept_as_duplicate
    } else {
        decision_for(decisions.drop_last(), source_id)
    }
}

/// An exact duplicate is always skipped, a new row never; an uncertain one
/// is skipped when the user accepted it as a duplicate.
pub open spec fn skips(r: ClassifiedRecord, decisions: Seq<ImportDecision>) -> bool {
    match r.class {
        DedupClass::Exact => true,
        DedupClass::New => false,
        DedupClass::Uncertain { .. } => decision_for(decisions, r.candidate.source_id@),
    }
}

/// The candidates to write, in order.
pub open spec fn to_insert_of(s: Seq<ClassifiedRecord>, decisions: Seq<ImportDecision>) -> Seq<CandidateFields>
    decreases s.len(),
{
    if s.len() == 0 {
        Seq::empty()
    } else {
        let prev = to_insert_of(s.drop_last(), decisions);
        if skips(s.last(), decisions) {
            prev
        } else {
            prev.push(candidate_fields(s.last().candidate))
        }
    }
}

/// How many records are skipped.
pub open spec fn skip_count_of(s: Seq<ClassifiedRecord>, decisions: Seq<ImportDecision>) -> nat
    decreases s.len(),
{
    if s.len() == 0 {
        0
    } else {
        skip_count_of(s.drop_last(), decisions) + if skips(s.last(), decisions) { 1nat } else { 0nat }
    }
}

proof fn lemma_insert_or_skip(s: Seq<ClassifiedRecord>, decisions: Seq<ImportDecision>)
    ensures
        to_insert_of(s, decisions).len() + skip_count_of(s, decisions) == s.len(),
    decreases s.len(),
{
    if s.len() > 0 {
        lemma_insert_or_skip(s.drop_last(), decisions);
    }
}

/// What an import writes: the candidates to insert, and the count of
/// skipped rows (the parse errors, then every skipped record).
#[derive(Debug)]
pub struct CommitPlan {
    pub to_insert: Vec<Candidate>,
    pub skipped_count: u32,
    pub errors: Vec<String>,
}

/// The parse-error count as the skipped count starts from it: the length
/// taken modulo 2^32, as `len() as u32` does.
pub open spec fn error_base(n: nat) -> nat {
    n % 0x1_0000_0000
}

fn decision_of(decisions: &[ImportDecision], source_id: &str) -> (r: bool)
    ensures
        r == decision_for(decisions@, source_id@),
{
    let mut i = decisions.len();
    assert(decisions@.take(i as int) =~= decisions@);
    while i > 0
        invariant
            i <= decisions@.len(),
            decision_for(decisions@, source_id@) == decision_for(decisions@.take(i as int), source_id@),
        decreases i,
    {
        assert(decisions@.take(i as int).drop_last() =~= decisions@.take(i - 1));
        if str_eq(decisions[i - 1].candidate_source_id.as_str(), source_id) {
            return decisions[i - 1].accept_as_duplicate;
        }
        i = i - 1;
    }
    false
}

/// How many classified records an import skips under the decisions.
pub fn skip_count(classified: &Vec<ClassifiedRecord>, decisions: &[ImportDecision]) -> (r: usize)
    ensures
        r == skip_count_of(classified@, decisions@),
{
    let mut n: usize = 0;
    for i in 0..classified.len()
        invariant
            n == skip_count_of(classified@.take(i as int), decisions@),
            n <= i,
    {
        assert(classified@.take(i + 1).drop_last() =~= classified@.take(i as int));
        let record = &classified[i];
        let skip = match &record.class {
            DedupClass::Exact => true,
            DedupClass::Uncertain { .. } => decision_of(decisions, record.candidate.source_id.as_str()),
            DedupClass::New => false,
        };
        if skip {
            n = n + 1;
        }
    }
    assert(classified@.take(classified@.len() as int) =~= classified@);
    n
}

/// Which classified candidates an import writes, given the user's
/// decisions on the uncertain ones (the last decision for a source id
/// counts; without one, the row is inserted).
pub fn plan_commit(classified: Vec<ClassifiedRecord>, decisions: &[ImportDecision], parse_errors: Vec<String>) -> (p:
    CommitPlan)
    requires
        error_base(parse_errors@.len()) + skip_count_of(classified@, decisions@) <= u32::MAX,
    ensures
        candidates_view(p.to_insert@) == to_insert_of(classified@, decisions@),
        p.skipped_count == error_base(parse_errors@.len()) + skip_count_of(classified@, decisions@),
        p.to_insert@.len() + skip_count_of(classified@, decisions@) == classified@.len(),
        strings_view(p.errors@) == strings_view(parse_errors@),
{
    let ghost cs = classified@;
    let base: u32 = ((parse_errors.len() as u64) % 0x1_0000_0000u64) as u32;
    let mut skipped_count: u32 = base;
    let mut to_insert: Vec<Candidate> = Vec::new();
    let mut rest = classified;
    let n = rest.len();
    let mut i: usize = 0;
    while i < n
        invariant
            n == cs.len(),
            i <= n,
            rest@ == cs.subrange(i as int, n as int),
            base == error_base(parse_errors@.len()),
            base + skip_count_of(cs, decisions@) <= u32::MAX,
            skipped_count == base + skip_count_of(cs.take(i as int), decisions@),
            candidates_view(to_insert@) == to_insert_of(cs.take(i as int), decisions@),
        decreases n - i,
    {
        let ghost t = cs.take(i as int);
        let ghost before = candidates_view(to_insert@);
        proof {
            assert(cs.take(i + 1).drop_last() =~= t);
            lemma_skip_count_prefix(cs, decisions@, i + 1);
        }
        let record = rest.remove(0);
        assert(record == cs[i as int]);
        assert(rest@ == cs.subrange(i + 1, n as int));
        let skip = match &record.class {
            DedupClass::Exact => true,
            DedupClass::Uncertain { .. } => decision_of(decisions, record.candidate.source_id.as_str()),
            DedupClass::New => false,
        };
        if skip {
            skipped_count = skipped_count + 1;
        } else {
            to_insert.push(record.candidate);
            assert(candidates_view(to_insert@) =~= before.push(candidate_fields(to_insert@.last())));
        }
        i = i + 1;
    }
    proof {
        assert(cs.take(n as int) =~= cs);
        lemma_insert_or_skip(cs, decisions@);
    }
    CommitPlan { to_insert, skipped_count, errors: parse_errors }
}

proof fn lemma_skip_count_prefix(s: Seq<ClassifiedRecord>, decisions: Seq<ImportDecision>, k: int)
    requires
        0 <= k <= s.len(),
    ensures
        skip_count_of(s.take(k), decisions) <= skip_count_of(s, decisions),
    decreases s.len() - k,
{
    if k < s.len() {
        lemma_skip_count_prefix(s, decisions, k + 1);
        assert(s.take(k + 1).drop_last() =~= s.take(k));
    } else {
        assert(s.take(k) =~= s);
    }
}

proof fn lemma_all_exact_skipped(s: Seq<ClassifiedRecord>, decisions: Seq<ImportDecision>)
    requires
        forall|k: int| 0 <= k < s.len() ==> (#[trigger] s[k]).class is Exact,
    ensures
        to_insert_of(s, decisions).len() == 0,
        skip_count_of(s, decisions) == s.len(),
    decreases s.len(),
{
    if s.len() > 0 {
        assert(s.last() == s[s.len() - 1]);
        lemma_all_exact_skipped(s.drop_last(), decisions);
    }
}

/// Importing a file again writes nothing: when every candidate's source id
/// is already stored for the account, every candidate is an exact
/// duplicate, none is inserted, and all are counted as skipped, whatever
/// the decisions say.
pub proof fn reimport_writes_nothing(
    existing: Seq<crate::import::dedup::ExistingRecord>,
    account_id: Seq<char>,
    classified: Seq<ClassifiedRecord>,
    decisions: Seq<ImportDecision>,
)
    requires
        forall|k: int|
            0 <= k < classified.len() ==> crate::import::dedup::class_is(
                existing,
                account_id,
                (#[trigger] classified[k]).candidate,
                classified[k].class,
            ),
        forall|k: int|
            0 <= k < classified.len() ==> crate::import::dedup::is_exact(
                existing,
                account_id,
                (#[trigger] classified[k]).candidate,
            ),
    ensures
        to_insert_of(classified, decisions).len() == 0,
        skip_count_of(classified, decisions) == classified.len(),
{
    assert forall|k: int| 0 <= k < classified.len() implies (#[trigger] classified[k]).class is Exact by {
        assert(crate::import::dedup::class_is(existing, account_id, classified[k].candidate, classified[k].class));
        assert(crate::import::dedup::is_exact(existing, account_id, classified[k].candidate));
    }
    lemma_all_exact_skipped(classified, decisions);
}

/// A plan with nothing to write finishes at once: no batch (an empty batch
/// id), nothing imported, the plan's skipped count and errors. A plan with
/// records to write is handed back unchanged.
pub fn finish_without_writes(plan: CommitPlan) -> (r: Result<ImportResult, CommitPlan>)
    ensures
        r is Ok <==> plan.to_insert@.len() == 0,
        r matches Ok(res) ==> res.batch_id@ == Seq::<char>::empty() && res.imported_count == 0
            && res.skipped_count == plan.skipped_count && res.errors@ == plan.errors@,
        r matches Err(p) ==> p == plan,
{
    if plan.to_insert.len() == 0 {
        Ok(ImportResult {
            batch_id: String::new(),
            imported_count: 0,
            skipped_count: plan.skipped_count,
            errors: plan.errors,
        })
    } else {
        Err(plan)
    }
}

/// The preview of a pasted CSV text: its header and first rows, or the
/// error that reading it gives.
pub fn parse_csv_preview(content: String) -> (r: Result<CsvPreview, String>)
    ensures
        match r {
            Ok(p) => preview_outcome(csv_header_fields(content@), csv_record_fields(content@)) == Ok::<
                (Seq<Seq<char>>, Seq<Seq<Seq<char>>>),
                Seq<char>,
            >(preview_view(p)),
            Err(e) => preview_outcome(csv_header_fields(content@), csv_record_fields(content@))
                == Err::<(Seq<Seq<char>>, Seq<Seq<Seq<char>>>), Seq<char>>(e@),
        },
{
    extract_preview(content.as_str())
}

/// How the user's decisions steer a commit. With no decision an uncertain
/// record is written. The last decision given for a source id is the one
/// that counts: when it accepts the record as a duplicate the record is
/// skipped, and when it refuses, the record is written; a decision about
/// another source id changes nothing. Exact duplicates are skipped and new
/// records written whatever the decisions say.
pub proof fn last_decision_decides(r: ClassifiedRecord, decisions: Seq<ImportDecision>, d: ImportDecision)
    ensures
        r.class is Uncertain ==> to_insert_of(seq![r], Seq::<ImportDecision>::empty()) == seq![
            candidate_fields(r.candidate),
        ],
        (r.class is Uncertain && d.candidate_source_id@ == r.candidate.source_id@) ==> to_insert_of(
            seq![r],
            decisions.push(d),
        ) == (if d.accept_as_duplicate {
            Seq::<CandidateFields>::empty()
        } else {
            seq![candidate_fields(r.candidate)]
        }),
        (r.class is Uncertain && d.candidate_source_id@ == r.candidate.source_id@) ==> skip_count_of(
            seq![r],
            decisions.push(d),
        ) == (if d.accept_as_duplicate { 1nat } else { 0nat }),
        d.candidate_source_id@ != r.candidate.source_id@ ==> to_insert_of(seq![r], decisions.push(d))
            == to_insert_of(seq![r], decisions),
        r.class is Exact ==> to_insert_of(seq![r], decisions).len() == 0 && skip_count_of(seq![r], decisions)
            == 1,
        r.class is New ==> to_insert_of(seq![r], decisions) == seq![candidate_fields(r.candidate)]
            && skip_count_of(seq![r], decisions) == 0,
{
    let one = seq![r];
    assert(one.drop_last() =~= Seq::<ClassifiedRecord>::empty());
    assert(one.last() == r);
    let ds = decisions.push(d);
    assert(ds.drop_last() =~= decisions);
    assert(ds.last() == d);
    assert(Seq::<CandidateFields>::empty().push(candidate_fields(r.candidate)) =~= seq![
        candidate_fields(r.candidate),
    ]);
    let no = Seq::<ImportDecision>::empty();
    let none = Seq::<ClassifiedRecord>::empty();
    assert(decision_for(no, r.candidate.source_id@) == false);
    assert(to_insert_of(none, no) == Seq::<CandidateFields>::empty());
    assert(to_insert_of(none, ds) == Seq::<CandidateFields>::empty());
    assert(to_insert_of(none, decisions) == Seq::<CandidateFields>::empty());
    assert(skip_count_of(none, ds) == 0);
    assert(skip_count_of(none, decisions) == 0);
    assert(skip_count_of(one, ds) == skip_count_of(none, ds) + if skips(r, ds) { 1nat } else { 0nat });
    assert(skip_count_of(one, decisions) == skip_count_of(none, decisions) + if skips(r, decisions) {
        1nat
    } else {
        0nat
    });
    assert(to_insert_of(one, decisions) == if skips(r, decisions) {
        to_insert_of(none, decisions)
    } else {
        to_insert_of(none, decisions).push(candidate_fields(r.candidate))
    });
    assert(decision_for(ds, r.candidate.source_id@) == (if d.candidate_source_id@ == r.candidate.source_id@ {
        d.accept_as_duplicate
    } else {
        decision_for(decisions, r.candidate.source_id@)
    }));
}

} // verus!
