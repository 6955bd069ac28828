//! Duplicate detection for imported rows, against the raw records that
//! are already stored.

use vstd::prelude::*;
use crate::text::str_eq;

verus! {

#[derive(Debug)]
pub enum DedupClass {
    New,
    Exact,
    Uncertain { existing_raw_record_id: String, existing_source_id: String },
}

#[derive(Debug)]
pub struct Candidate {
    pub source_id: String,
    pub date: String,
    pub amount_cents: i64,
    pub description: String,
    pub raw_json: String,
}

#[derive(Debug)]
pub struct ClassifiedRecord {
    pub candidate: Candidate,
    pub class: DedupClass,
}

/// A raw record already stored, with the account of its transaction.
#[derive(Debug)]
pub struct ExistingRecord {
    pub raw_record_id: String,
    pub account_id: String,
    pub source_id: String,
    pub date: String,
    pub amount_cents: i64,
    pub description: String,
}

/// The account already holds a record with the candidate's source id.
pub open spec fn is_exact(existing: Seq<ExistingRecord>, account_id: Seq<char>, c: Candidate) -> bool {
    exists|i: int|
        0 <= i < existing.len() && (#[trigger] existing[i]).account_id@ == account_id
            && existing[i].source_id@ == c.source_id@
}

/// A stored record of the account with the candidate's date, amount and
/// description but another source id.
pub open spec fn same_fields(e: ExistingRecord, account_id: Seq<char>, c: Candidate) -> bool {
    &&& e.account_id@ == account_id
    &&& e.date@ == c.date@
    &&& e.amount_cents == c.amount_cents
    &&& e.description@ == c.description@
    &&& e.source_id@ != c.source_id@
}

/// The first such record, searching from `from`.
pub open spec fn first_same_fields(existing: Seq<ExistingRecord>, account_id: Seq<char>, c: Candidate, from: int) -> Option<
    int,
>
    decreases existing.len() - from,
{
    if from < 0 || from >= existing.len() {
        None
    } else if same_fields(existing[from], account_id, c) {
        Some(from)
    } else {
        first_same_fields(existing, account_id, c, from + 1)
    }
}

/// A candidate's class: Exact when the account already holds its source
/// id; else Uncertain, naming the first stored record with the same date,
/// amount and description; else New.
pub open spec fn class_is(existing: Seq<ExistingRecord>, account_id: Seq<char>, c: Candidate, class: DedupClass) -> bool {
    if is_exact(existing, account_id, c) {
        class is Exact
    } else {
        match first_same_fields(existing, account_id, c, 0) {
            Some(i) => class matches DedupClass::Uncertain { existing_raw_record_id, existing_source_id }
                && existing_raw_record_id@ == existing[i].raw_record_id@ && existing_source_id@
                == existing[i].source_id@,
            None => class is New,
        }
    }
}

/// The class of one candidate.
pub fn classify_one(existing: &Vec<ExistingRecord>, account_id: &str, c: &Candidate) -> (class: DedupClass)
    ensures
        class_is(existing@, account_id@, *c, class),
{
    let n = existing.len();
    let mut i: usize = 0;
    while i < n
        invariant
            n == existing@.len(),
            i <= n,
            forall|k: int|
                0 <= k < i ==> !((#[trigger] existing@[k]).account_id@ == account_id@
                    && existing@[k].source_id@ == c.source_id@),
        decreases n - i,
    {
        let e = &existing[i];
        if str_eq(e.account_id.as_str(), account_id) && str_eq(e.source_id.as_str(), c.source_id.as_str()) {
            return DedupClass::Exact;
        }
        i = i + 1;
    }
    let mut j: usize = 0;
    while j < n
        invariant
            n == existing@.len(),
            j <= n,
            !is_exact(existing@, account_id@, *c),
            first_same_fields(existing@, account_id@, *c, 0) == first_same_fields(
                existing@,
                account_id@,
                *c,
                j as int,
            ),
        decreases n - j,
    {
        let e = &existing[j];
        if str_eq(e.account_id.as_str(), account_id) && str_eq(e.date.as_str(), c.date.as_str())
            && e.amount_cents == c.amount_cents && str_eq(e.description.as_str(), c.description.as_str())
            && !str_eq(e.source_id.as_str(), c.source_id.as_str()) {
            return DedupClass::Uncertain {
                existing_raw_record_id: String::from_str(e.raw_record_id.as_str()),
                existing_source_id: String::from_str(e.source_id.as_str()),
            };
        }
        j = j + 1;
    }
    DedupClass::New
}

/// Classify each candidate against the account's stored records; the
/// candidates keep their order and are not compared with one another.
pub fn classify_candidates(existing: &Vec<ExistingRecord>, account_id: &str, candidates: Vec<Candidate>) -> (r: Vec<
    ClassifiedRecord,
>)
    ensures
        r@.len() == candidates@.len(),
        forall|k: int|
            0 <= k < r@.len() ==> (#[trigger] r@[k]).candidate == candidates@[k] && class_is(
                existing@,
                account_id@,
                candidates@[k],
                r@[k].class,
            ),
{
    let ghost cs = candidates@;
    let mut rest = candidates;
    let n = rest.len();
    let mut out: Vec<ClassifiedRecord> = Vec::new();
    let mut i: usize = 0;
    while i < n
        invariant
            n == cs.len(),
            i <= n,
            rest@ == cs.subrange(i as int, n as int),
            out@.len() == i,
            forall|k: int|
                0 <= k < i ==> (#[trigger] out@[k]).candidate == cs[k] && class_is(
                    existing@,
                    account_id@,
                    cs[k],
                    out@[k].class,
                ),
        decreases n - i,
    {
        let c = rest.remove(0);
        assert(c == cs[i as int]);
        assert(rest@ == cs.subrange(i + 1, n as int));
        let class = classify_one(existing, account_id, &c);
        out.push(ClassifiedRecord { candidate: c, class });
        i = i + 1;
    }
    out
}

proof fn lemma_first_same_fields_push(
    existing: Seq<ExistingRecord>,
    e: ExistingRecord,
    account_id: Seq<char>,
    c: Candidate,
    from: int,
)
    requires
        e.account_id@ != account_id,
        0 <= from,
    ensures
        first_same_fields(existing.push(e), account_id, c, from) == first_same_fields(existing, account_id, c, from),
    decreases existing.len() - from,
{
    if from < existing.len() {
        assert(existing.push(e)[from] == existing[from]);
        lemma_first_same_fields_push(existing, e, account_id, c, from + 1);
    } else if from == existing.len() {
        assert(existing.push(e)[from] == e);
        assert(!same_fields(e, account_id, c));
        assert(first_same_fields(existing.push(e), account_id, c, from + 1) is None);
    }
}

proof fn lemma_first_same_fields_bounds(existing: Seq<ExistingRecord>, account_id: Seq<char>, c: Candidate, from: int)
    ensures
        first_same_fields(existing, account_id, c, from) matches Some(i) ==> from <= i < existing.len(),
    decreases existing.len() - from,
{
    if 0 <= from < existing.len() && !same_fields(existing[from], account_id, c) {
        lemma_first_same_fields_bounds(existing, account_id, c, from + 1);
    }
}

/// Duplicate detection is scoped per account: a stored record of another
/// account never changes how a candidate is classified.
pub proof fn other_accounts_do_not_matter(
    existing: Seq<ExistingRecord>,
    e: ExistingRecord,
    account_id: Seq<char>,
    c: Candidate,
    class: DedupClass,
)
    requires
        e.account_id@ != account_id,
    ensures
        class_is(existing.push(e), account_id, c, class) == class_is(existing, account_id, c, class),
{
    lemma_first_same_fields_push(existing, e, account_id, c, 0);
    lemma_first_same_fields_bounds(existing, account_id, c, 0);
    if let Some(i) = first_same_fields(existing, account_id, c, 0) {
        assert(existing.push(e)[i] == existing[i]);
    }
    assert(is_exact(existing.push(e), account_id, c) == is_exact(existing, account_id, c)) by {
        if is_exact(existing.push(e), account_id, c) {
            let i = choose|i: int|
                0 <= i < existing.push(e).len() && (#[trigger] existing.push(e)[i]).account_id@ == account_id
                    && existing.push(e)[i].source_id@ == c.source_id@;
            assert(i < existing.len());
            assert(existing[i] == existing.push(e)[i]);
        }
        if is_exact(existing, account_id, c) {
            let i = choose|i: int|
                0 <= i < existing.len() && (#[trigger] existing[i]).account_id@ == account_id
                    && existing[i].source_id@ == c.source_id@;
            assert(existing.push(e)[i] == existing[i]);
        }
    }
}

proof fn lemma_first_same_fields_found(existing: Seq<ExistingRecord>, account_id: Seq<char>, c: Candidate, from: int)
    requires
        0 <= from,
    ensures
        first_same_fields(existing, account_id, c, from) matches Some(i) ==> from <= i < existing.len()
            && same_fields(existing[i], account_id, c),
        first_same_fields(existing, account_id, c, from) is None ==> forall|k: int|
            from <= k < existing.len() ==> !same_fields(#[trigger] existing[k], account_id, c),
    decreases existing.len() - from,
{
    if from < existing.len() && !same_fields(existing[from], account_id, c) {
        lemma_first_same_fields_found(existing, account_id, c, from + 1);
    }
}

/// What each class means. Exact: the account already holds a record with
/// the candidate's source id. Uncertain: it does not, and the named record
/// is one of the account's stored records with the candidate's date,
/// amount and description under another source id. New: neither. So a
/// candidate whose date, amount or description differs from every stored
/// record of its account, and whose source id is not stored, is New.
pub proof fn classes_mean_what_they_say(existing: Seq<ExistingRecord>, account_id: Seq<char>, c: Candidate, class: DedupClass)
    requires
        class_is(existing, account_id, c, class),
    ensures
        class is Exact <==> exists|i: int|
            0 <= i < existing.len() && (#[trigger] existing[i]).account_id@ == account_id
                && existing[i].source_id@ == c.source_id@,
        class matches DedupClass::Uncertain { existing_raw_record_id, existing_source_id } ==> exists|i: int|
            0 <= i < existing.len() && (#[trigger] existing[i]).account_id@ == account_id
                && existing[i].date@ == c.date@ && existing[i].amount_cents == c.amount_cents
                && existing[i].description@ == c.description@ && existing[i].source_id@ != c.source_id@
                && existing[i].raw_record_id@ == existing_raw_record_id@ && existing[i].source_id@
                == existing_source_id@,
        (forall|i: int|
            0 <= i < existing.len() && (#[trigger] existing[i]).account_id@ == account_id ==> existing[i].source_id@
                != c.source_id@ && (existing[i].date@ != c.date@ || existing[i].amount_cents != c.amount_cents
                || existing[i].description@ != c.description@)) ==> class is New,
{
    lemma_first_same_fields_found(existing, account_id, c, 0);
    if let Some(i) = first_same_fields(existing, account_id, c, 0) {
        if class is Uncertain {
            assert(existing[i].account_id@ == account_id);
        }
    }
}

} // verus!
