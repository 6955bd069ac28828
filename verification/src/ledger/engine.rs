//! The posting rules of the double-entry engine: what a transaction or a
//! transfer must satisfy before anything is written.
//!
//! Sign convention (defined once here, applied everywhere):
//!   negative amount_cents = outflow (money leaving the account)
//!   positive amount_cents = inflow (money arriving at the account)

use vstd::prelude::*;
use crate::commands::budget::i64_fits;
use crate::text::{concat_str, int_chars, int_text, str_eq, string_from_chars};

verus! {

#[derive(Debug)]
pub struct PostingInput {
    pub account_id: String,
    pub amount_cents: i64,
}

#[derive(Debug, PartialEq, Eq, Structural)]
pub enum EngineError {
    EmptyPostings,
    UnbalancedPostings(i64),
}

#[derive(Debug, PartialEq, Eq, Structural)]
pub enum TransferError {
    WrongPostingCount(usize),
    SameAccount,
    Engine(EngineError),
}

/// The sum of the postings' amounts.
pub open spec fn posting_sum(ps: Seq<PostingInput>) -> int
    decreases ps.len(),
{
    if ps.len() == 0 {
        0
    } else {
        posting_sum(ps.drop_last()) + ps.last().amount_cents
    }
}

/// Every running total of the amounts, taken in order, fits in an `i64`.
pub open spec fn running_totals_fit(ps: Seq<PostingInput>) -> bool {
    forall|k: int| 0 <= k <= ps.len() ==> i64_fits(#[trigger] posting_sum(ps.take(k)))
}

/// What the engine answers for a set of postings.
pub open spec fn posting_outcome(ps: Seq<PostingInput>) -> Result<(), EngineError> {
    if ps.len() == 0 {
        Err(EngineError::EmptyPostings)
    } else if posting_sum(ps) != 0 {
        Err(EngineError::UnbalancedPostings(posting_sum(ps) as i64))
    } else {
        Ok(())
    }
}

/// What the engine answers for the postings of a transfer.
pub open spec fn transfer_outcome(ps: Seq<PostingInput>) -> Result<(), TransferError> {
    if ps.len() != 2 {
        Err(TransferError::WrongPostingCount(ps.len() as usize))
    } else if ps[0].account_id@ == ps[1].account_id@ {
        Err(TransferError::SameAccount)
    } else {
        match posting_outcome(ps) {
            Ok(()) => Ok(()),
            Err(e) => Err(TransferError::Engine(e)),
        }
    }
}

pub open spec fn engine_error_text(e: EngineError) -> Seq<char> {
    match e {
        EngineError::EmptyPostings => "postings must not be empty"@,
        EngineError::UnbalancedPostings(s) => "postings do not balance: sum is "@ + int_text(
            s as int,
        ) + " cents (must be zero)"@,
    }
}

impl EngineError {
    /// The error's message.
    pub fn message(&self) -> (r: String)
        ensures
            r@ == engine_error_text(*self),
    {
        match self {
            EngineError::EmptyPostings => String::from_str("postings must not be empty"),
            EngineError::UnbalancedPostings(s) => {
                let digits = int_chars(*s);
                let n = string_from_chars(digits.as_slice());
                let head = concat_str("postings do not balance: sum is ", n.as_str());
                concat_str(head.as_str(), " cents (must be zero)")
            },
        }
    }
}

/// Check the postings of a new transaction before any write: there must be
/// at least one, and they must sum to exactly zero.
pub fn check_postings(postings: &[PostingInput]) -> (r: Result<(), EngineError>)
    requires
        running_totals_fit(postings@),
    ensures
        r == posting_outcome(postings@),
        r is Ok <==> postings@.len() > 0 && posting_sum(postings@) == 0,
{
    if postings.len() == 0 {
        return Err(EngineError::EmptyPostings);
    }
    let mut sum: i64 = 0;
    let n = postings.len();
    for i in 0..n
        invariant
            n == postings@.len(),
            running_totals_fit(postings@),
            sum == posting_sum(postings@.take(i as int)),
    {
        proof {
            assert(postings@.take(i + 1).drop_last() =~= postings@.take(i as int));
            assert(i64_fits(posting_sum(postings@.take(i + 1))));
        }
        sum = sum + postings[i].amount_cents;
    }
    assert(postings@.take(n as int) =~= postings@);
    if sum != 0 {
        return Err(EngineError::UnbalancedPostings(sum));
    }
    Ok(())
}

/// Check the postings of a transfer between two owned accounts: exactly two
/// postings, on two different accounts, that pass the transaction check.
pub fn check_transfer(postings: &[PostingInput]) -> (r: Result<(), TransferError>)
    requires
        postings@.len() == 2 ==> running_totals_fit(postings@),
    ensures
        r == transfer_outcome(postings@),
        r is Ok <==> postings@.len() == 2 && postings@[0].account_id@ != postings@[1].account_id@
            && posting_sum(postings@) == 0,
{
    if postings.len() != 2 {
        return Err(TransferError::WrongPostingCount(postings.len()));
    }
    if str_eq(postings[0].account_id.as_str(), postings[1].account_id.as_str()) {
        return Err(TransferError::SameAccount);
    }
    match check_postings(postings) {
        Ok(()) => Ok(()),
        Err(e) => Err(TransferError::Engine(e)),
    }
}

/// The two postings of a transfer of `amount`: an outflow of `amount` from
/// `from`, then an inflow of `amount` to `to`.
pub open spec fn is_transfer_pair(ps: Seq<PostingInput>, from: Seq<char>, to: Seq<char>, amount: int) -> bool {
    &&& ps.len() == 2
    &&& ps[0].account_id@ == from
    &&& ps[0].amount_cents == -amount
    &&& ps[1].account_id@ == to
    &&& ps[1].amount_cents == amount
}

proof fn lemma_pair_sums(ps: Seq<PostingInput>)
    requires
        ps.len() == 2,
    ensures
        posting_sum(ps.take(0)) == 0,
        posting_sum(ps.take(1)) == ps[0].amount_cents,
        posting_sum(ps.take(2)) == ps[0].amount_cents + ps[1].amount_cents,
        posting_sum(ps) == ps[0].amount_cents + ps[1].amount_cents,
{
    let t0 = ps.take(0);
    let t1 = ps.take(1);
    assert(t0 =~= Seq::<PostingInput>::empty());
    assert(t1.drop_last() =~= t0);
    assert(t1.last() == ps[0]);
    assert(posting_sum(t1) == posting_sum(t0) + ps[0].amount_cents);
    assert(ps.take(2) =~= ps);
    assert(ps.drop_last() =~= t1);
    assert(posting_sum(ps) == posting_sum(t1) + ps[1].amount_cents);
}

/// The postings of a transfer: `-amount_cents` on the account money leaves,
/// `amount_cents` on the account it reaches.
pub fn transfer_postings(from_account_id: &str, to_account_id: &str, amount_cents: i64) -> (v: Vec<
    PostingInput,
>)
    requires
        amount_cents != i64::MIN,
    ensures
        is_transfer_pair(v@, from_account_id@, to_account_id@, amount_cents as int),
        running_totals_fit(v@),
        posting_sum(v@) == 0,
{
    let mut v: Vec<PostingInput> = Vec::new();
    v.push(PostingInput { account_id: String::from_str(from_account_id), amount_cents: -amount_cents });
    v.push(PostingInput { account_id: String::from_str(to_account_id), amount_cents: amount_cents });
    proof {
        lemma_pair_sums(v@);
        assert forall|k: int| 0 <= k <= v@.len() implies i64_fits(#[trigger] posting_sum(v@.take(k))) by {
            lemma_pair_sums(v@);
        }
    }
    v
}

/// A transfer command: the postings it writes, or why none are written.
/// Two different accounts always give a balanced pair; the same account
/// twice is refused.
pub fn plan_transfer(from_account_id: &str, to_account_id: &str, amount_cents: i64) -> (r: Result<
    Vec<PostingInput>,
    TransferError,
>)
    requires
        amount_cents != i64::MIN,
    ensures
        match r {
            Ok(v) => from_account_id@ != to_account_id@ && is_transfer_pair(
                v@,
                from_account_id@,
                to_account_id@,
                amount_cents as int,
            ),
            Err(e) => from_account_id@ == to_account_id@ && e == TransferError::SameAccount,
        },
{
    let postings = transfer_postings(from_account_id, to_account_id, amount_cents);
    match check_transfer(postings.as_slice()) {
        Ok(()) => Ok(postings),
        Err(e) => Err(e),
    }
}

/// A transfer between two different accounts is always accepted by the
/// engine: its two postings balance.
pub proof fn transfer_between_accounts_balances(ps: Seq<PostingInput>, from: Seq<char>, to: Seq<char>, amount: int)
    requires
        is_transfer_pair(ps, from, to, amount),
        from != to,
    ensures
        posting_sum(ps) == 0,
        posting_outcome(ps) == Ok::<(), EngineError>(()),
        transfer_outcome(ps) == Ok::<(), TransferError>(()),
{
    lemma_pair_sums(ps);
}

} // verus!
