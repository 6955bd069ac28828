use manila::ledger::engine::{
    check_postings, check_transfer, plan_transfer, transfer_postings, EngineError, PostingInput, TransferError,
};

fn posting(account: &str, cents: i64) -> PostingInput {
    PostingInput { account_id: account.into(), amount_cents: cents }
}

#[test]
fn balanced_postings_succeed_and_rows_are_written() {
    let postings = vec![posting("acc-checking", -5000), posting("acc-credit", 5000)];
    assert_eq!(check_postings(&postings), Ok(()));
}

#[test]
fn unbalanced_postings_return_err_and_write_nothing() {
    let postings = vec![posting("acc-checking", -5000), posting("acc-credit", 4999)];
    assert_eq!(check_postings(&postings), Err(EngineError::UnbalancedPostings(-1)));
}

#[test]
fn empty_postings_return_err() {
    assert_eq!(check_postings(&[]), Err(EngineError::EmptyPostings));
}

#[test]
fn transfer_creates_two_postings_summing_to_zero() {
    let postings = vec![posting("acc-checking", -45000), posting("acc-credit", 45000)];
    assert_eq!(check_transfer(&postings), Ok(()));
    let planned = plan_transfer("acc-checking", "acc-credit", 45000).unwrap();
    assert_eq!(planned.len(), 2);
    assert_eq!(planned[0].account_id, "acc-checking");
    assert_eq!(planned[0].amount_cents, -45000);
    assert_eq!(planned[1].account_id, "acc-credit");
    assert_eq!(planned[1].amount_cents, 45000);
    assert_eq!(planned.iter().map(|p| p.amount_cents).sum::<i64>(), 0);
}

#[test]
fn transfer_rules_refuse_the_wrong_shape() {
    assert_eq!(check_transfer(&[posting("a", 0)]), Err(TransferError::WrongPostingCount(1)));
    assert_eq!(
        check_transfer(&[posting("a", -1), posting("a", 1)]),
        Err(TransferError::SameAccount)
    );
    assert_eq!(
        check_transfer(&[posting("a", -1), posting("b", 2)]),
        Err(TransferError::Engine(EngineError::UnbalancedPostings(1)))
    );
    assert!(matches!(plan_transfer("a", "a", 10), Err(TransferError::SameAccount)));
}

#[test]
fn transfer_postings_of_a_negative_amount_still_balance() {
    let p = transfer_postings("x", "y", -7);
    assert_eq!((p[0].amount_cents, p[1].amount_cents), (7, -7));
}

#[test]
fn engine_messages() {
    assert_eq!(EngineError::EmptyPostings.message(), "postings must not be empty");
    assert_eq!(
        EngineError::UnbalancedPostings(-1).message(),
        "postings do not balance: sum is -1 cents (must be zero)"
    );
}
