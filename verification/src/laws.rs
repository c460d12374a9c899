//! The library's headline guarantees, proved once and for all over the
//! store model.
//!
//! Each operation's own contract already says that a refused call leaves the
//! store untouched (atomic provisioning included); the theorems here state
//! the cross-call guarantees: balances can never go negative and debits
//! never outrun credits, a task reward is issued exactly once however often
//! completion is retried, and deletion leaves no trace of the user and
//! cannot succeed twice.

use vstd::prelude::*;

use crate::account::delete_account_spec;
use crate::bank::{lemma_spend_spec_wf, spend_spec};
use crate::errors::Error;
use crate::model::{
    account_idx, credits_for, debits_for, has_account_for, has_completed_user_task, has_task,
    has_user_id, lemma_debits_bounded_by_credits, lemma_drop_accounts_of, lemma_drop_files_of,
    lemma_drop_grants_of, lemma_drop_txns_of, lemma_drop_user_emails_of, lemma_drop_user_tasks_of,
    lemma_drop_users_with_id, StoreView,
};
use crate::task::complete_task_spec;

verus! {

/// No sequence of operations can drive a balance negative, and the debits
/// recorded against an account never exceed its credits.
///
/// Every operation of the store requires and re-establishes
/// [`StoreView::wf`], so any store reachable by any interleaving of
/// operations — each of which runs under the store's exclusive access, the
/// model of the mandatory row lock — satisfies the hypotheses here.
pub proof fn lemma_no_overdraft(m: StoreView, user_id: u64)
    requires
        m.wf(),
        has_account_for(m.accounts, user_id),
    ensures
        m.accounts[account_idx(m.accounts, user_id)].balance >= 0,
        debits_for(m.transactions, user_id) <= credits_for(m.transactions, user_id),
{
    let i = account_idx(m.accounts, user_id);
    assert(0 <= i < m.accounts.len() && m.accounts[i].user_id == user_id);
    lemma_debits_bounded_by_credits(m, user_id);
}

/// The store after a whole sequence of debit attempts of the given
/// amounts against one account, first attempt first.
pub open spec fn spend_sequence(
    m: StoreView,
    user_id: u64,
    amounts: Seq<i64>,
    description: Seq<char>,
    now: i64,
) -> StoreView
    decreases amounts.len(),
{
    if amounts.len() == 0 {
        m
    } else {
        spend_sequence(
            spend_spec(m, user_id, amounts[0], description, now).0,
            user_id,
            amounts.drop_first(),
            description,
            now,
        )
    }
}

/// However many debit attempts run against one account, in whatever order
/// and of whatever amounts, the store stays well-formed, the account
/// survives, and its balance is never negative: the debits that succeeded
/// never outrun the credits that preceded them.
pub proof fn lemma_spend_sequence_no_overdraft(
    m: StoreView,
    user_id: u64,
    amounts: Seq<i64>,
    description: Seq<char>,
    now: i64,
)
    requires
        m.wf(),
        has_account_for(m.accounts, user_id),
    ensures
        ({
            let end = spend_sequence(m, user_id, amounts, description, now);
            &&& end.wf()
            &&& has_account_for(end.accounts, user_id)
            &&& end.accounts[account_idx(end.accounts, user_id)].balance >= 0
            &&& debits_for(end.transactions, user_id) <= credits_for(end.transactions, user_id)
        }),
    decreases amounts.len(),
{
    if amounts.len() == 0 {
        lemma_no_overdraft(m, user_id);
    } else {
        lemma_spend_spec_wf(m, user_id, amounts[0], description, now);
        lemma_spend_sequence_no_overdraft(
            spend_spec(m, user_id, amounts[0], description, now).0,
            user_id,
            amounts.drop_first(),
            description,
            now,
        );
    }
}

/// Completing a task twice in sequence awards its points exactly once:
/// after a successful completion, a second attempt — at any later time —
/// reports success and changes nothing at all, balance and ledger included.
pub proof fn lemma_complete_task_idempotent(
    m: StoreView,
    task_id: u64,
    user_id: u64,
    now1: i64,
    now2: i64,
)
    requires
        m.wf(),
        complete_task_spec(m, task_id, user_id, now1).1 is None,
    ensures
        ({
            let m1 = complete_task_spec(m, task_id, user_id, now1).0;
            complete_task_spec(m1, task_id, user_id, now2) == (m1, None::<Error>)
        }),
{
    let m1 = complete_task_spec(m, task_id, user_id, now1).0;
    assert(has_task(m1.tasks, task_id)) by {
        let w = crate::model::task_idx(m.tasks, task_id);
        assert(m1.tasks[w].id == task_id);
    }
    if has_completed_user_task(m.user_tasks, user_id, task_id) {
        assert(m1 == m);
    } else {
        assert(has_completed_user_task(m1.user_tasks, user_id, task_id)) by {
            if crate::model::has_user_task(m.user_tasks, user_id, task_id) {
                let i = crate::model::user_task_idx(m.user_tasks, user_id, task_id);
                assert(m1.user_tasks[i].user_id == user_id && m1.user_tasks[i].universal_task_id
                    == task_id && m1.user_tasks[i].status is Completed);
            } else {
                let i = m1.user_tasks.len() - 1;
                assert(m1.user_tasks[i].user_id == user_id && m1.user_tasks[i].universal_task_id
                    == task_id && m1.user_tasks[i].status is Completed);
            }
        }
    }
}

/// Deleting an account removes the user and every dependent row — no
/// account, ledger entry, task state, inbox row, grant or encryption record
/// survives for that user — and a second deletion of the same id fails with
/// `NotFound`, changing nothing.
pub proof fn lemma_delete_account_cleanup(m: StoreView, user_id: u64)
    requires
        m.wf(),
        has_user_id(m.users, user_id),
    ensures
        ({
            let m1 = delete_account_spec(m, user_id).0;
            &&& delete_account_spec(m, user_id).1 is None
            &&& !has_user_id(m1.users, user_id)
            &&& !has_account_for(m1.accounts, user_id)
            &&& forall|i: int|
                0 <= i < m1.transactions.len() ==> (#[trigger] m1.transactions[i]).user_id
                    != user_id
            &&& forall|i: int|
                0 <= i < m1.user_tasks.len() ==> (#[trigger] m1.user_tasks[i]).user_id != user_id
            &&& forall|i: int|
                0 <= i < m1.user_emails.len() ==> (#[trigger] m1.user_emails[i]).user_id != user_id
            &&& forall|i: int|
                0 <= i < m1.user_services.len() ==> (#[trigger] m1.user_services[i]).user_id
                    != user_id
            &&& forall|i: int|
                0 <= i < m1.encrypted_files.len() ==> (#[trigger] m1.encrypted_files[i]).user_id
                    != user_id
            &&& delete_account_spec(m1, user_id) == (m1, Some(Error::NotFound))
        }),
{
    lemma_drop_users_with_id(m.users, user_id);
    lemma_drop_accounts_of(m.accounts, user_id);
    lemma_drop_txns_of(m.transactions, user_id);
    lemma_drop_user_tasks_of(m.user_tasks, user_id);
    lemma_drop_user_emails_of(m.user_emails, user_id);
    lemma_drop_grants_of(m.user_services, user_id);
    lemma_drop_files_of(m.encrypted_files, user_id);
}

} // verus!
