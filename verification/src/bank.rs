//! The ledger service: balance mutation with an append-only audit log.
//!
//! Every balance-affecting operation updates the account row and appends
//! exactly one [`crate::records::BankTransaction`] in the same unit of work,
//! so the balance always equals the signed sum of the user's entries.  The
//! debit path checks the freshly read balance under the store's exclusive
//! access before writing, so no interleaving of debits can drive a balance
//! negative.

use vstd::prelude::*;

use crate::errors::Error;
use crate::generators::{
    generate_account_number, generate_card_number, generate_cvc, generate_expiry_date,
    is_account_number, is_card_number, is_cvc, is_expiry,
};
use crate::model::{
    account_idx, has_account_for, has_grant, has_user_id, lemma_sum_for_push, transaction_views,
    AccountView, StoreView, TransactionView,
};
use crate::records::{
    BankAccount, BankTransaction, CreateBankAccountRequest, ServiceGrant, UpdateCardRequest,
};
use crate::store::Store;

verus! {

/// The user's ledger entries, most recently appended first, as the
/// surface lists them.
pub open spec fn txns_desc(txns: Seq<TransactionView>, user_id: u64) -> Seq<TransactionView>
    decreases txns.len(),
{
    if txns.len() == 0 {
        Seq::empty()
    } else {
        txns_desc(txns.drop_first(), user_id) + if txns[0].user_id == user_id {
            seq![txns[0]]
        } else {
            Seq::empty()
        }
    }
}

/// The ids of the services this user owns, in grant order.
pub open spec fn grant_ids_of(grants: Seq<ServiceGrant>, user_id: u64) -> Seq<u64>
    decreases grants.len(),
{
    if grants.len() == 0 {
        Seq::empty()
    } else {
        grant_ids_of(grants.drop_last(), user_id) + if grants.last().user_id == user_id {
            seq![grants.last().service_id]
        } else {
            Seq::empty()
        }
    }
}

/// The store after a successful ledger posting of `amount` against
/// `user_id`'s account: the balance moves by `amount`, one audit entry with
/// a fresh id is appended, and nothing else changes.
pub open spec fn posted_store(
    m: StoreView,
    user_id: u64,
    amount: i64,
    description: Seq<char>,
    now: i64,
) -> StoreView {
    let i = account_idx(m.accounts, user_id);
    StoreView {
        accounts: m.accounts.update(
            i,
            (AccountView { balance: (m.accounts[i].balance + amount) as i64, ..m.accounts[i] }),
        ),
        transactions: m.transactions.push(
            (TransactionView {
                id: m.next_id,
                user_id,
                description,
                amount,
                created_at: now,
            }),
        ),
        next_id: (m.next_id + 1) as u64,
        ..m
    }
}

/// The store and outcome of one debit attempt, as [`Store::spend`]
/// realizes it: a negative amount, a missing account, a balance below the
/// amount, or an exhausted id space is refused with the store unchanged;
/// otherwise the balance drops by the amount and the matching debit entry
/// is appended.
pub open spec fn spend_spec(
    m: StoreView,
    user_id: u64,
    amount: i64,
    description: Seq<char>,
    now: i64,
) -> (StoreView, Option<Error>) {
    if amount < 0 {
        (m, Some(Error::InvalidAmount))
    } else if !has_account_for(m.accounts, user_id) {
        (m, Some(Error::NotFound))
    } else if m.accounts[account_idx(m.accounts, user_id)].balance < amount {
        (m, Some(Error::InsufficientFunds))
    } else if m.next_id == u64::MAX {
        (m, Some(Error::DatabaseFailure))
    } else {
        (posted_store(m, user_id, (-amount) as i64, description, now), None)
    }
}

/// A posting within the representable range preserves the store invariant,
/// and the posted-to account survives with the moved balance.
pub proof fn lemma_posted_store_wf(
    m: StoreView,
    user_id: u64,
    amount: i64,
    description: Seq<char>,
    now: i64,
)
    requires
        m.wf(),
        has_account_for(m.accounts, user_id),
        m.next_id < u64::MAX,
        0 <= m.accounts[account_idx(m.accounts, user_id)].balance + amount,
        m.accounts[account_idx(m.accounts, user_id)].balance + amount <= i64::MAX,
    ensures
        posted_store(m, user_id, amount, description, now).wf(),
        has_account_for(posted_store(m, user_id, amount, description, now).accounts, user_id),
{
    let i = account_idx(m.accounts, user_id);
    assert(0 <= i < m.accounts.len() && m.accounts[i].user_id == user_id);
    let post = posted_store(m, user_id, amount, description, now);
    let ev = TransactionView {
        id: m.next_id,
        user_id,
        description,
        amount,
        created_at: now,
    };
    assert(post.accounts[i].user_id == user_id);
    assert forall|k: int| 0 <= k < post.accounts.len() implies {
        &&& (#[trigger] post.accounts[k]).id < post.next_id
        &&& post.accounts[k].user_id < post.next_id
        &&& has_user_id(post.users, post.accounts[k].user_id)
        &&& post.accounts[k].balance >= 0
        &&& post.accounts[k].balance == crate::model::sum_for(
            post.transactions,
            post.accounts[k].user_id,
        )
    } by {
        assert(m.accounts[k].id < m.next_id);
        lemma_sum_for_push(m.transactions, ev, m.accounts[k].user_id);
        if k != i {
            assert(m.accounts[k].user_id != user_id);
        }
    }
    assert forall|k: int| 0 <= k < post.transactions.len() implies {
        &&& (#[trigger] post.transactions[k]).id < post.next_id
        &&& post.transactions[k].user_id < post.next_id
        &&& has_account_for(post.accounts, post.transactions[k].user_id)
    } by {
        if k < m.transactions.len() {
            assert(m.transactions[k].id < m.next_id);
            let w = account_idx(m.accounts, m.transactions[k].user_id);
            assert(post.accounts[w].user_id == m.transactions[k].user_id);
        } else {
            assert(post.accounts[i].user_id == user_id);
        }
    }
}

/// One debit attempt preserves the store invariant, whatever its outcome,
/// and never loses the account.
pub proof fn lemma_spend_spec_wf(
    m: StoreView,
    user_id: u64,
    amount: i64,
    description: Seq<char>,
    now: i64,
)
    requires
        m.wf(),
    ensures
        spend_spec(m, user_id, amount, description, now).0.wf(),
        has_account_for(m.accounts, user_id) ==> has_account_for(
            spend_spec(m, user_id, amount, description, now).0.accounts,
            user_id,
        ),
{
    if amount >= 0 && has_account_for(m.accounts, user_id) {
        let i = account_idx(m.accounts, user_id);
        assert(0 <= i < m.accounts.len() && m.accounts[i].user_id == user_id);
        if m.accounts[i].balance >= amount && m.next_id < u64::MAX {
            lemma_posted_store_wf(m, user_id, (-amount) as i64, description, now);
        }
    }
}

impl Store {
    /// Posts one signed ledger entry and moves the balance accordingly; the
    /// common body of the credit and debit paths.  Callers have already
    /// ruled their own error cases out; this one still refuses a posting
    /// that would break a store constraint, and on any refusal the store is
    /// unchanged.
    pub(crate) fn post_transaction(&mut self, user_id: u64, amount: i64, description: String, now: i64) -> (r:
        Result<(), Error>)
        requires
            old(self).wf(),
        ensures
            final(self).wf(),
            r is Err ==> final(self)@ == old(self)@,
            !has_account_for(old(self)@.accounts, user_id) ==> r == Err::<(), Error>(
                Error::NotFound,
            ),
            has_account_for(old(self)@.accounts, user_id) ==> {
                let bal = old(self)@.accounts[account_idx(old(self)@.accounts, user_id)].balance;
                if old(self)@.next_id == u64::MAX || bal + amount < 0 || bal + amount > i64::MAX {
                    r == Err::<(), Error>(Error::DatabaseFailure)
                } else {
                    r == Ok::<(), Error>(()) && final(self)@ == posted_store(
                        old(self)@,
                        user_id,
                        amount,
                        description@,
                        now,
                    )
                }
            },
    {
        let idx = match self.find_account_by_user(user_id) {
            Some(j) => j,
            None => { return Err(Error::NotFound) },
        };
        if self.next_id == u64::MAX {
            return Err(Error::DatabaseFailure);
        }
        let bal: i64 = self.accounts[idx].balance;
        let nb: i128 = bal as i128 + amount as i128;
        if nb < 0 || nb > i64::MAX as i128 {
            return Err(Error::DatabaseFailure);
        }
        let ghost pre = self@;
        let mut row = self.accounts[idx].duplicate();
        row.balance = nb as i64;
        self.accounts.set(idx, row);
        let entry = BankTransaction {
            id: self.next_id,
            user_id,
            description,
            amount,
            created_at: now,
        };
        let ghost ev = entry@;
        self.transactions.push(entry);
        self.next_id = self.next_id + 1;
        proof {
            let i = idx as int;
            assert(i == account_idx(pre.accounts, user_id));
            assert(self@ =~~= posted_store(pre, user_id, amount, description@, now));
            let post = self@;
            // The ledger clause: every account's balance still sums its
            // owner's entries, the touched one included.
            assert forall|k: int| 0 <= k < post.accounts.len() implies {
                &&& (#[trigger] post.accounts[k]).balance == crate::model::sum_for(
                    post.transactions,
                    post.accounts[k].user_id,
                )
                &&& post.accounts[k].balance >= 0
            } by {
                lemma_sum_for_push(pre.transactions, ev, pre.accounts[k].user_id);
                if k != i {
                    assert(pre.accounts[k].user_id != user_id);
                }
            }
            // Every entry still has an owning account, the new one included.
            assert forall|k: int| 0 <= k < post.transactions.len() implies has_account_for(
                post.accounts,
                (#[trigger] post.transactions[k]).user_id,
            ) by {
                if k < pre.transactions.len() {
                    let w = account_idx(pre.accounts, pre.transactions[k].user_id);
                    assert(post.accounts[w].user_id == pre.transactions[k].user_id);
                } else {
                    assert(post.accounts[i].user_id == user_id);
                }
            }
        }
        Ok(())
    }

    /// Awards (or, negatively, charges) points: atomically moves the balance
    /// by `amount` and appends the matching audit entry.  Succeeds on every
    /// existing account unless the posting would breach a store constraint
    /// (a balance below zero or above the representable range, or an
    /// exhausted id space); on any failure the store is unchanged.
    pub fn award_points(&mut self, user_id: u64, amount: i64, description: String, now: i64) -> (r:
        Result<(), Error>)
        requires
            old(self).wf(),
        ensures
            final(self).wf(),
            r is Err ==> final(self)@ == old(self)@,
            !has_account_for(old(self)@.accounts, user_id) ==> r == Err::<(), Error>(
                Error::NotFound,
            ),
            has_account_for(old(self)@.accounts, user_id) ==> {
                let bal = old(self)@.accounts[account_idx(old(self)@.accounts, user_id)].balance;
                if old(self)@.next_id == u64::MAX || bal + amount < 0 || bal + amount > i64::MAX {
                    r == Err::<(), Error>(Error::DatabaseFailure)
                } else {
                    r == Ok::<(), Error>(()) && final(self)@ == posted_store(
                        old(self)@,
                        user_id,
                        amount,
                        description@,
                        now,
                    )
                }
            },
    {
        self.post_transaction(user_id, amount, description, now)
    }

    /// Debits `amount` from the user's balance, but only after checking the
    /// freshly read balance: returns `InsufficientFunds` and changes nothing
    /// if the balance is smaller.  A negative amount is rejected outright,
    /// so this path can only lower a balance, never below zero.
    pub fn spend(&mut self, user_id: u64, amount: i64, description: String, now: i64) -> (r:
        Result<(), Error>)
        requires
            old(self).wf(),
        ensures
            final(self).wf(),
            r is Err ==> final(self)@ == old(self)@,
            amount < 0 ==> r == Err::<(), Error>(Error::InvalidAmount),
            amount >= 0 && !has_account_for(old(self)@.accounts, user_id) ==> r == Err::<(), Error>(
                Error::NotFound,
            ),
            amount >= 0 && has_account_for(old(self)@.accounts, user_id) ==> {
                let bal = old(self)@.accounts[account_idx(old(self)@.accounts, user_id)].balance;
                if bal < amount {
                    r == Err::<(), Error>(Error::InsufficientFunds)
                } else if old(self)@.next_id == u64::MAX {
                    r == Err::<(), Error>(Error::DatabaseFailure)
                } else {
                    r == Ok::<(), Error>(()) && final(self)@ == posted_store(
                        old(self)@,
                        user_id,
                        (-amount) as i64,
                        description@,
                        now,
                    )
                }
            },
            final(self)@ == spend_spec(old(self)@, user_id, amount, description@, now).0,
            spend_spec(old(self)@, user_id, amount, description@, now).1 matches Some(e) ==> r
                == Err::<(), Error>(e),
            spend_spec(old(self)@, user_id, amount, description@, now).1 is None ==> r == Ok::<
                (),
                Error,
            >(()),
    {
        if amount < 0 {
            return Err(Error::InvalidAmount);
        }
        let idx = match self.find_account_by_user(user_id) {
            Some(j) => j,
            None => { return Err(Error::NotFound) },
        };
        if self.accounts[idx].balance < amount {
            return Err(Error::InsufficientFunds);
        }
        self.post_transaction(user_id, -amount, description, now)
    }

    /// Purchases a service: debits the price exactly as [`Store::spend`]
    /// does and records the ownership grant in the same unit of work, the
    /// grant idempotently.  On any failure the store is unchanged.
    pub fn purchase_service(&mut self, user_id: u64, service_id: u64, price: i64, now: i64) -> (r:
        Result<(), Error>)
        requires
            old(self).wf(),
        ensures
            final(self).wf(),
            r is Err ==> final(self)@ == old(self)@,
            price < 0 ==> r == Err::<(), Error>(Error::InvalidAmount),
            price >= 0 && !has_account_for(old(self)@.accounts, user_id) ==> r == Err::<(), Error>(
                Error::NotFound,
            ),
            price >= 0 && has_account_for(old(self)@.accounts, user_id) ==> {
                let bal = old(self)@.accounts[account_idx(old(self)@.accounts, user_id)].balance;
                if bal < price {
                    r == Err::<(), Error>(Error::InsufficientFunds)
                } else if old(self)@.next_id == u64::MAX {
                    r == Err::<(), Error>(Error::DatabaseFailure)
                } else {
                    let debited = posted_store(
                        old(self)@,
                        user_id,
                        (-price) as i64,
                        "Service purchase"@,
                        now,
                    );
                    r == Ok::<(), Error>(()) && final(self)@ == (StoreView {
                        user_services: if has_grant(old(self)@.user_services, user_id, service_id) {
                            old(self)@.user_services
                        } else {
                            old(self)@.user_services.push(ServiceGrant { user_id, service_id })
                        },
                        ..debited
                    })
                }
            },
    {
        let ghost pre = self@;
        let description = String::from_str("Service purchase");
        let r = self.spend(user_id, price, description, now);
        if let Err(e) = r {
            return Err(e);
        }
        if !self.has_service_grant(user_id, service_id) {
            let ghost mid = self@;
            self.user_services.push(ServiceGrant { user_id, service_id });
            proof {
                assert(self@ =~~= (StoreView { user_services: mid.user_services.push(ServiceGrant { user_id, service_id }), ..mid }));
                assert(has_user_id(self@.users, user_id)) by {
                    let w = account_idx(pre.accounts, user_id);
                    assert(mid.accounts[w].user_id == user_id);
                }
            }
        }
        Ok(())
    }

    /// Creates a standalone bank account with freshly generated card
    /// details and balance zero for a user who does not have one yet.  A
    /// missing user or an already-present account would break a store
    /// constraint and is refused as `DatabaseFailure`, changing nothing.
    pub fn create_bank_account(&mut self, request: CreateBankAccountRequest, now: i64) -> (r:
        Result<String, Error>)
        requires
            old(self).wf(),
        ensures
            final(self).wf(),
            r is Err ==> final(self)@ == old(self)@,
            !has_user_id(old(self)@.users, request.user_id) || has_account_for(
                old(self)@.accounts,
                request.user_id,
            ) || old(self)@.next_id == u64::MAX ==> r == Err::<String, Error>(
                Error::DatabaseFailure,
            ),
            has_user_id(old(self)@.users, request.user_id) && !has_account_for(
                old(self)@.accounts,
                request.user_id,
            ) && old(self)@.next_id < u64::MAX ==> (r matches Ok(msg) && msg@
                == "Bank account created successfully"@) && exists|
                an: Seq<char>,
                cn: Seq<char>,
                cv: Seq<char>,
                ex: Seq<char>,
            |
                is_account_number(an) && is_card_number(cn) && is_cvc(cv) && is_expiry(ex) && final(self)@ == (StoreView {
                    accounts: old(self)@.accounts.push(
                        (AccountView {
                            id: old(self)@.next_id,
                            user_id: request.user_id,
                            balance: 0,
                            account_number: an,
                            card_number: cn,
                            cvc: cv,
                            expiry_date: ex,
                            created_at: now,
                        }),
                    ),
                    next_id: (old(self)@.next_id + 1) as u64,
                    ..old(self)@
                }),
    {
        if self.find_user_by_id(request.user_id).is_none() {
            return Err(Error::DatabaseFailure);
        }
        if self.find_account_by_user(request.user_id).is_some() {
            return Err(Error::DatabaseFailure);
        }
        if self.next_id == u64::MAX {
            return Err(Error::DatabaseFailure);
        }
        let ghost pre = self@;
        let row = BankAccount {
            id: self.next_id,
            user_id: request.user_id,
            balance: 0,
            account_number: generate_account_number(),
            card_number: generate_card_number(),
            cvc: generate_cvc(),
            expiry_date: generate_expiry_date(),
            created_at: now,
        };
        let ghost rv = row@;
        self.accounts.push(row);
        self.next_id = self.next_id + 1;
        proof {
            assert(self@ =~~= (StoreView {
                accounts: pre.accounts.push(rv),
                next_id: (pre.next_id + 1) as u64,
                ..pre
            }));
            let post = self@;
            // A user without an account has no ledger entries, so the fresh
            // balance of zero sums the (empty) ledger of this user.
            assert(forall|i: int|
                0 <= i < pre.transactions.len() ==> (#[trigger] pre.transactions[i]).user_id
                    != request.user_id);
            crate::model::lemma_sum_for_absent(pre.transactions, request.user_id);
            assert forall|k: int| 0 <= k < post.transactions.len() implies has_account_for(
                post.accounts,
                (#[trigger] post.transactions[k]).user_id,
            ) by {
                let w = account_idx(pre.accounts, pre.transactions[k].user_id);
                assert(post.accounts[w].user_id == pre.transactions[k].user_id);
            }
        }
        Ok(String::from_str("Bank account created successfully"))
    }

    /// Replaces the user's card number, verification code and expiry with
    /// freshly generated ones, when the request asks for a new card; a
    /// request that asks for nothing fails with `NoFieldsSpecified`, and a
    /// user without an account matches no row and is reported as success.
    pub fn update_card_details(&mut self, request: UpdateCardRequest) -> (r: Result<String, Error>)
        requires
            old(self).wf(),
        ensures
            final(self).wf(),
            !request.generate_new_card ==> r == Err::<String, Error>(Error::NoFieldsSpecified)
                && final(self)@ == old(self)@,
            request.generate_new_card && !has_account_for(old(self)@.accounts, request.user_id)
                ==> (r matches Ok(msg) && msg@ == "New card details generated successfully"@)
                && final(self)@ == old(self)@,
            request.generate_new_card && has_account_for(old(self)@.accounts, request.user_id)
                ==> (r matches Ok(msg) && msg@ == "New card details generated successfully"@)
                && exists|cn: Seq<char>, cv: Seq<char>, ex: Seq<char>|
                is_card_number(cn) && is_cvc(cv) && is_expiry(ex) && final(self)@ == (StoreView {
                    accounts: old(self)@.accounts.update(
                        account_idx(old(self)@.accounts, request.user_id),
                        (AccountView {
                            card_number: cn,
                            cvc: cv,
                            expiry_date: ex,
                            ..old(self)@.accounts[account_idx(old(self)@.accounts, request.user_id)]
                        }),
                    ),
                    ..old(self)@
                }),
    {
        if !request.generate_new_card {
            return Err(Error::NoFieldsSpecified);
        }
        let idx = match self.find_account_by_user(request.user_id) {
            Some(j) => j,
            None => { return Ok(String::from_str("New card details generated successfully")) },
        };
        let ghost pre = self@;
        let mut row = self.accounts[idx].duplicate();
        row.card_number = generate_card_number();
        row.cvc = generate_cvc();
        row.expiry_date = generate_expiry_date();
        let ghost rv = row@;
        self.accounts.set(idx, row);
        proof {
            let i = idx as int;
            assert(self@ =~~= (StoreView { accounts: pre.accounts.update(i, rv), ..pre }));
            let post = self@;
            assert forall|k: int| 0 <= k < post.transactions.len() implies has_account_for(
                post.accounts,
                (#[trigger] post.transactions[k]).user_id,
            ) by {
                let w = account_idx(pre.accounts, pre.transactions[k].user_id);
                assert(post.accounts[w].user_id == pre.transactions[k].user_id);
            }
        }
        Ok(String::from_str("New card details generated successfully"))
    }

    /// Convenience surface for a new card: exactly a card-detail update
    /// with generation requested.
    pub fn generate_new_card(&mut self, user_id: u64) -> (r: Result<String, Error>)
        requires
            old(self).wf(),
        ensures
            final(self).wf(),
            !has_account_for(old(self)@.accounts, user_id) ==> (r matches Ok(msg) && msg@
                == "New card details generated successfully"@) && final(self)@ == old(self)@,
            has_account_for(old(self)@.accounts, user_id) ==> (r matches Ok(msg) && msg@
                == "New card details generated successfully"@) && exists|
                cn: Seq<char>,
                cv: Seq<char>,
                ex: Seq<char>,
            |
                is_card_number(cn) && is_cvc(cv) && is_expiry(ex) && final(self)@ == (StoreView {
                    accounts: old(self)@.accounts.update(
                        account_idx(old(self)@.accounts, user_id),
                        (AccountView {
                            card_number: cn,
                            cvc: cv,
                            expiry_date: ex,
                            ..old(self)@.accounts[account_idx(old(self)@.accounts, user_id)]
                        }),
                    ),
                    ..old(self)@
                }),
    {
        self.update_card_details(UpdateCardRequest { user_id, generate_new_card: true })
    }

    /// This user's bank account row, if any, as an equal copy.
    pub fn get_bank_details(&self, user_id: u64) -> (r: Option<BankAccount>)
        requires
            self.wf(),
        ensures
            match r {
                Some(a) => has_account_for(self@.accounts, user_id) && a@ == self@.accounts[
                    account_idx(self@.accounts, user_id)
                ],
                None => !has_account_for(self@.accounts, user_id),
            },
    {
        match self.find_account_by_user(user_id) {
            Some(j) => Some(self.accounts[j].duplicate()),
            None => None,
        }
    }

    /// This user's ledger entries, most recently appended first.
    pub fn get_transactions(&self, user_id: u64) -> (r: Vec<BankTransaction>)
        requires
            self.wf(),
        ensures
            transaction_views(r@) == txns_desc(self@.transactions, user_id),
    {
        let mut out: Vec<BankTransaction> = Vec::new();
        let n = self.transactions.len();
        let mut i: usize = n;
        while i > 0
            invariant
                n == self.transactions.len(),
                i <= n,
                transaction_views(out@) == txns_desc(
                    self@.transactions.subrange(i as int, n as int),
                    user_id,
                ),
            decreases i,
        {
            i = i - 1;
            if self.transactions[i].user_id == user_id {
                out.push(self.transactions[i].duplicate());
            }
            proof {
                assert(self@.transactions.subrange(i as int, n as int).drop_first()
                    =~= self@.transactions.subrange(i + 1, n as int));
                assert(transaction_views(out@) =~= txns_desc(
                    self@.transactions.subrange(i as int, n as int),
                    user_id,
                ));
            }
        }
        proof {
            assert(self@.transactions.subrange(0, n as int) =~= self@.transactions);
        }
        out
    }

    /// The ids of the services this user owns, in grant order.
    pub fn get_user_services(&self, user_id: u64) -> (r: Vec<u64>)
        requires
            self.wf(),
        ensures
            r@ == grant_ids_of(self@.user_services, user_id),
    {
        let mut out: Vec<u64> = Vec::new();
        let n = self.user_services.len();
        let mut i: usize = 0;
        while i < n
            invariant
                n == self.user_services.len(),
                i <= n,
                out@ == grant_ids_of(self@.user_services.subrange(0, i as int), user_id),
            decreases n - i,
        {
            if self.user_services[i].user_id == user_id {
                out.push(self.user_services[i].service_id);
            }
            i += 1;
            proof {
                assert(self@.user_services.subrange(0, i as int).drop_last() =~= self@
                    .user_services.subrange(0, i - 1));
                assert(out@ =~= grant_ids_of(self@.user_services.subrange(0, i as int), user_id));
            }
        }
        proof {
            assert(self@.user_services.subrange(0, n as int) =~= self@.user_services);
        }
        out
    }
}

} // verus!
