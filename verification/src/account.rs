//! The account provisioner: atomic creation of a user with its dependent
//! rows, cascade deletion, and the partial profile update.
//!
//! Creation inserts the user row, its bank account (balance zero) and one
//! inbox row per template email as one unit of work: on any refusal nothing
//! at all is inserted.  Deletion removes the user and every dependent row
//! (child before parent), so no orphan rows survive.

use vstd::prelude::*;

use crate::errors::Error;
use crate::model::{
    account_idx, drop_accounts_of, drop_files_of, drop_grants_of, drop_txns_of,
    drop_user_emails_of, drop_user_tasks_of, drop_users_with_id, has_account_for, has_user_id,
    has_user_name, lemma_drop_accounts_of, lemma_drop_files_of, lemma_drop_grants_of,
    lemma_drop_txns_of, lemma_drop_user_emails_of, lemma_drop_user_tasks_of,
    lemma_drop_users_with_id, lemma_sum_for_absent, lemma_sum_for_drop_other, sum_for,
    user_email_views, user_idx, user_name_idx, user_views, AccountView, EmailTemplateView,
    IdentityView, StoreView, UserDetailsView, UserEmailView, UserView,
};
use crate::records::{
    AccountIdentity, BankAccount, CreateUserRequest, EncryptedFile, ServiceGrant,
    UpdateUserRequest, User,
    UserDetails, UserEmail,
};
use crate::store::Store;

verus! {

/// The inbox rows seeded for a fresh user: one unread, unclassified row per
/// template email, in template order.
pub open spec fn seeded_inbox(templates: Seq<EmailTemplateView>, user_id: u64) -> Seq<
    UserEmailView,
> {
    templates.map_values(
        |t: EmailTemplateView|
            UserEmailView {
                user_id,
                universal_email_id: t.id,
                is_read: false,
                classification: "none"@,
            },
    )
}

/// The store after a successful provisioning: one user row, one account row
/// with balance zero, one seeded inbox row per template, two identifiers
/// consumed, and nothing else touched.
pub open spec fn created_store(
    m: StoreView,
    device_name: Seq<char>,
    name: Seq<char>,
    password_hash: Seq<char>,
    identity: IdentityView,
    now: i64,
) -> StoreView {
    let uid = m.next_id;
    StoreView {
        users: m.users.push(
            (UserView {
                id: uid,
                device_name,
                name,
                password_hash,
                ip: identity.ip,
                mac: identity.mac,
                created_at: now,
            }),
        ),
        accounts: m.accounts.push(
            (AccountView {
                id: (m.next_id + 1) as u64,
                user_id: uid,
                balance: 0,
                account_number: identity.account_number,
                card_number: identity.card_number,
                cvc: identity.cvc,
                expiry_date: identity.expiry_date,
                created_at: now,
            }),
        ),
        user_emails: m.user_emails + seeded_inbox(m.universal_emails, uid),
        next_id: (m.next_id + 2) as u64,
        ..m
    }
}

/// The store after deleting a user, and the outcome: `NotFound` leaves the
/// store as it was; otherwise the user row and every dependent row of every
/// table are gone and nothing else changes.
pub open spec fn delete_account_spec(m: StoreView, user_id: u64) -> (StoreView, Option<Error>) {
    if !has_user_id(m.users, user_id) {
        (m, Some(Error::NotFound))
    } else {
        (
            StoreView {
                users: drop_users_with_id(m.users, user_id),
                accounts: drop_accounts_of(m.accounts, user_id),
                transactions: drop_txns_of(m.transactions, user_id),
                user_tasks: drop_user_tasks_of(m.user_tasks, user_id),
                user_emails: drop_user_emails_of(m.user_emails, user_id),
                user_services: drop_grants_of(m.user_services, user_id),
                encrypted_files: drop_files_of(m.encrypted_files, user_id),
                ..m
            },
            None,
        )
    }
}

/// Cascade deletion preserves the store invariant.
pub proof fn lemma_delete_wf(m: StoreView, user_id: u64)
    requires
        m.wf(),
        has_user_id(m.users, user_id),
    ensures
        delete_account_spec(m, user_id).0.wf(),
{
    let post = delete_account_spec(m, user_id).0;
    lemma_drop_users_with_id(m.users, user_id);
    lemma_drop_accounts_of(m.accounts, user_id);
    lemma_drop_txns_of(m.transactions, user_id);
    lemma_drop_user_tasks_of(m.user_tasks, user_id);
    lemma_drop_user_emails_of(m.user_emails, user_id);
    lemma_drop_grants_of(m.user_services, user_id);
    lemma_drop_files_of(m.encrypted_files, user_id);
    assert forall|i: int| 0 <= i < post.users.len() implies (#[trigger] post.users[i]).id
        < post.next_id && post.users[i].password_hash.len() > 0 by {
        let w = choose|k: int| 0 <= k < m.users.len() && m.users[k] == post.users[i];
        assert(m.users[w].id < m.next_id);
    }
    assert forall|i: int| 0 <= i < post.accounts.len() implies {
        &&& (#[trigger] post.accounts[i]).id < post.next_id
        &&& post.accounts[i].user_id < post.next_id
        &&& has_user_id(post.users, post.accounts[i].user_id)
        &&& post.accounts[i].balance >= 0
        &&& post.accounts[i].balance == sum_for(post.transactions, post.accounts[i].user_id)
    } by {
        let row = post.accounts[i];
        let w = choose|k: int| 0 <= k < m.accounts.len() && m.accounts[k] == row;
        assert(m.accounts[w].id < m.next_id);
        let uw = user_idx(m.users, row.user_id);
        assert(m.users[uw].id == row.user_id);
        assert(post.users.contains(m.users[uw]));
        let pw = choose|k: int| 0 <= k < post.users.len() && post.users[k] == m.users[uw];
        assert(post.users[pw].id == row.user_id);
        lemma_sum_for_drop_other(m.transactions, user_id, row.user_id);
    }
    assert forall|i: int| 0 <= i < post.transactions.len() implies {
        &&& (#[trigger] post.transactions[i]).id < post.next_id
        &&& post.transactions[i].user_id < post.next_id
        &&& has_account_for(post.accounts, post.transactions[i].user_id)
    } by {
        let row = post.transactions[i];
        let w = choose|k: int| 0 <= k < m.transactions.len() && m.transactions[k] == row;
        assert(m.transactions[w].id < m.next_id);
        let aw = account_idx(m.accounts, row.user_id);
        assert(m.accounts[aw].user_id == row.user_id);
        assert(post.accounts.contains(m.accounts[aw]));
        let pw = choose|k: int| 0 <= k < post.accounts.len() && post.accounts[k] == m.accounts[aw];
        assert(post.accounts[pw].user_id == row.user_id);
    }
    assert forall|i: int| 0 <= i < post.user_tasks.len() implies {
        &&& (#[trigger] post.user_tasks[i]).id < post.next_id
        &&& has_user_id(post.users, post.user_tasks[i].user_id)
        &&& crate::model::has_task(post.tasks, post.user_tasks[i].universal_task_id)
        &&& (post.user_tasks[i].status is Completed <==> post.user_tasks[i].completed_at is Some)
    } by {
        let row = post.user_tasks[i];
        let w = choose|k: int| 0 <= k < m.user_tasks.len() && m.user_tasks[k] == row;
        assert(m.user_tasks[w].id < m.next_id);
        let uw = user_idx(m.users, row.user_id);
        assert(m.users[uw].id == row.user_id);
        assert(post.users.contains(m.users[uw]));
        let pw = choose|k: int| 0 <= k < post.users.len() && post.users[k] == m.users[uw];
        assert(post.users[pw].id == row.user_id);
    }
    assert forall|i: int| 0 <= i < post.user_emails.len() implies {
        &&& has_user_id(post.users, (#[trigger] post.user_emails[i]).user_id)
        &&& crate::model::has_template(post.universal_emails, post.user_emails[i].universal_email_id)
    } by {
        let row = post.user_emails[i];
        let w = choose|k: int| 0 <= k < m.user_emails.len() && m.user_emails[k] == row;
        assert(has_user_id(m.users, m.user_emails[w].user_id));
        let uw = user_idx(m.users, row.user_id);
        assert(m.users[uw].id == row.user_id);
        assert(post.users.contains(m.users[uw]));
        let pw = choose|k: int| 0 <= k < post.users.len() && post.users[k] == m.users[uw];
        assert(post.users[pw].id == row.user_id);
    }
    assert forall|i: int| 0 <= i < post.user_services.len() implies has_user_id(
        post.users,
        (#[trigger] post.user_services[i]).user_id,
    ) by {
        let row = post.user_services[i];
        let w = choose|k: int| 0 <= k < m.user_services.len() && m.user_services[k] == row;
        assert(has_user_id(m.users, m.user_services[w].user_id));
        let uw = user_idx(m.users, row.user_id);
        assert(m.users[uw].id == row.user_id);
        assert(post.users.contains(m.users[uw]));
        let pw = choose|k: int| 0 <= k < post.users.len() && post.users[k] == m.users[uw];
        assert(post.users[pw].id == row.user_id);
    }
    assert forall|i: int| 0 <= i < post.encrypted_files.len() implies has_user_id(
        post.users,
        (#[trigger] post.encrypted_files[i]).user_id,
    ) by {
        let row = post.encrypted_files[i];
        let w = choose|k: int| 0 <= k < m.encrypted_files.len() && m.encrypted_files[k] == row;
        assert(has_user_id(m.users, m.encrypted_files[w].user_id));
        let uw = user_idx(m.users, row.user_id);
        assert(m.users[uw].id == row.user_id);
        assert(post.users.contains(m.users[uw]));
        let pw = choose|k: int| 0 <= k < post.users.len() && post.users[k] == m.users[uw];
        assert(post.users[pw].id == row.user_id);
    }
}

/// A user row with the supplied fields replaced and all others kept.
pub open spec fn updated_user(u: UserView, request: UpdateUserRequest) -> UserView {
    UserView {
        device_name: match request.device_name {
            Some(v) => v@,
            None => u.device_name,
        },
        ip: match request.ip {
            Some(v) => v@,
            None => u.ip,
        },
        mac: match request.mac {
            Some(v) => v@,
            None => u.mac,
        },
        ..u
    }
}

impl Store {
    /// Provisions an account from already-generated identifiers: inserts the
    /// user (with the caller-hashed credential), its bank account with
    /// balance zero, and one inbox row per template email, all as one unit
    /// of work.  Returns the new user's id.  Rejected with `DuplicateName`
    /// if the name is taken, `EmptyPassword` on an empty credential, and
    /// `DatabaseFailure` if the identifier space is exhausted; on every
    /// rejection the store holds none of the three kinds of row.
    pub fn create_account_with_identity(
        &mut self,
        device_name: String,
        name: String,
        password_hash: String,
        identity: AccountIdentity,
        now: i64,
    ) -> (r: Result<u64, Error>)
        requires
            old(self).wf(),
        ensures
            final(self).wf(),
            r is Err ==> final(self)@ == old(self)@,
            has_user_name(old(self)@.users, name@) ==> r == Err::<u64, Error>(Error::DuplicateName),
            !has_user_name(old(self)@.users, name@) && password_hash@.len() == 0 ==> r == Err::<
                u64,
                Error,
            >(Error::EmptyPassword),
            !has_user_name(old(self)@.users, name@) && password_hash@.len() > 0 && old(self)@.next_id
                > u64::MAX - 2 ==> r == Err::<u64, Error>(Error::DatabaseFailure),
            !has_user_name(old(self)@.users, name@) && password_hash@.len() > 0 && old(self)@.next_id
                <= u64::MAX - 2 ==> r == Ok::<u64, Error>(old(self)@.next_id) && final(self)@
                == created_store(
                old(self)@,
                device_name@,
                name@,
                password_hash@,
                identity@,
                now,
            ),
    {
        if self.find_user_by_name(&name).is_some() {
            return Err(Error::DuplicateName);
        }
        if password_hash.as_str().is_empty() {
            return Err(Error::EmptyPassword);
        }
        if self.next_id > u64::MAX - 2 {
            return Err(Error::DatabaseFailure);
        }
        let ghost pre = self@;
        let ghost identity_v = identity@;
        let AccountIdentity { ip, mac, account_number, card_number, cvc, expiry_date } = identity;
        let uid = self.next_id;
        let user = User {
            id: uid,
            device_name,
            name,
            password_hash,
            ip,
            mac,
            created_at: now,
        };
        let ghost user_v = user@;
        self.users.push(user);
        let account = BankAccount {
            id: uid + 1,
            user_id: uid,
            balance: 0,
            account_number,
            card_number,
            cvc,
            expiry_date,
            created_at: now,
        };
        let ghost account_v = account@;
        self.accounts.push(account);
        let ghost mid = self@;
        proof {
            assert(mid =~~= (StoreView {
                users: pre.users.push(user_v),
                accounts: pre.accounts.push(account_v),
                ..pre
            }));
        }
        let n = self.universal_emails.len();
        let mut k: usize = 0;
        while k < n
            invariant
                n == self.universal_emails.len(),
                k <= n,
                self@ == (StoreView {
                    user_emails: mid.user_emails + seeded_inbox(
                        mid.universal_emails.subrange(0, k as int),
                        uid,
                    ),
                    ..mid
                }),
            decreases n - k,
        {
            let eid = self.universal_emails[k].id;
            let row = UserEmail {
                user_id: uid,
                universal_email_id: eid,
                is_read: false,
                classification: String::from_str("none"),
            };
            let ghost rv = row@;
            let ghost pre_emails = self@.user_emails;
            self.user_emails.push(row);
            proof {
                let ki = k as int;
                assert(rv == (UserEmailView {
                    user_id: uid,
                    universal_email_id: mid.universal_emails[ki].id,
                    is_read: false,
                    classification: "none"@,
                }));
                assert(seeded_inbox(mid.universal_emails.subrange(0, ki + 1), uid) =~= seeded_inbox(
                    mid.universal_emails.subrange(0, ki),
                    uid,
                ).push(rv));
                assert(self@.user_emails =~= pre_emails.push(rv));
                assert((mid.user_emails + seeded_inbox(mid.universal_emails.subrange(0, ki), uid))
                    .push(rv) =~= mid.user_emails + seeded_inbox(
                    mid.universal_emails.subrange(0, ki),
                    uid,
                ).push(rv));
                assert(self@.user_emails =~= mid.user_emails + seeded_inbox(
                    mid.universal_emails.subrange(0, ki + 1),
                    uid,
                ));
                assert(self@ =~~= (StoreView {
                    user_emails: mid.user_emails + seeded_inbox(
                        mid.universal_emails.subrange(0, ki + 1),
                        uid,
                    ),
                    ..mid
                }));
            }
            k += 1;
        }
        self.next_id = uid + 2;
        proof {
            assert(mid.universal_emails.subrange(0, n as int) =~= mid.universal_emails);
            let post = created_store(pre, user_v.device_name, user_v.name, user_v.password_hash,
                identity_v, now);
            assert(self@ =~~= post);
            // Fresh name: nothing in the old rows carries it.
            assert(forall|i: int|
                0 <= i < pre.users.len() ==> (#[trigger] pre.users[i]).name != user_v.name);
            // The new user's id is above every id in the store.
            assert(has_user_id(post.users, uid)) by {
                assert(post.users.last().id == uid);
            }
            // The fresh user has no ledger entries yet.
            assert(sum_for(pre.transactions, uid) == 0) by {
                assert(forall|i: int|
                    0 <= i < pre.transactions.len() ==> (#[trigger] pre.transactions[i]).user_id
                        != uid);
                lemma_sum_for_absent(pre.transactions, uid);
            }
            assert forall|i: int| 0 <= i < post.accounts.len() implies {
                &&& has_user_id(post.users, (#[trigger] post.accounts[i]).user_id)
                &&& post.accounts[i].balance == sum_for(post.transactions, post.accounts[i].user_id)
            } by {
                if i < pre.accounts.len() {
                    let uw = user_idx(pre.users, pre.accounts[i].user_id);
                    assert(post.users[uw].id == post.accounts[i].user_id);
                }
            }
            assert forall|i: int| 0 <= i < post.transactions.len() implies has_account_for(
                post.accounts,
                (#[trigger] post.transactions[i]).user_id,
            ) by {
                let aw = account_idx(pre.accounts, pre.transactions[i].user_id);
                assert(post.accounts[aw].user_id == post.transactions[i].user_id);
            }
            assert forall|i: int| 0 <= i < post.user_tasks.len() implies has_user_id(
                post.users,
                (#[trigger] post.user_tasks[i]).user_id,
            ) by {
                let uw = user_idx(pre.users, pre.user_tasks[i].user_id);
                assert(post.users[uw].id == post.user_tasks[i].user_id);
            }
            // Inbox rows: the old ones keep their owners; the seeded ones
            // belong to the new user and one template each.
            assert forall|i: int| 0 <= i < post.user_emails.len() implies {
                &&& has_user_id(post.users, (#[trigger] post.user_emails[i]).user_id)
                &&& crate::model::has_template(
                    post.universal_emails,
                    post.user_emails[i].universal_email_id,
                )
                &&& (i >= pre.user_emails.len() ==> post.user_emails[i].user_id == uid)
                &&& (i < pre.user_emails.len() ==> post.user_emails[i].user_id != uid)
            } by {
                if i < pre.user_emails.len() {
                    let x = pre.user_emails[i].user_id;
                    let uw = user_idx(pre.users, x);
                    assert(pre.users[uw].id == x);
                    assert(post.users[uw].id == x);
                    assert(pre.users[uw].id < pre.next_id);
                } else {
                    let t = i - pre.user_emails.len();
                    assert(post.user_emails[i] == seeded_inbox(pre.universal_emails, uid)[t]);
                    assert(post.user_emails[i].universal_email_id == pre.universal_emails[t].id);
                    assert(post.universal_emails[t].id == pre.universal_emails[t].id);
                }
            }
            assert forall|i: int| 0 <= i < post.user_services.len() implies has_user_id(
                post.users,
                (#[trigger] post.user_services[i]).user_id,
            ) by {
                let uw = user_idx(pre.users, pre.user_services[i].user_id);
                assert(post.users[uw].id == post.user_services[i].user_id);
            }
            assert forall|i: int| 0 <= i < post.encrypted_files.len() implies has_user_id(
                post.users,
                (#[trigger] post.encrypted_files[i]).user_id,
            ) by {
                let uw = user_idx(pre.users, pre.encrypted_files[i].user_id);
                assert(post.users[uw].id == post.encrypted_files[i].user_id);
            }
        }
        Ok(uid)
    }

    /// Provisions an account with freshly generated identifiers: the
    /// public surface of creation.  The request's `password` field carries
    /// the credential as the caller's hashing collaborator produced it.
    /// Everything [`Store::create_account_with_identity`] guarantees holds
    /// here, with an identity bundle of the generated shapes.
    pub fn create_account(&mut self, request: CreateUserRequest, now: i64) -> (r: Result<
        u64,
        Error,
    >)
        requires
            old(self).wf(),
        ensures
            final(self).wf(),
            r is Err ==> final(self)@ == old(self)@,
            has_user_name(old(self)@.users, request.name@) ==> r == Err::<u64, Error>(
                Error::DuplicateName,
            ),
            !has_user_name(old(self)@.users, request.name@) && request.password@.len() == 0 ==> r
                == Err::<u64, Error>(Error::EmptyPassword),
            !has_user_name(old(self)@.users, request.name@) && request.password@.len() > 0 && old(
                self,
            )@.next_id > u64::MAX - 2 ==> r == Err::<u64, Error>(Error::DatabaseFailure),
            !has_user_name(old(self)@.users, request.name@) && request.password@.len() > 0 && old(
                self,
            )@.next_id <= u64::MAX - 2 ==> r == Ok::<u64, Error>(old(self)@.next_id) && exists|
                identity: crate::model::IdentityView,
            |
                crate::generators::is_generated_identity(identity) && final(self)@
                    == created_store(
                    old(self)@,
                    request.device_name@,
                    request.name@,
                    request.password@,
                    identity,
                    now,
                ),
    {
        let identity = crate::generators::generate_identity();
        let ghost iv = identity@;
        let r = self.create_account_with_identity(
            request.device_name,
            request.name,
            request.password,
            identity,
            now,
        );
        proof {
            if r is Ok {
                assert(crate::generators::is_generated_identity(iv));
            }
        }
        r
    }

    /// Deletes the user and, child before parent, every dependent row: bank
    /// account, ledger entries, task state, inbox, grants and encryption
    /// records.  Fails with `NotFound`, changing nothing, if no such user
    /// exists — so a second deletion of the same id always fails.
    pub fn delete_account(&mut self, user_id: u64) -> (r: Result<(), Error>)
        requires
            old(self).wf(),
        ensures
            final(self).wf(),
            final(self)@ == delete_account_spec(old(self)@, user_id).0,
            r == (match delete_account_spec(old(self)@, user_id).1 {
                None => Ok::<(), Error>(()),
                Some(e) => Err::<(), Error>(e),
            }),
            r is Err ==> final(self)@ == old(self)@,
            r is Ok ==> !has_user_id(final(self)@.users, user_id) && !has_account_for(
                final(self)@.accounts,
                user_id,
            ),
    {
        if self.find_user_by_id(user_id).is_none() {
            return Err(Error::NotFound);
        }
        let ghost pre = self@;

        let mut kept_users: Vec<User> = Vec::new();
        let n_users = self.users.len();
        let mut i: usize = 0;
        while i < n_users
            invariant
                n_users == self.users.len(),
                i <= n_users,
                user_views(kept_users@) == drop_users_with_id(
                    self@.users.subrange(0, i as int),
                    user_id,
                ),
            decreases n_users - i,
        {
            if self.users[i].id != user_id {
                kept_users.push(self.users[i].duplicate());
            }
            i += 1;
            proof {
                assert(self@.users.subrange(0, i as int).drop_last() =~= self@.users.subrange(
                    0,
                    i - 1,
                ));
                assert(user_views(kept_users@) =~= drop_users_with_id(
                    self@.users.subrange(0, i as int),
                    user_id,
                ));
            }
        }

        let mut kept_accounts: Vec<BankAccount> = Vec::new();
        let n_accounts = self.accounts.len();
        let mut i: usize = 0;
        while i < n_accounts
            invariant
                n_accounts == self.accounts.len(),
                i <= n_accounts,
                crate::model::account_views(kept_accounts@) == drop_accounts_of(
                    self@.accounts.subrange(0, i as int),
                    user_id,
                ),
            decreases n_accounts - i,
        {
            if self.accounts[i].user_id != user_id {
                kept_accounts.push(self.accounts[i].duplicate());
            }
            i += 1;
            proof {
                assert(self@.accounts.subrange(0, i as int).drop_last() =~= self@.accounts.subrange(
                    0,
                    i - 1,
                ));
                assert(crate::model::account_views(kept_accounts@) =~= drop_accounts_of(
                    self@.accounts.subrange(0, i as int),
                    user_id,
                ));
            }
        }

        let mut kept_txns: Vec<crate::records::BankTransaction> = Vec::new();
        let n_txns = self.transactions.len();
        let mut i: usize = 0;
        while i < n_txns
            invariant
                n_txns == self.transactions.len(),
                i <= n_txns,
                crate::model::transaction_views(kept_txns@) == drop_txns_of(
                    self@.transactions.subrange(0, i as int),
                    user_id,
                ),
            decreases n_txns - i,
        {
            if self.transactions[i].user_id != user_id {
                kept_txns.push(self.transactions[i].duplicate());
            }
            i += 1;
            proof {
                assert(self@.transactions.subrange(0, i as int).drop_last() =~= self@.transactions
                    .subrange(0, i - 1));
                assert(crate::model::transaction_views(kept_txns@) =~= drop_txns_of(
                    self@.transactions.subrange(0, i as int),
                    user_id,
                ));
            }
        }

        let mut kept_user_tasks: Vec<crate::records::UserTask> = Vec::new();
        let n_ut = self.user_tasks.len();
        let mut i: usize = 0;
        while i < n_ut
            invariant
                n_ut == self.user_tasks.len(),
                i <= n_ut,
                crate::model::user_task_views(kept_user_tasks@) == drop_user_tasks_of(
                    self@.user_tasks.subrange(0, i as int),
                    user_id,
                ),
            decreases n_ut - i,
        {
            if self.user_tasks[i].user_id != user_id {
                kept_user_tasks.push(self.user_tasks[i].duplicate());
            }
            i += 1;
            proof {
                assert(self@.user_tasks.subrange(0, i as int).drop_last() =~= self@.user_tasks
                    .subrange(0, i - 1));
                assert(crate::model::user_task_views(kept_user_tasks@) =~= drop_user_tasks_of(
                    self@.user_tasks.subrange(0, i as int),
                    user_id,
                ));
            }
        }

        let mut kept_user_emails: Vec<UserEmail> = Vec::new();
        let n_ue = self.user_emails.len();
        let mut i: usize = 0;
        while i < n_ue
            invariant
                n_ue == self.user_emails.len(),
                i <= n_ue,
                user_email_views(kept_user_emails@) == drop_user_emails_of(
                    self@.user_emails.subrange(0, i as int),
                    user_id,
                ),
            decreases n_ue - i,
        {
            if self.user_emails[i].user_id != user_id {
                kept_user_emails.push(self.user_emails[i].duplicate());
            }
            i += 1;
            proof {
                assert(self@.user_emails.subrange(0, i as int).drop_last() =~= self@.user_emails
                    .subrange(0, i - 1));
                assert(user_email_views(kept_user_emails@) =~= drop_user_emails_of(
                    self@.user_emails.subrange(0, i as int),
                    user_id,
                ));
            }
        }

        let mut kept_grants: Vec<ServiceGrant> = Vec::new();
        let n_gr = self.user_services.len();
        let mut i: usize = 0;
        while i < n_gr
            invariant
                n_gr == self.user_services.len(),
                i <= n_gr,
                kept_grants@ == drop_grants_of(self@.user_services.subrange(0, i as int), user_id),
            decreases n_gr - i,
        {
            if self.user_services[i].user_id != user_id {
                let g = ServiceGrant {
                    user_id: self.user_services[i].user_id,
                    service_id: self.user_services[i].service_id,
                };
                kept_grants.push(g);
            }
            i += 1;
            proof {
                assert(self@.user_services.subrange(0, i as int).drop_last() =~= self@.user_services
                    .subrange(0, i - 1));
                assert(kept_grants@ =~= drop_grants_of(
                    self@.user_services.subrange(0, i as int),
                    user_id,
                ));
            }
        }

        let mut kept_files: Vec<EncryptedFile> = Vec::new();
        let n_f = self.encrypted_files.len();
        let mut i: usize = 0;
        while i < n_f
            invariant
                n_f == self.encrypted_files.len(),
                i <= n_f,
                crate::model::file_views(kept_files@) == drop_files_of(
                    self@.encrypted_files.subrange(0, i as int),
                    user_id,
                ),
            decreases n_f - i,
        {
            if self.encrypted_files[i].user_id != user_id {
                let f = EncryptedFile {
                    user_id: self.encrypted_files[i].user_id,
                    file_path: self.encrypted_files[i].file_path.clone(),
                };
                kept_files.push(f);
            }
            i += 1;
            proof {
                assert(self@.encrypted_files.subrange(0, i as int).drop_last() =~= self@
                    .encrypted_files.subrange(0, i - 1));
                assert(crate::model::file_views(kept_files@) =~= drop_files_of(
                    self@.encrypted_files.subrange(0, i as int),
                    user_id,
                ));
            }
        }

        proof {
            assert(self@.users.subrange(0, n_users as int) =~= self@.users);
            assert(self@.accounts.subrange(0, n_accounts as int) =~= self@.accounts);
            assert(self@.transactions.subrange(0, n_txns as int) =~= self@.transactions);
            assert(self@.user_tasks.subrange(0, n_ut as int) =~= self@.user_tasks);
            assert(self@.user_emails.subrange(0, n_ue as int) =~= self@.user_emails);
            assert(self@.user_services.subrange(0, n_gr as int) =~= self@.user_services);
            assert(self@.encrypted_files.subrange(0, n_f as int) =~= self@.encrypted_files);
        }
        self.users = kept_users;
        self.accounts = kept_accounts;
        self.transactions = kept_txns;
        self.user_tasks = kept_user_tasks;
        self.user_emails = kept_user_emails;
        self.user_services = kept_grants;
        self.encrypted_files = kept_files;
        proof {
            assert(self@ =~~= delete_account_spec(pre, user_id).0);
            lemma_delete_wf(pre, user_id);
            lemma_drop_users_with_id(pre.users, user_id);
            lemma_drop_accounts_of(pre.accounts, user_id);
        }
        Ok(())
    }

    /// Applies a partial profile update built from exactly the supplied
    /// fields.  An empty request fails with `NoFieldsSpecified`; a request
    /// against an unknown user matches no row and is reported as success, as
    /// a single-statement update is.
    pub fn update_user_info(&mut self, user_id: u64, request: UpdateUserRequest) -> (r: Result<
        (),
        Error,
    >)
        requires
            old(self).wf(),
        ensures
            final(self).wf(),
            request.device_name is None && request.ip is None && request.mac is None ==> r
                == Err::<(), Error>(Error::NoFieldsSpecified) && final(self)@ == old(self)@,
            !(request.device_name is None && request.ip is None && request.mac is None)
                && !has_user_id(old(self)@.users, user_id) ==> r == Ok::<(), Error>(()) && final(self)@ == old(self)@,
            !(request.device_name is None && request.ip is None && request.mac is None)
                && has_user_id(old(self)@.users, user_id) ==> r == Ok::<(), Error>(()) && final(self)@ == (StoreView {
                users: old(self)@.users.update(
                    user_idx(old(self)@.users, user_id),
                    updated_user(old(self)@.users[user_idx(old(self)@.users, user_id)], request),
                ),
                ..old(self)@
            }),
    {
        if request.device_name.is_none() && request.ip.is_none() && request.mac.is_none() {
            return Err(Error::NoFieldsSpecified);
        }
        let idx = match self.find_user_by_id(user_id) {
            Some(j) => j,
            None => { return Ok(()) },
        };
        let ghost pre = self@;
        let mut row = self.users[idx].duplicate();
        match request.device_name {
            Some(v) => { row.device_name = v },
            None => {},
        }
        match request.ip {
            Some(v) => { row.ip = v },
            None => {},
        }
        match request.mac {
            Some(v) => { row.mac = v },
            None => {},
        }
        self.users.set(idx, row);
        proof {
            let i = idx as int;
            assert(self@ =~~= (StoreView {
                users: pre.users.update(i, updated_user(pre.users[i], request)),
                ..pre
            }));
            let post = self@;
            assert forall|a: int| 0 <= a < post.accounts.len() implies has_user_id(
                post.users,
                (#[trigger] post.accounts[a]).user_id,
            ) by {
                let uw = user_idx(pre.users, pre.accounts[a].user_id);
                assert(post.users[uw].id == post.accounts[a].user_id);
            }
            assert forall|a: int| 0 <= a < post.user_tasks.len() implies has_user_id(
                post.users,
                (#[trigger] post.user_tasks[a]).user_id,
            ) by {
                let uw = user_idx(pre.users, pre.user_tasks[a].user_id);
                assert(post.users[uw].id == post.user_tasks[a].user_id);
            }
            assert forall|a: int| 0 <= a < post.user_emails.len() implies has_user_id(
                post.users,
                (#[trigger] post.user_emails[a]).user_id,
            ) by {
                let uw = user_idx(pre.users, pre.user_emails[a].user_id);
                assert(post.users[uw].id == post.user_emails[a].user_id);
            }
            assert forall|a: int| 0 <= a < post.user_services.len() implies has_user_id(
                post.users,
                (#[trigger] post.user_services[a]).user_id,
            ) by {
                let uw = user_idx(pre.users, pre.user_services[a].user_id);
                assert(post.users[uw].id == post.user_services[a].user_id);
            }
            assert forall|a: int| 0 <= a < post.encrypted_files.len() implies has_user_id(
                post.users,
                (#[trigger] post.encrypted_files[a]).user_id,
            ) by {
                let uw = user_idx(pre.users, pre.encrypted_files[a].user_id);
                assert(post.users[uw].id == post.encrypted_files[a].user_id);
            }
        }
        Ok(())
    }

    /// The user with this unique name, joined with their bank account, as an
    /// equal copy; `None` if no such user exists.
    pub fn get_user_details(&self, name: &String) -> (r: Option<UserDetails>)
        requires
            self.wf(),
        ensures
            match r {
                Some(d) => has_user_name(self@.users, name@) && {
                    let u = self@.users[user_name_idx(self@.users, name@)];
                    d@ == (UserDetailsView {
                        id: u.id,
                        device_name: u.device_name,
                        name: u.name,
                        ip: u.ip,
                        mac: u.mac,
                        bank_account: if has_account_for(self@.accounts, u.id) {
                            Some(self@.accounts[account_idx(self@.accounts, u.id)])
                        } else {
                            None
                        },
                    })
                },
                None => !has_user_name(self@.users, name@),
            },
    {
        let idx = match self.find_user_by_name(name) {
            Some(j) => j,
            None => { return None },
        };
        let u = &self.users[idx];
        let bank_account = self.get_bank_details(u.id);
        Some(
            UserDetails {
                id: u.id,
                device_name: u.device_name.clone(),
                name: u.name.clone(),
                ip: u.ip.clone(),
                mac: u.mac.clone(),
                bank_account,
            },
        )
    }
}

} // verus!
