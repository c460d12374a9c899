//! Credential checks and password maintenance over the store.
//!
//! Hashing and password-strength policy are the caller's collaborators: the
//! store only compares and records opaque hash strings, so every operation
//! here takes credentials already hashed.

use vstd::prelude::*;

use crate::errors::Error;
use crate::model::{has_user_name, user_name_idx, StoreView, UserView};
use crate::records::User;
use crate::store::Store;
use crate::task::complete_task_spec;

verus! {

/// Whether this name-and-hash pair matches a stored user.
pub open spec fn credentials_match(
    users: Seq<UserView>,
    name: Seq<char>,
    password_hash: Seq<char>,
) -> bool {
    has_user_name(users, name) && users[user_name_idx(users, name)].password_hash == password_hash
}

impl Store {
    /// Whether this name-and-hash pair matches a stored user.
    pub fn verify_user(&self, name: &String, password_hash: &String) -> (r: bool)
        requires
            self.wf(),
        ensures
            r == credentials_match(self@.users, name@, password_hash@),
    {
        match self.find_user_by_name(name) {
            Some(j) => self.users[j].password_hash == *password_hash,
            None => false,
        }
    }

    /// The user row matching this name-and-hash pair, as an equal copy;
    /// any mismatch is refused without saying which part was wrong.
    pub fn login(&self, name: &String, password_hash: &String) -> (r: Result<User, Error>)
        requires
            self.wf(),
        ensures
            credentials_match(self@.users, name@, password_hash@) ==> (r matches Ok(u) && u@
                == self@.users[user_name_idx(self@.users, name@)]),
            !credentials_match(self@.users, name@, password_hash@) ==> r == Err::<User, Error>(
                Error::InvalidCredentials,
            ),
    {
        match self.find_user_by_name(name) {
            Some(j) => {
                if self.users[j].password_hash == *password_hash {
                    Ok(self.users[j].duplicate())
                } else {
                    Err(Error::InvalidCredentials)
                }
            },
            None => Err(Error::InvalidCredentials),
        }
    }

    /// Replaces the user's credential after checking the current one.  The
    /// caller has already hashed both and applied its strength policy to
    /// the new secret; the store still refuses an empty hash, which would
    /// break its invariant.
    pub fn change_password(
        &mut self,
        name: &String,
        old_password_hash: &String,
        new_password_hash: &String,
    ) -> (r: Result<String, Error>)
        requires
            old(self).wf(),
        ensures
            final(self).wf(),
            r is Err ==> final(self)@ == old(self)@,
            !credentials_match(old(self)@.users, name@, old_password_hash@) ==> r == Err::<
                String,
                Error,
            >(Error::InvalidCredentials),
            credentials_match(old(self)@.users, name@, old_password_hash@) && new_password_hash@
                .len() == 0 ==> r == Err::<String, Error>(Error::EmptyPassword),
            credentials_match(old(self)@.users, name@, old_password_hash@) && new_password_hash@
                .len() > 0 ==> (r matches Ok(msg) && msg@ == "Password changed successfully"@)
                && final(self)@ == (StoreView {
                users: old(self)@.users.update(
                    user_name_idx(old(self)@.users, name@),
                    (UserView {
                        password_hash: new_password_hash@,
                        ..old(self)@.users[user_name_idx(old(self)@.users, name@)]
                    }),
                ),
                ..old(self)@
            }),
    {
        let idx = match self.find_user_by_name(name) {
            Some(j) => j,
            None => { return Err(Error::InvalidCredentials) },
        };
        if !(self.users[idx].password_hash == *old_password_hash) {
            return Err(Error::InvalidCredentials);
        }
        if new_password_hash.as_str().is_empty() {
            return Err(Error::EmptyPassword);
        }
        let ghost pre = self@;
        let mut row = self.users[idx].duplicate();
        row.password_hash = new_password_hash.clone();
        self.users.set(idx, row);
        proof {
            let i = idx as int;
            assert(self@ =~~= (StoreView {
                users: pre.users.update(i, (UserView { password_hash: new_password_hash@, ..pre.users[i] })),
                ..pre
            }));
            self.lemma_user_update_keeps_foreign_keys(pre, i);
        }
        Ok(String::from_str("Password changed successfully"))
    }

    /// Installs a caller-generated replacement credential for the user,
    /// then marks the password-reset training task (task 2) as completed,
    /// awarding its points; the new credential stays in place even if that
    /// completion is refused, exactly as the contract's intermediate store
    /// shows.
    pub fn reset_password(&mut self, name: &String, new_password_hash: String, now: i64) -> (r:
        Result<String, Error>)
        requires
            old(self).wf(),
        ensures
            final(self).wf(),
            !has_user_name(old(self)@.users, name@) ==> r == Err::<String, Error>(Error::NotFound)
                && final(self)@ == old(self)@,
            has_user_name(old(self)@.users, name@) && new_password_hash@.len() == 0 ==> r == Err::<
                String,
                Error,
            >(Error::EmptyPassword) && final(self)@ == old(self)@,
            has_user_name(old(self)@.users, name@) && new_password_hash@.len() > 0 ==> {
                let i = user_name_idx(old(self)@.users, name@);
                let uid = old(self)@.users[i].id;
                let mid = StoreView {
                    users: old(self)@.users.update(
                        i,
                        (UserView { password_hash: new_password_hash@, ..old(self)@.users[i] }),
                    ),
                    ..old(self)@
                };
                &&& final(self)@ == complete_task_spec(mid, 2, uid, now).0
                &&& (complete_task_spec(mid, 2, uid, now).1 matches Some(e) ==> r == Err::<
                    String,
                    Error,
                >(e))
                &&& (complete_task_spec(mid, 2, uid, now).1 is None ==> (r matches Ok(msg) && msg@
                    == "Password reset successfully"@))
            },
    {
        let idx = match self.find_user_by_name(name) {
            Some(j) => j,
            None => { return Err(Error::NotFound) },
        };
        if new_password_hash.as_str().is_empty() {
            return Err(Error::EmptyPassword);
        }
        let ghost pre = self@;
        let user_id = self.users[idx].id;
        let mut row = self.users[idx].duplicate();
        row.password_hash = new_password_hash;
        let ghost rv = row@;
        self.users.set(idx, row);
        proof {
            let i = idx as int;
            assert(self@ =~~= (StoreView { users: pre.users.update(i, rv), ..pre }));
            self.lemma_user_update_keeps_foreign_keys(pre, i);
        }
        match self.complete_task(2, user_id, now) {
            Ok(_) => Ok(String::from_str("Password reset successfully")),
            Err(e) => Err(e),
        }
    }

    /// Replacing one user row by another with the same id keeps every
    /// foreign key of the store satisfied.
    proof fn lemma_user_update_keeps_foreign_keys(&self, pre: StoreView, i: int)
        requires
            0 <= i < pre.users.len(),
            self@.users.len() == pre.users.len(),
            self@.users == pre.users.update(i, self@.users[i]),
            self@.users[i].id == pre.users[i].id,
            self@.accounts == pre.accounts,
            self@.user_tasks == pre.user_tasks,
            self@.user_emails == pre.user_emails,
            self@.user_services == pre.user_services,
            self@.encrypted_files == pre.encrypted_files,
            pre.wf(),
        ensures
            forall|a: int|
                0 <= a < self@.accounts.len() ==> crate::model::has_user_id(
                    self@.users,
                    (#[trigger] self@.accounts[a]).user_id,
                ),
            forall|a: int|
                0 <= a < self@.user_tasks.len() ==> crate::model::has_user_id(
                    self@.users,
                    (#[trigger] self@.user_tasks[a]).user_id,
                ),
            forall|a: int|
                0 <= a < self@.user_emails.len() ==> crate::model::has_user_id(
                    self@.users,
                    (#[trigger] self@.user_emails[a]).user_id,
                ),
            forall|a: int|
                0 <= a < self@.user_services.len() ==> crate::model::has_user_id(
                    self@.users,
                    (#[trigger] self@.user_services[a]).user_id,
                ),
            forall|a: int|
                0 <= a < self@.encrypted_files.len() ==> crate::model::has_user_id(
                    self@.users,
                    (#[trigger] self@.encrypted_files[a]).user_id,
                ),
    {
        let post = self@;
        assert forall|a: int| 0 <= a < post.accounts.len() implies crate::model::has_user_id(
            post.users,
            (#[trigger] post.accounts[a]).user_id,
        ) by {
            let uw = crate::model::user_idx(pre.users, pre.accounts[a].user_id);
            assert(post.users[uw].id == post.accounts[a].user_id);
        }
        assert forall|a: int| 0 <= a < post.user_tasks.len() implies crate::model::has_user_id(
            post.users,
            (#[trigger] post.user_tasks[a]).user_id,
        ) by {
            let uw = crate::model::user_idx(pre.users, pre.user_tasks[a].user_id);
            assert(post.users[uw].id == post.user_tasks[a].user_id);
        }
        assert forall|a: int| 0 <= a < post.user_emails.len() implies crate::model::has_user_id(
            post.users,
            (#[trigger] post.user_emails[a]).user_id,
        ) by {
            let uw = crate::model::user_idx(pre.users, pre.user_emails[a].user_id);
            assert(post.users[uw].id == post.user_emails[a].user_id);
        }
        assert forall|a: int| 0 <= a < post.user_services.len() implies crate::model::has_user_id(
            post.users,
            (#[trigger] post.user_services[a]).user_id,
        ) by {
            let uw = crate::model::user_idx(pre.users, pre.user_services[a].user_id);
            assert(post.users[uw].id == post.user_services[a].user_id);
        }
        assert forall|a: int| 0 <= a < post.encrypted_files.len() implies crate::model::has_user_id(
            post.users,
            (#[trigger] post.encrypted_files[a]).user_id,
        ) by {
            let uw = crate::model::user_idx(pre.users, pre.encrypted_files[a].user_id);
            assert(post.users[uw].id == post.encrypted_files[a].user_id);
        }
    }
}

} // verus!
