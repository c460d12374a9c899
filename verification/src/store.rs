//! The executable store and its row-lookup helpers.
//!
//! [`Store`] holds one vector per table and a fresh-identifier counter.  Its
//! view is the mathematical [`StoreView`]; every public operation requires
//! and preserves [`StoreView::wf`].  The store plays the role of the single
//! authoritative database instance: operations take `&mut self`, so each one
//! runs with exclusive access, which is the model-level counterpart of the
//! exclusive row lock every balance-mutating path must hold.

use vstd::prelude::*;

use crate::errors::Error;
use crate::model::{
    account_idx, account_views, empty_store, file_views, has_account_for, has_encrypted_file,
    has_grant, has_task, has_template, has_user_email, has_user_id, has_user_name, has_user_task,
    task_idx, task_views, template_views, transaction_views, user_email_idx, user_email_views, user_idx,
    user_name_idx, user_task_idx, user_task_views, user_views, StoreView,
};
use crate::records::{
    BankAccount, BankTransaction, EncryptedFile, ServiceGrant, UniversalEmail, UniversalTask,
    User, UserEmail, UserTask,
};

verus! {

/// The authoritative relational state: one vector per table.
pub struct Store {
    pub users: Vec<User>,
    pub accounts: Vec<BankAccount>,
    pub transactions: Vec<BankTransaction>,
    pub tasks: Vec<UniversalTask>,
    pub user_tasks: Vec<UserTask>,
    pub universal_emails: Vec<UniversalEmail>,
    pub user_emails: Vec<UserEmail>,
    pub user_services: Vec<ServiceGrant>,
    pub encrypted_files: Vec<EncryptedFile>,
    pub next_id: u64,
}

impl View for Store {
    type V = StoreView;

    open spec fn view(&self) -> StoreView {
        StoreView {
            users: user_views(self.users@),
            accounts: account_views(self.accounts@),
            transactions: transaction_views(self.transactions@),
            tasks: task_views(self.tasks@),
            user_tasks: user_task_views(self.user_tasks@),
            universal_emails: template_views(self.universal_emails@),
            user_emails: user_email_views(self.user_emails@),
            user_services: self.user_services@,
            encrypted_files: file_views(self.encrypted_files@),
            next_id: self.next_id,
        }
    }
}

impl Store {
    /// The store invariant, stated over the view.
    pub open spec fn wf(&self) -> bool {
        self@.wf()
    }

    /// A store with no rows, as a deployment starts with.
    pub fn new() -> (s: Store)
        ensures
            s@ == empty_store(),
            s.wf(),
    {
        let s = Store {
            users: Vec::new(),
            accounts: Vec::new(),
            transactions: Vec::new(),
            tasks: Vec::new(),
            user_tasks: Vec::new(),
            universal_emails: Vec::new(),
            user_emails: Vec::new(),
            user_services: Vec::new(),
            encrypted_files: Vec::new(),
            next_id: 0,
        };
        proof {
            assert(s@ =~~= empty_store());
        }
        s
    }

    /// Installs a shared task definition, as the deployment's seed data
    /// does.  Rejects a negative reward and a duplicate id; on rejection the
    /// store is unchanged.
    pub fn add_universal_task(&mut self, task: UniversalTask) -> (r: Result<(), Error>)
        requires
            old(self).wf(),
        ensures
            final(self).wf(),
            task@.points < 0 ==> r == Err::<(), Error>(Error::InvalidAmount) && final(self)@
                == old(self)@,
            task@.points >= 0 && has_task(old(self)@.tasks, task@.id) ==> r == Err::<(), Error>(
                Error::DatabaseFailure,
            ) && final(self)@ == old(self)@,
            task@.points >= 0 && !has_task(old(self)@.tasks, task@.id) ==> r == Ok::<(), Error>(())
                && final(self)@ == (StoreView { tasks: old(self)@.tasks.push(task@), ..old(self)@ }),
    {
        if task.points < 0 {
            return Err(Error::InvalidAmount);
        }
        if self.find_task_by_id(task.id).is_some() {
            return Err(Error::DatabaseFailure);
        }
        let ghost pre = self@;
        let ghost tv = task@;
        self.tasks.push(task);
        proof {
            assert(self@ =~~= (StoreView { tasks: pre.tasks.push(tv), ..pre }));
            assert forall|i: int| 0 <= i < self@.user_tasks.len() implies has_task(
                self@.tasks,
                (#[trigger] self@.user_tasks[i]).universal_task_id,
            ) by {
                let t = pre.user_tasks[i].universal_task_id;
                let w = task_idx(pre.tasks, t);
                assert(self@.tasks[w].id == t);
            }
        }
        Ok(())
    }

    /// Installs a shared template email, as the deployment's seed data does.
    /// Rejects a duplicate id; on rejection the store is unchanged.
    pub fn add_universal_email(&mut self, email: UniversalEmail) -> (r: Result<(), Error>)
        requires
            old(self).wf(),
        ensures
            final(self).wf(),
            has_template(old(self)@.universal_emails, email@.id) ==> r == Err::<(), Error>(
                Error::DatabaseFailure,
            ) && final(self)@ == old(self)@,
            !has_template(old(self)@.universal_emails, email@.id) ==> r == Ok::<(), Error>(())
                && final(self)@ == (StoreView {
                universal_emails: old(self)@.universal_emails.push(email@),
                ..old(self)@
            }),
    {
        if self.find_template_by_id(email.id).is_some() {
            return Err(Error::DatabaseFailure);
        }
        let ghost pre = self@;
        let ghost ev = email@;
        self.universal_emails.push(email);
        proof {
            assert(self@ =~~= (StoreView { universal_emails: pre.universal_emails.push(ev), ..pre }));
            assert forall|i: int| 0 <= i < self@.user_emails.len() implies has_template(
                self@.universal_emails,
                (#[trigger] self@.user_emails[i]).universal_email_id,
            ) by {
                let t = pre.user_emails[i].universal_email_id;
                let w = choose|k: int|
                    0 <= k < pre.universal_emails.len() && (#[trigger] pre.universal_emails[k]).id
                        == t;
                assert(self@.universal_emails[w].id == t);
            }
        }
        Ok(())
    }

    /// Index of the user row with this id, if any.
    pub fn find_user_by_id(&self, id: u64) -> (r: Option<usize>)
        requires
            self.wf(),
        ensures
            match r {
                Some(j) => j < self.users.len() && self@.users[j as int].id == id && has_user_id(
                    self@.users,
                    id,
                ) && j as int == user_idx(self@.users, id),
                None => !has_user_id(self@.users, id),
            },
    {
        let n = self.users.len();
        let mut i: usize = 0;
        while i < n
            invariant
                self.wf(),
                n == self.users.len(),
                i <= n,
                forall|k: int| 0 <= k < i ==> (#[trigger] self@.users[k]).id != id,
            decreases n - i,
        {
            if self.users[i].id == id {
                proof {
                    assert(self@.users[i as int].id == id);
                    let c = user_idx(self@.users, id);
                    assert(self@.users[c].id == id);
                    assert(c == i as int);
                }
                return Some(i);
            }
            i += 1;
        }
        None
    }

    /// Index of the user row with this unique name, if any.
    pub fn find_user_by_name(&self, name: &String) -> (r: Option<usize>)
        requires
            self.wf(),
        ensures
            match r {
                Some(j) => j < self.users.len() && self@.users[j as int].name == name@
                    && has_user_name(self@.users, name@) && j as int == user_name_idx(
                    self@.users,
                    name@,
                ),
                None => !has_user_name(self@.users, name@),
            },
    {
        let n = self.users.len();
        let mut i: usize = 0;
        while i < n
            invariant
                self.wf(),
                n == self.users.len(),
                i <= n,
                forall|k: int| 0 <= k < i ==> (#[trigger] self@.users[k]).name != name@,
            decreases n - i,
        {
            if self.users[i].name == *name {
                proof {
                    assert(self@.users[i as int].name == name@);
                    let c = user_name_idx(self@.users, name@);
                    assert(self@.users[c].name == name@);
                    assert(c == i as int);
                }
                return Some(i);
            }
            i += 1;
        }
        None
    }

    /// Index of this user's bank-account row, if any.
    pub fn find_account_by_user(&self, user_id: u64) -> (r: Option<usize>)
        requires
            self.wf(),
        ensures
            match r {
                Some(j) => j < self.accounts.len() && self@.accounts[j as int].user_id == user_id
                    && has_account_for(self@.accounts, user_id) && j as int == account_idx(
                    self@.accounts,
                    user_id,
                ),
                None => !has_account_for(self@.accounts, user_id),
            },
    {
        let n = self.accounts.len();
        let mut i: usize = 0;
        while i < n
            invariant
                self.wf(),
                n == self.accounts.len(),
                i <= n,
                forall|k: int| 0 <= k < i ==> (#[trigger] self@.accounts[k]).user_id != user_id,
            decreases n - i,
        {
            if self.accounts[i].user_id == user_id {
                proof {
                    assert(self@.accounts[i as int].user_id == user_id);
                    let c = account_idx(self@.accounts, user_id);
                    assert(self@.accounts[c].user_id == user_id);
                    assert(c == i as int);
                }
                return Some(i);
            }
            i += 1;
        }
        None
    }

    /// Index of the task definition with this id, if any.
    pub fn find_task_by_id(&self, id: u64) -> (r: Option<usize>)
        requires
            self.wf(),
        ensures
            match r {
                Some(j) => j < self.tasks.len() && self@.tasks[j as int].id == id && has_task(
                    self@.tasks,
                    id,
                ) && j as int == task_idx(self@.tasks, id),
                None => !has_task(self@.tasks, id),
            },
    {
        let n = self.tasks.len();
        let mut i: usize = 0;
        while i < n
            invariant
                self.wf(),
                n == self.tasks.len(),
                i <= n,
                forall|k: int| 0 <= k < i ==> (#[trigger] self@.tasks[k]).id != id,
            decreases n - i,
        {
            if self.tasks[i].id == id {
                proof {
                    assert(self@.tasks[i as int].id == id);
                    let c = task_idx(self@.tasks, id);
                    assert(self@.tasks[c].id == id);
                    assert(c == i as int);
                }
                return Some(i);
            }
            i += 1;
        }
        None
    }

    /// Index of the template email with this id, if any.
    pub fn find_template_by_id(&self, id: u64) -> (r: Option<usize>)
        requires
            self.wf(),
        ensures
            match r {
                Some(j) => j < self.universal_emails.len() && self@.universal_emails[j as int].id
                    == id && has_template(self@.universal_emails, id),
                None => !has_template(self@.universal_emails, id),
            },
    {
        let n = self.universal_emails.len();
        let mut i: usize = 0;
        while i < n
            invariant
                self.wf(),
                n == self.universal_emails.len(),
                i <= n,
                forall|k: int| 0 <= k < i ==> (#[trigger] self@.universal_emails[k]).id != id,
            decreases n - i,
        {
            if self.universal_emails[i].id == id {
                proof {
                    assert(self@.universal_emails[i as int].id == id);
                }
                return Some(i);
            }
            i += 1;
        }
        None
    }

    /// Index of the (user, task) state row, if any.
    pub fn find_user_task(&self, user_id: u64, task_id: u64) -> (r: Option<usize>)
        requires
            self.wf(),
        ensures
            match r {
                Some(j) => j < self.user_tasks.len() && self@.user_tasks[j as int].user_id
                    == user_id && self@.user_tasks[j as int].universal_task_id == task_id
                    && has_user_task(self@.user_tasks, user_id, task_id) && j as int
                    == user_task_idx(self@.user_tasks, user_id, task_id),
                None => !has_user_task(self@.user_tasks, user_id, task_id),
            },
    {
        let n = self.user_tasks.len();
        let mut i: usize = 0;
        while i < n
            invariant
                self.wf(),
                n == self.user_tasks.len(),
                i <= n,
                forall|k: int|
                    0 <= k < i ==> !((#[trigger] self@.user_tasks[k]).user_id == user_id
                        && self@.user_tasks[k].universal_task_id == task_id),
            decreases n - i,
        {
            if self.user_tasks[i].user_id == user_id && self.user_tasks[i].universal_task_id
                == task_id {
                proof {
                    assert(self@.user_tasks[i as int].user_id == user_id);
                    let c = user_task_idx(self@.user_tasks, user_id, task_id);
                    assert(self@.user_tasks[c].user_id == user_id
                        && self@.user_tasks[c].universal_task_id == task_id);
                    assert(c == i as int);
                }
                return Some(i);
            }
            i += 1;
        }
        None
    }

    /// Index of the (user, template) inbox row, if any.
    pub fn find_user_email(&self, user_id: u64, email_id: u64) -> (r: Option<usize>)
        requires
            self.wf(),
        ensures
            match r {
                Some(j) => j < self.user_emails.len() && self@.user_emails[j as int].user_id
                    == user_id && self@.user_emails[j as int].universal_email_id == email_id
                    && has_user_email(self@.user_emails, user_id, email_id) && j as int
                    == user_email_idx(self@.user_emails, user_id, email_id),
                None => !has_user_email(self@.user_emails, user_id, email_id),
            },
    {
        let n = self.user_emails.len();
        let mut i: usize = 0;
        while i < n
            invariant
                self.wf(),
                n == self.user_emails.len(),
                i <= n,
                forall|k: int|
                    0 <= k < i ==> !((#[trigger] self@.user_emails[k]).user_id == user_id
                        && self@.user_emails[k].universal_email_id == email_id),
            decreases n - i,
        {
            if self.user_emails[i].user_id == user_id && self.user_emails[i].universal_email_id
                == email_id {
                proof {
                    assert(self@.user_emails[i as int].user_id == user_id);
                    let c = user_email_idx(self@.user_emails, user_id, email_id);
                    assert(self@.user_emails[c].user_id == user_id
                        && self@.user_emails[c].universal_email_id == email_id);
                    assert(c == i as int);
                }
                return Some(i);
            }
            i += 1;
        }
        None
    }

    /// Whether the user already owns this service.
    pub fn has_service_grant(&self, user_id: u64, service_id: u64) -> (r: bool)
        requires
            self.wf(),
        ensures
            r == has_grant(self@.user_services, user_id, service_id),
    {
        let n = self.user_services.len();
        let mut i: usize = 0;
        while i < n
            invariant
                n == self.user_services.len(),
                i <= n,
                forall|k: int|
                    0 <= k < i ==> !((#[trigger] self@.user_services[k]).user_id == user_id
                        && self@.user_services[k].service_id == service_id),
            decreases n - i,
        {
            if self.user_services[i].user_id == user_id && self.user_services[i].service_id
                == service_id {
                proof {
                    assert(self@.user_services[i as int].user_id == user_id);
                }
                return true;
            }
            i += 1;
        }
        false
    }

    /// Index of the user's encryption record for this path, if any.
    pub fn find_encrypted_file(&self, user_id: u64, file_path: &String) -> (r: Option<usize>)
        requires
            self.wf(),
        ensures
            match r {
                Some(j) => j < self.encrypted_files.len() && self@.encrypted_files[j as int].user_id
                    == user_id && self@.encrypted_files[j as int].file_path == file_path@
                    && has_encrypted_file(self@.encrypted_files, user_id, file_path@) && j as int
                    == crate::model::encrypted_file_idx(self@.encrypted_files, user_id, file_path@),
                None => !has_encrypted_file(self@.encrypted_files, user_id, file_path@),
            },
    {
        let n = self.encrypted_files.len();
        let mut i: usize = 0;
        while i < n
            invariant
                self.wf(),
                n == self.encrypted_files.len(),
                i <= n,
                forall|k: int|
                    0 <= k < i ==> !((#[trigger] self@.encrypted_files[k]).user_id == user_id
                        && self@.encrypted_files[k].file_path == file_path@),
            decreases n - i,
        {
            if self.encrypted_files[i].user_id == user_id && self.encrypted_files[i].file_path
                == *file_path {
                proof {
                    assert(self@.encrypted_files[i as int].user_id == user_id);
                    let c = crate::model::encrypted_file_idx(
                        self@.encrypted_files,
                        user_id,
                        file_path@,
                    );
                    assert(self@.encrypted_files[c].user_id == user_id
                        && self@.encrypted_files[c].file_path == file_path@);
                    assert(c == i as int);
                }
                return Some(i);
            }
            i += 1;
        }
        None
    }

    /// Whether the user has an encryption record for this path.
    pub fn has_encrypted_file_for(&self, user_id: u64, file_path: &String) -> (r: bool)
        requires
            self.wf(),
        ensures
            r == has_encrypted_file(self@.encrypted_files, user_id, file_path@),
    {
        let n = self.encrypted_files.len();
        let mut i: usize = 0;
        while i < n
            invariant
                n == self.encrypted_files.len(),
                i <= n,
                forall|k: int|
                    0 <= k < i ==> !((#[trigger] self@.encrypted_files[k]).user_id == user_id
                        && self@.encrypted_files[k].file_path == file_path@),
            decreases n - i,
        {
            if self.encrypted_files[i].user_id == user_id && self.encrypted_files[i].file_path
                == *file_path {
                proof {
                    assert(self@.encrypted_files[i as int].user_id == user_id);
                }
                return true;
            }
            i += 1;
        }
        false
    }
}

} // verus!
