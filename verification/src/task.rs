//! The task reward engine: the idempotent completion state machine and its
//! reward issuance, the reset transition, and the pure verification
//! predicates the surface consults before completing a task.
//!
//! Completion of a (user, task) pair that is not yet `Completed` marks the
//! row (creating it on first contact) and posts the task's point reward in
//! the same unit of work: if the reward cannot be posted, the row keeps its
//! old status.  A pair already `Completed` is reported as success without
//! touching anything, so the reward is issued at most once per pair.

use vstd::prelude::*;

use crate::errors::Error;
use crate::model::{
    account_idx, encrypted_file_idx, has_account_for, has_completed_user_task, has_encrypted_file,
    has_encrypted_path, has_task, has_user_email, has_user_id, has_user_name, has_user_task,
    task_idx, task_views, user_email_idx, user_idx, user_task_idx, user_task_views, AccountView,
    EncryptedFileView, StoreView, TaskView, TransactionView, UserTaskView,
};
use crate::records::{EncryptedFile, TaskStatus, UniversalTask, UserTask};
use crate::store::Store;

verus! {

/// The store and outcome of one completion attempt.
///
/// In order: an unknown task is refused; a pair already completed is a
/// successful no-op (the reward stays issued exactly once); a missing user
/// or account is refused; then the row is upserted to `Completed` and the
/// reward posted, both or neither.  Every refusal leaves the store as it
/// was.
pub open spec fn complete_task_spec(m: StoreView, task_id: u64, user_id: u64, now: i64) -> (
    StoreView,
    Option<Error>,
) {
    if !has_task(m.tasks, task_id) {
        (m, Some(Error::TaskNotFound))
    } else if has_completed_user_task(m.user_tasks, user_id, task_id) {
        (m, None)
    } else if !has_user_id(m.users, user_id) {
        (m, Some(Error::NotFound))
    } else if !has_account_for(m.accounts, user_id) {
        (m, Some(Error::NotFound))
    } else if m.next_id > u64::MAX - 2 {
        (m, Some(Error::DatabaseFailure))
    } else {
        let t = m.tasks[task_idx(m.tasks, task_id)];
        let ai = account_idx(m.accounts, user_id);
        let bal = m.accounts[ai].balance;
        if bal + t.points > i64::MAX {
            (m, Some(Error::DatabaseFailure))
        } else {
            let marked = if has_user_task(m.user_tasks, user_id, task_id) {
                let i = user_task_idx(m.user_tasks, user_id, task_id);
                m.user_tasks.update(
                    i,
                    (UserTaskView {
                        status: TaskStatus::Completed,
                        completed_at: Some(now),
                        ..m.user_tasks[i]
                    }),
                )
            } else {
                m.user_tasks.push(
                    (UserTaskView {
                        id: m.next_id,
                        user_id,
                        universal_task_id: task_id,
                        status: TaskStatus::Completed,
                        completed_at: Some(now),
                        created_at: now,
                    }),
                )
            };
            let txn_id = if has_user_task(m.user_tasks, user_id, task_id) {
                m.next_id
            } else {
                (m.next_id + 1) as u64
            };
            (
                StoreView {
                    user_tasks: marked,
                    accounts: m.accounts.update(
                        ai,
                        (AccountView { balance: (bal + t.points) as i64, ..m.accounts[ai] }),
                    ),
                    transactions: m.transactions.push(
                        (TransactionView {
                            id: txn_id,
                            user_id,
                            description: "Reward: "@ + t.title,
                            amount: t.points,
                            created_at: now,
                        }),
                    ),
                    next_id: (txn_id + 1) as u64,
                    ..m
                },
                None,
            )
        }
    }
}

impl Store {
    /// Completes a task for a user and awards its points exactly once, as
    /// [`complete_task_spec`] lays down.  The reward's audit entry reads
    /// `Reward: ` followed by the task title.
    pub fn complete_task(&mut self, task_id: u64, user_id: u64, now: i64) -> (r: Result<
        String,
        Error,
    >)
        requires
            old(self).wf(),
        ensures
            final(self).wf(),
            final(self)@ == complete_task_spec(old(self)@, task_id, user_id, now).0,
            complete_task_spec(old(self)@, task_id, user_id, now).1 matches Some(e) ==> r
                == Err::<String, Error>(e) && final(self)@ == old(self)@,
            complete_task_spec(old(self)@, task_id, user_id, now).1 is None ==> (r matches Ok(msg)
                && msg@ == "Task completed and points awarded."@),
    {
        let ghost pre = self@;
        let tidx = match self.find_task_by_id(task_id) {
            Some(j) => j,
            None => { return Err(Error::TaskNotFound) },
        };
        let ut = self.find_user_task(user_id, task_id);
        if let Some(j) = ut {
            if self.user_tasks[j].status == TaskStatus::Completed {
                proof {
                    assert(pre.user_tasks[j as int].user_id == user_id);
                    assert(has_completed_user_task(pre.user_tasks, user_id, task_id));
                }
                return Ok(String::from_str("Task completed and points awarded."));
            }
        }
        proof {
            // No completed row exists: any one would be the row just
            // examined, whose status is not `Completed`.
            if has_completed_user_task(pre.user_tasks, user_id, task_id) {
                let w = choose|i: int|
                    0 <= i < pre.user_tasks.len() && (#[trigger] pre.user_tasks[i]).user_id
                        == user_id && pre.user_tasks[i].universal_task_id == task_id
                        && pre.user_tasks[i].status is Completed;
                assert(pre.user_tasks[w].user_id == user_id);
                match ut {
                    Some(j) => {
                        assert(w == j as int);
                        assert(false);
                    },
                    None => {
                        assert(has_user_task(pre.user_tasks, user_id, task_id));
                        assert(false);
                    },
                }
            }
        }
        if self.find_user_by_id(user_id).is_none() {
            return Err(Error::NotFound);
        }
        let aidx = match self.find_account_by_user(user_id) {
            Some(j) => j,
            None => { return Err(Error::NotFound) },
        };
        if self.next_id > u64::MAX - 2 {
            return Err(Error::DatabaseFailure);
        }
        let points = self.tasks[tidx].points;
        proof {
            assert(pre.tasks[tidx as int].points >= 0);
        }
        let bal = self.accounts[aidx].balance;
        if bal > i64::MAX - points {
            return Err(Error::DatabaseFailure);
        }
        let description = String::from_str("Reward: ").concat(self.tasks[tidx].title.as_str());
        match ut {
            Some(j) => {
                let mut row = self.user_tasks[j].duplicate();
                row.status = TaskStatus::Completed;
                row.completed_at = Some(now);
                self.user_tasks.set(j, row);
                proof {
                    let ji = j as int;
                    assert(ji == user_task_idx(pre.user_tasks, user_id, task_id));
                    assert(self@ =~~= (StoreView {
                        user_tasks: pre.user_tasks.update(
                            ji,
                            (UserTaskView {
                                status: TaskStatus::Completed,
                                completed_at: Some(now),
                                ..pre.user_tasks[ji]
                            }),
                        ),
                        ..pre
                    }));
                    let mid = self@;
                    assert forall|k: int| 0 <= k < mid.user_tasks.len() implies {
                        &&& (#[trigger] mid.user_tasks[k]).id < mid.next_id
                        &&& has_user_id(mid.users, mid.user_tasks[k].user_id)
                        &&& has_task(mid.tasks, mid.user_tasks[k].universal_task_id)
                        &&& (mid.user_tasks[k].status is Completed <==> mid.user_tasks[k].completed_at is Some)
                    } by {
                        assert(pre.user_tasks[k].id < pre.next_id);
                        assert(has_user_id(pre.users, pre.user_tasks[k].user_id));
                        assert(has_task(pre.tasks, pre.user_tasks[k].universal_task_id));
                    }
                }
            },
            None => {
                let row = UserTask {
                    id: self.next_id,
                    user_id,
                    universal_task_id: task_id,
                    status: TaskStatus::Completed,
                    completed_at: Some(now),
                    created_at: now,
                };
                let ghost rv = row@;
                self.user_tasks.push(row);
                self.next_id = self.next_id + 1;
                proof {
                    assert(self@ =~~= (StoreView {
                        user_tasks: pre.user_tasks.push(rv),
                        next_id: (pre.next_id + 1) as u64,
                        ..pre
                    }));
                    let mid = self@;
                    assert(has_user_id(mid.users, user_id));
                    assert(has_task(mid.tasks, task_id)) by {
                        assert(mid.tasks[tidx as int].id == task_id);
                    }
                }
            },
        }
        let res = self.post_transaction(user_id, points, description, now);
        match res {
            Ok(_) => {},
            Err(e) => { return Err(e) },
        }
        proof {
            assert(final(self)@ =~~= complete_task_spec(pre, task_id, user_id, now).0);
        }
        Ok(String::from_str("Task completed and points awarded."))
    }

    /// Resets the (user, task) row to `To Do` and clears its completion
    /// timestamp; a pair with no row is left as it is.  Points already
    /// awarded are deliberately not clawed back: the ledger and balance are
    /// untouched, as the unchanged tables in the contract show.
    pub fn reset_user_task(&mut self, user_id: u64, universal_task_id: u64) -> (r: Result<
        (),
        Error,
    >)
        requires
            old(self).wf(),
        ensures
            final(self).wf(),
            r == Ok::<(), Error>(()),
            !has_user_task(old(self)@.user_tasks, user_id, universal_task_id) ==> final(self)@
                == old(self)@,
            has_user_task(old(self)@.user_tasks, user_id, universal_task_id) ==> final(self)@
                == (StoreView {
                user_tasks: old(self)@.user_tasks.update(
                    user_task_idx(old(self)@.user_tasks, user_id, universal_task_id),
                    (UserTaskView {
                        status: TaskStatus::ToDo,
                        completed_at: None,
                        ..old(self)@.user_tasks[user_task_idx(
                            old(self)@.user_tasks,
                            user_id,
                            universal_task_id,
                        )]
                    }),
                ),
                ..old(self)@
            }),
    {
        let ghost pre = self@;
        let j = match self.find_user_task(user_id, universal_task_id) {
            Some(j) => j,
            None => { return Ok(()) },
        };
        let mut row = self.user_tasks[j].duplicate();
        row.status = TaskStatus::ToDo;
        row.completed_at = None;
        self.user_tasks.set(j, row);
        proof {
            let ji = j as int;
            assert(self@ =~~= (StoreView {
                user_tasks: pre.user_tasks.update(
                    ji,
                    (UserTaskView { status: TaskStatus::ToDo, completed_at: None, ..pre.user_tasks[ji] }),
                ),
                ..pre
            }));
            let post = self@;
            assert forall|k: int| 0 <= k < post.user_tasks.len() implies {
                &&& (#[trigger] post.user_tasks[k]).id < post.next_id
                &&& has_user_id(post.users, post.user_tasks[k].user_id)
                &&& has_task(post.tasks, post.user_tasks[k].universal_task_id)
                &&& (post.user_tasks[k].status is Completed <==> post.user_tasks[k].completed_at is Some)
            } by {
                assert(pre.user_tasks[k].id < pre.next_id);
                assert(has_user_id(pre.users, pre.user_tasks[k].user_id));
                assert(has_task(pre.tasks, pre.user_tasks[k].universal_task_id));
            }
        }
        Ok(())
    }
    /// Every task definition, in definition order, as equal copies.
    pub fn get_universal_tasks(&self) -> (r: Vec<UniversalTask>)
        requires
            self.wf(),
        ensures
            task_views(r@) == self@.tasks,
    {
        let mut out: Vec<UniversalTask> = Vec::new();
        let n = self.tasks.len();
        let mut i: usize = 0;
        while i < n
            invariant
                n == self.tasks.len(),
                i <= n,
                task_views(out@) == self@.tasks.subrange(0, i as int),
            decreases n - i,
        {
            out.push(self.tasks[i].duplicate());
            i += 1;
            proof {
                assert(self@.tasks.subrange(0, i as int) =~= self@.tasks.subrange(0, i - 1).push(
                    self@.tasks[i - 1],
                ));
                assert(task_views(out@) =~= self@.tasks.subrange(0, i as int));
            }
        }
        proof {
            assert(self@.tasks.subrange(0, n as int) =~= self@.tasks);
        }
        out
    }

    /// This user's task rows, in row order, as equal copies.
    pub fn get_user_tasks(&self, user_id: u64) -> (r: Vec<UserTask>)
        requires
            self.wf(),
        ensures
            user_task_views(r@) == tasks_of_user(self@.user_tasks, user_id),
    {
        let mut out: Vec<UserTask> = Vec::new();
        let n = self.user_tasks.len();
        let mut i: usize = 0;
        while i < n
            invariant
                n == self.user_tasks.len(),
                i <= n,
                user_task_views(out@) == tasks_of_user(
                    self@.user_tasks.subrange(0, i as int),
                    user_id,
                ),
            decreases n - i,
        {
            if self.user_tasks[i].user_id == user_id {
                out.push(self.user_tasks[i].duplicate());
            }
            i += 1;
            proof {
                assert(self@.user_tasks.subrange(0, i as int).drop_last() =~= self@.user_tasks
                    .subrange(0, i - 1));
                assert(user_task_views(out@) =~= tasks_of_user(
                    self@.user_tasks.subrange(0, i as int),
                    user_id,
                ));
            }
        }
        proof {
            assert(self@.user_tasks.subrange(0, n as int) =~= self@.user_tasks);
        }
        out
    }

    /// Whether the user has classified the two seeded training emails as
    /// required: template 1 as spam and template 3 as phishing.
    pub fn verify_email_classification(&self, user_id: u64) -> (r: bool)
        requires
            self.wf(),
        ensures
            r == (has_user_email(self@.user_emails, user_id, 1) && self@.user_emails[
                user_email_idx(self@.user_emails, user_id, 1)
            ].classification == "spam"@ && has_user_email(self@.user_emails, user_id, 3)
                && self@.user_emails[user_email_idx(self@.user_emails, user_id, 3)].classification
                == "phishing"@),
    {
        let spam_ok = match self.find_user_email(user_id, 1) {
            Some(j) => self.user_emails[j].classification == String::from_str("spam"),
            None => false,
        };
        if !spam_ok {
            return false;
        }
        match self.find_user_email(user_id, 3) {
            Some(j) => self.user_emails[j].classification == String::from_str("phishing"),
            None => false,
        }
    }

    /// Whether the user's stored credential differs from the known default
    /// hash the caller supplies; the hashing itself is the caller's
    /// collaborator.
    pub fn verify_strong_password_task(&self, user_id: u64, default_hash: &String) -> (r: Result<
        bool,
        Error,
    >)
        requires
            self.wf(),
        ensures
            !has_user_id(self@.users, user_id) ==> r == Err::<bool, Error>(Error::NotFound),
            has_user_id(self@.users, user_id) ==> r == Ok::<bool, Error>(
                self@.users[user_idx(self@.users, user_id)].password_hash != default_hash@,
            ),
    {
        match self.find_user_by_id(user_id) {
            Some(j) => Ok(!(self.users[j].password_hash == *default_hash)),
            None => Err(Error::NotFound),
        }
    }

    /// Whether any user has an encryption record for this path, as the
    /// task-verification surface asks.
    pub fn verify_file_encryption(&self, file_path: &String) -> (r: bool)
        requires
            self.wf(),
        ensures
            r == has_encrypted_path(self@.encrypted_files, file_path@),
    {
        let n = self.encrypted_files.len();
        let mut i: usize = 0;
        while i < n
            invariant
                n == self.encrypted_files.len(),
                i <= n,
                forall|k: int|
                    0 <= k < i ==> (#[trigger] self@.encrypted_files[k]).file_path != file_path@,
            decreases n - i,
        {
            if self.encrypted_files[i].file_path == *file_path {
                proof {
                    assert(self@.encrypted_files[i as int].file_path == file_path@);
                }
                return true;
            }
            i += 1;
        }
        false
    }

    /// Whether this user has an encryption record for this path.
    pub fn is_file_encrypted(&self, file_path: &String, user_id: u64) -> (r: bool)
        requires
            self.wf(),
        ensures
            r == has_encrypted_file(self@.encrypted_files, user_id, file_path@),
    {
        self.has_encrypted_file_for(user_id, file_path)
    }

    /// Records the encryption of the one guarded training file, then
    /// completes the file-encryption task (task 4) for the user, awarding
    /// its points.  The wrong path or password is refused outright; an
    /// unknown user cannot own the record and is refused as a constraint
    /// violation.  The record is written first, so a refused completion
    /// leaves it in place, exactly as the contract states.
    pub fn encrypt_file(&mut self, file_path: String, password: String, user_id: u64, now: i64) -> (
        r: Result<String, Error>)
        requires
            old(self).wf(),
        ensures
            final(self).wf(),
            !(file_path@ == "/home/user/sensitive_data.txt"@ && password@ == "TopSecret#9900"@)
                ==> r == Err::<String, Error>(Error::InvalidCredentials) && final(self)@ == old(
                self,
            )@,
            file_path@ == "/home/user/sensitive_data.txt"@ && password@ == "TopSecret#9900"@
                && !has_user_id(old(self)@.users, user_id) ==> r == Err::<String, Error>(
                Error::DatabaseFailure,
            ) && final(self)@ == old(self)@,
            file_path@ == "/home/user/sensitive_data.txt"@ && password@ == "TopSecret#9900"@
                && has_user_id(old(self)@.users, user_id) ==> {
                let mid = StoreView {
                    encrypted_files: if has_encrypted_file(
                        old(self)@.encrypted_files,
                        user_id,
                        file_path@,
                    ) {
                        old(self)@.encrypted_files
                    } else {
                        old(self)@.encrypted_files.push(
                            (EncryptedFileView { user_id, file_path: file_path@ }),
                        )
                    },
                    ..old(self)@
                };
                &&& final(self)@ == complete_task_spec(mid, 4, user_id, now).0
                &&& (complete_task_spec(mid, 4, user_id, now).1 matches Some(e) ==> r == Err::<
                    String,
                    Error,
                >(e))
                &&& (complete_task_spec(mid, 4, user_id, now).1 is None ==> (r matches Ok(msg)
                    && msg@ == "File encrypted successfully."@))
            },
    {
        if !(file_path == String::from_str("/home/user/sensitive_data.txt") && password
            == String::from_str("TopSecret#9900")) {
            return Err(Error::InvalidCredentials);
        }
        if self.find_user_by_id(user_id).is_none() {
            return Err(Error::DatabaseFailure);
        }
        let ghost pre = self@;
        if !self.has_encrypted_file_for(user_id, &file_path) {
            let row = EncryptedFile { user_id, file_path };
            let ghost rv = row@;
            self.encrypted_files.push(row);
            proof {
                assert(self@ =~~= (StoreView {
                    encrypted_files: pre.encrypted_files.push(rv),
                    ..pre
                }));
            }
        }
        match self.complete_task(4, user_id, now) {
            Ok(_) => Ok(String::from_str("File encrypted successfully.")),
            Err(e) => Err(e),
        }
    }

    /// Removes this user's encryption record for the path; a pair with no
    /// record is left as it is.
    pub fn delete_encrypted_file_entry(&mut self, file_path: &String, user_id: u64) -> (r: Result<
        (),
        Error,
    >)
        requires
            old(self).wf(),
        ensures
            final(self).wf(),
            r == Ok::<(), Error>(()),
            !has_encrypted_file(old(self)@.encrypted_files, user_id, file_path@) ==> final(self)@
                == old(self)@,
            has_encrypted_file(old(self)@.encrypted_files, user_id, file_path@) ==> final(self)@
                == (StoreView {
                encrypted_files: old(self)@.encrypted_files.remove(
                    encrypted_file_idx(old(self)@.encrypted_files, user_id, file_path@),
                ),
                ..old(self)@
            }),
    {
        let ghost pre = self@;
        let j = match self.find_encrypted_file(user_id, file_path) {
            Some(j) => j,
            None => { return Ok(()) },
        };
        self.encrypted_files.remove(j);
        proof {
            let ji = j as int;
            assert(self@ =~~= (StoreView {
                encrypted_files: pre.encrypted_files.remove(ji),
                ..pre
            }));
            let post = self@;
            assert forall|k: int| 0 <= k < post.encrypted_files.len() implies has_user_id(
                post.users,
                (#[trigger] post.encrypted_files[k]).user_id,
            ) by {
                if k < ji {
                    assert(post.encrypted_files[k] == pre.encrypted_files[k]);
                } else {
                    assert(post.encrypted_files[k] == pre.encrypted_files[k + 1]);
                }
            }
            assert forall|a: int, b: int|
                #![trigger post.encrypted_files[a], post.encrypted_files[b]]
                0 <= a < b < post.encrypted_files.len() implies !(post.encrypted_files[a].user_id
                == post.encrypted_files[b].user_id && post.encrypted_files[a].file_path
                == post.encrypted_files[b].file_path) by {
                let oa = if a < ji {
                    a
                } else {
                    a + 1
                };
                let ob = if b < ji {
                    b
                } else {
                    b + 1
                };
                assert(post.encrypted_files[a] == pre.encrypted_files[oa]);
                assert(post.encrypted_files[b] == pre.encrypted_files[ob]);
            }
        }
        Ok(())
    }
}

/// Whether pasted file content is exactly the hidden-file token the
/// training scenario looks for.
pub fn verify_hidden_file(content: &String) -> (r: bool)
    ensures
        r == (content@ == "c_y_b_e_r_s_e_c_u_r_i_t_y"@),
{
    *content == String::from_str("c_y_b_e_r_s_e_c_u_r_i_t_y")
}

/// The hash list the guarded training file decrypts to.
pub open spec fn decrypted_content() -> Seq<char> {
    "Hash Passwords:\n\n261e672695a654895fed24313e5246de\n\n81888ab915f5e5363bc4ee7220805c74\n\n9594de8de31942437651eb4162554253\n\n007587d6d21505c9f73c140a4518c580\n\n59a84b33a4aa9e6953051510396308b1\n\n27313a3e077d07b1eb97c745509313bf\n\n80a871b60516a8724d628c129d91d618\n\n5f4dcc3b5aa765d61d8327deb882cf99\n\n850e217e5a9fe749cb9aea7e050bdb88"@
}

/// Hands out the guarded training file's content when the expected path
/// and password are supplied, and refuses anything else.
pub fn decrypt_file_content(file_path: &String, password: &String) -> (r: Result<String, Error>)
    ensures
        file_path@ == "/home/user/sensitive_data.txt"@ && password@ == "TopSecret#9900"@ ==> (r
            matches Ok(c) && c@ == decrypted_content()),
        !(file_path@ == "/home/user/sensitive_data.txt"@ && password@ == "TopSecret#9900"@) ==> r
            == Err::<String, Error>(Error::InvalidCredentials),
{
    if *file_path == String::from_str("/home/user/sensitive_data.txt") && *password
        == String::from_str("TopSecret#9900") {
        Ok(
            String::from_str(
                "Hash Passwords:\n\n261e672695a654895fed24313e5246de\n\n81888ab915f5e5363bc4ee7220805c74\n\n9594de8de31942437651eb4162554253\n\n007587d6d21505c9f73c140a4518c580\n\n59a84b33a4aa9e6953051510396308b1\n\n27313a3e077d07b1eb97c745509313bf\n\n80a871b60516a8724d628c129d91d618\n\n5f4dcc3b5aa765d61d8327deb882cf99\n\n850e217e5a9fe749cb9aea7e050bdb88",
            ),
        )
    } else {
        Err(Error::InvalidCredentials)
    }
}

/// This user's task rows, in row order.
pub open spec fn tasks_of_user(rows: Seq<UserTaskView>, user_id: u64) -> Seq<UserTaskView>
    decreases rows.len(),
{
    if rows.len() == 0 {
        Seq::empty()
    } else {
        tasks_of_user(rows.drop_last(), user_id) + if rows.last().user_id == user_id {
            seq![rows.last()]
        } else {
            Seq::empty()
        }
    }
}

} // verus!
