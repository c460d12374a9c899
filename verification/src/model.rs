//! Mathematical model of the store.
//!
//! Each table row abstracts to a ghost record whose string fields are
//! character sequences, and the whole store abstracts to a [`StoreView`].
//! Contracts of the executable operations are stated over this model, and
//! [`StoreView::wf`] is the invariant every operation preserves: key
//! uniqueness, referential consistency across tables, non-negative balances,
//! and a balance that always equals the signed sum of the user's ledger
//! entries.

use vstd::prelude::*;

use crate::records::{
    AccountIdentity, BankAccount, BankTransaction, Email, EncryptedFile, ServiceGrant, TaskStatus,
    UniversalEmail, UniversalTask, User, UserDetails, UserEmail, UserTask,
};

verus! {

/// Model of a [`User`] row.
#[verifier::ext_equal]
pub ghost struct UserView {
    pub id: u64,
    pub device_name: Seq<char>,
    pub name: Seq<char>,
    pub password_hash: Seq<char>,
    pub ip: Seq<char>,
    pub mac: Seq<char>,
    pub created_at: i64,
}

impl View for User {
    type V = UserView;

    open spec fn view(&self) -> UserView {
        UserView {
            id: self.id,
            device_name: self.device_name@,
            name: self.name@,
            password_hash: self.password_hash@,
            ip: self.ip@,
            mac: self.mac@,
            created_at: self.created_at,
        }
    }
}

/// Model of a [`BankAccount`] row.
#[verifier::ext_equal]
pub ghost struct AccountView {
    pub id: u64,
    pub user_id: u64,
    pub balance: i64,
    pub account_number: Seq<char>,
    pub card_number: Seq<char>,
    pub cvc: Seq<char>,
    pub expiry_date: Seq<char>,
    pub created_at: i64,
}

impl View for BankAccount {
    type V = AccountView;

    open spec fn view(&self) -> AccountView {
        AccountView {
            id: self.id,
            user_id: self.user_id,
            balance: self.balance,
            account_number: self.account_number@,
            card_number: self.card_number@,
            cvc: self.cvc@,
            expiry_date: self.expiry_date@,
            created_at: self.created_at,
        }
    }
}

/// Model of a [`BankTransaction`] row.
#[verifier::ext_equal]
pub ghost struct TransactionView {
    pub id: u64,
    pub user_id: u64,
    pub description: Seq<char>,
    pub amount: i64,
    pub created_at: i64,
}

impl View for BankTransaction {
    type V = TransactionView;

    open spec fn view(&self) -> TransactionView {
        TransactionView {
            id: self.id,
            user_id: self.user_id,
            description: self.description@,
            amount: self.amount,
            created_at: self.created_at,
        }
    }
}

/// Model of a [`UniversalTask`] row.
#[verifier::ext_equal]
pub ghost struct TaskView {
    pub id: u64,
    pub title: Seq<char>,
    pub description: Seq<char>,
    pub learning_module: Option<Seq<char>>,
    pub points: i64,
    pub task_type: Seq<char>,
    pub task_data: Option<Seq<char>>,
    pub level: i64,
}

/// The view of an optional string.
pub open spec fn opt_str_view(s: Option<String>) -> Option<Seq<char>> {
    match s {
        Some(v) => Some(v@),
        None => None,
    }
}

impl View for UniversalTask {
    type V = TaskView;

    open spec fn view(&self) -> TaskView {
        TaskView {
            id: self.id,
            title: self.title@,
            description: self.description@,
            learning_module: opt_str_view(self.learning_module),
            points: self.points,
            task_type: self.task_type@,
            task_data: opt_str_view(self.task_data),
            level: self.level,
        }
    }
}

/// Model of a [`UserTask`] row.
#[verifier::ext_equal]
pub ghost struct UserTaskView {
    pub id: u64,
    pub user_id: u64,
    pub universal_task_id: u64,
    pub status: TaskStatus,
    pub completed_at: Option<i64>,
    pub created_at: i64,
}

impl View for UserTask {
    type V = UserTaskView;

    open spec fn view(&self) -> UserTaskView {
        UserTaskView {
            id: self.id,
            user_id: self.user_id,
            universal_task_id: self.universal_task_id,
            status: self.status,
            completed_at: self.completed_at,
            created_at: self.created_at,
        }
    }
}

/// Model of a [`UniversalEmail`] row.
#[verifier::ext_equal]
pub ghost struct EmailTemplateView {
    pub id: u64,
    pub from_user: Seq<char>,
    pub subject: Seq<char>,
    pub body: Seq<char>,
}

impl View for UniversalEmail {
    type V = EmailTemplateView;

    open spec fn view(&self) -> EmailTemplateView {
        EmailTemplateView {
            id: self.id,
            from_user: self.from_user@,
            subject: self.subject@,
            body: self.body@,
        }
    }
}

/// Model of a [`UserEmail`] row.
#[verifier::ext_equal]
pub ghost struct UserEmailView {
    pub user_id: u64,
    pub universal_email_id: u64,
    pub is_read: bool,
    pub classification: Seq<char>,
}

impl View for UserEmail {
    type V = UserEmailView;

    open spec fn view(&self) -> UserEmailView {
        UserEmailView {
            user_id: self.user_id,
            universal_email_id: self.universal_email_id,
            is_read: self.is_read,
            classification: self.classification@,
        }
    }
}

/// Model of an [`Email`] join row.
#[verifier::ext_equal]
pub ghost struct EmailView {
    pub user_id: u64,
    pub universal_email_id: u64,
    pub is_read: bool,
    pub classification: Seq<char>,
    pub from_user: Seq<char>,
    pub subject: Seq<char>,
    pub body: Seq<char>,
}

impl View for Email {
    type V = EmailView;

    open spec fn view(&self) -> EmailView {
        EmailView {
            user_id: self.user_id,
            universal_email_id: self.universal_email_id,
            is_read: self.is_read,
            classification: self.classification@,
            from_user: self.from_user@,
            subject: self.subject@,
            body: self.body@,
        }
    }
}

/// Model of an [`EncryptedFile`] row.
#[verifier::ext_equal]
pub ghost struct EncryptedFileView {
    pub user_id: u64,
    pub file_path: Seq<char>,
}

impl View for EncryptedFile {
    type V = EncryptedFileView;

    open spec fn view(&self) -> EncryptedFileView {
        EncryptedFileView { user_id: self.user_id, file_path: self.file_path@ }
    }
}

/// Model of an [`AccountIdentity`] bundle.
#[verifier::ext_equal]
pub ghost struct IdentityView {
    pub ip: Seq<char>,
    pub mac: Seq<char>,
    pub account_number: Seq<char>,
    pub card_number: Seq<char>,
    pub cvc: Seq<char>,
    pub expiry_date: Seq<char>,
}

impl View for AccountIdentity {
    type V = IdentityView;

    open spec fn view(&self) -> IdentityView {
        IdentityView {
            ip: self.ip@,
            mac: self.mac@,
            account_number: self.account_number@,
            card_number: self.card_number@,
            cvc: self.cvc@,
            expiry_date: self.expiry_date@,
        }
    }
}

/// A user row joined with their bank account, as handed to the surface.
#[verifier::ext_equal]
pub ghost struct UserDetailsView {
    pub id: u64,
    pub device_name: Seq<char>,
    pub name: Seq<char>,
    pub ip: Seq<char>,
    pub mac: Seq<char>,
    pub bank_account: Option<AccountView>,
}

impl View for UserDetails {
    type V = UserDetailsView;

    open spec fn view(&self) -> UserDetailsView {
        UserDetailsView {
            id: self.id,
            device_name: self.device_name@,
            name: self.name@,
            ip: self.ip@,
            mac: self.mac@,
            bank_account: match self.bank_account {
                Some(a) => Some(a@),
                None => None,
            },
        }
    }
}

/// The whole store as mathematics: one sequence per table, plus the
/// fresh-identifier counter.  Service grants carry no strings, so their rows
/// stand for themselves.
#[verifier::ext_equal]
pub ghost struct StoreView {
    pub users: Seq<UserView>,
    pub accounts: Seq<AccountView>,
    pub transactions: Seq<TransactionView>,
    pub tasks: Seq<TaskView>,
    pub user_tasks: Seq<UserTaskView>,
    pub universal_emails: Seq<EmailTemplateView>,
    pub user_emails: Seq<UserEmailView>,
    pub user_services: Seq<ServiceGrant>,
    pub encrypted_files: Seq<EncryptedFileView>,
    pub next_id: u64,
}

/// The store with no rows at all, as constructed at startup.
pub open spec fn empty_store() -> StoreView {
    StoreView {
        users: Seq::empty(),
        accounts: Seq::empty(),
        transactions: Seq::empty(),
        tasks: Seq::empty(),
        user_tasks: Seq::empty(),
        universal_emails: Seq::empty(),
        user_emails: Seq::empty(),
        user_services: Seq::empty(),
        encrypted_files: Seq::empty(),
        next_id: 0,
    }
}

// ---------------------------------------------------------------------------
// Row views
// ---------------------------------------------------------------------------

/// The views of a sequence of user rows.
pub open spec fn user_views(rows: Seq<User>) -> Seq<UserView> {
    rows.map_values(|r: User| r@)
}

/// The views of a sequence of account rows.
pub open spec fn account_views(rows: Seq<BankAccount>) -> Seq<AccountView> {
    rows.map_values(|r: BankAccount| r@)
}

/// The views of a sequence of ledger rows.
pub open spec fn transaction_views(rows: Seq<BankTransaction>) -> Seq<TransactionView> {
    rows.map_values(|r: BankTransaction| r@)
}

/// The views of a sequence of task definitions.
pub open spec fn task_views(rows: Seq<UniversalTask>) -> Seq<TaskView> {
    rows.map_values(|r: UniversalTask| r@)
}

/// The views of a sequence of per-user task rows.
pub open spec fn user_task_views(rows: Seq<UserTask>) -> Seq<UserTaskView> {
    rows.map_values(|r: UserTask| r@)
}

/// The views of a sequence of template emails.
pub open spec fn template_views(rows: Seq<UniversalEmail>) -> Seq<EmailTemplateView> {
    rows.map_values(|r: UniversalEmail| r@)
}

/// The views of a sequence of inbox rows.
pub open spec fn user_email_views(rows: Seq<UserEmail>) -> Seq<UserEmailView> {
    rows.map_values(|r: UserEmail| r@)
}

/// The views of a sequence of encryption records.
pub open spec fn file_views(rows: Seq<EncryptedFile>) -> Seq<EncryptedFileView> {
    rows.map_values(|r: EncryptedFile| r@)
}

// ---------------------------------------------------------------------------
// Row lookup
// ---------------------------------------------------------------------------

/// Some user row carries this id.
pub open spec fn has_user_id(users: Seq<UserView>, id: u64) -> bool {
    exists|i: int| 0 <= i < users.len() && (#[trigger] users[i]).id == id
}

/// Some user row carries this unique name.
pub open spec fn has_user_name(users: Seq<UserView>, name: Seq<char>) -> bool {
    exists|i: int| 0 <= i < users.len() && (#[trigger] users[i]).name == name
}

/// The index of the user row with this id; meaningful only under
/// [`has_user_id`].
pub open spec fn user_idx(users: Seq<UserView>, id: u64) -> int {
    choose|i: int| 0 <= i < users.len() && (#[trigger] users[i]).id == id
}

/// The index of the user row with this name; meaningful only under
/// [`has_user_name`].
pub open spec fn user_name_idx(users: Seq<UserView>, name: Seq<char>) -> int {
    choose|i: int| 0 <= i < users.len() && (#[trigger] users[i]).name == name
}

/// Some account row belongs to this user.
pub open spec fn has_account_for(accounts: Seq<AccountView>, user_id: u64) -> bool {
    exists|i: int| 0 <= i < accounts.len() && (#[trigger] accounts[i]).user_id == user_id
}

/// The index of this user's account row; meaningful only under
/// [`has_account_for`].
pub open spec fn account_idx(accounts: Seq<AccountView>, user_id: u64) -> int {
    choose|i: int| 0 <= i < accounts.len() && (#[trigger] accounts[i]).user_id == user_id
}

/// Some task definition carries this id.
pub open spec fn has_task(tasks: Seq<TaskView>, id: u64) -> bool {
    exists|i: int| 0 <= i < tasks.len() && (#[trigger] tasks[i]).id == id
}

/// The index of the task definition with this id; meaningful only under
/// [`has_task`].
pub open spec fn task_idx(tasks: Seq<TaskView>, id: u64) -> int {
    choose|i: int| 0 <= i < tasks.len() && (#[trigger] tasks[i]).id == id
}

/// Some per-user task row exists for this (user, task) pair.
pub open spec fn has_user_task(rows: Seq<UserTaskView>, user_id: u64, task_id: u64) -> bool {
    exists|i: int|
        0 <= i < rows.len() && (#[trigger] rows[i]).user_id == user_id
            && rows[i].universal_task_id == task_id
}

/// The index of the row for this (user, task) pair; meaningful only under
/// [`has_user_task`].
pub open spec fn user_task_idx(rows: Seq<UserTaskView>, user_id: u64, task_id: u64) -> int {
    choose|i: int|
        0 <= i < rows.len() && (#[trigger] rows[i]).user_id == user_id
            && rows[i].universal_task_id == task_id
}

/// The (user, task) row exists and is already completed.
pub open spec fn has_completed_user_task(
    rows: Seq<UserTaskView>,
    user_id: u64,
    task_id: u64,
) -> bool {
    exists|i: int|
        0 <= i < rows.len() && (#[trigger] rows[i]).user_id == user_id
            && rows[i].universal_task_id == task_id && rows[i].status is Completed
}

/// Some template email carries this id.
pub open spec fn has_template(templates: Seq<EmailTemplateView>, id: u64) -> bool {
    exists|i: int| 0 <= i < templates.len() && (#[trigger] templates[i]).id == id
}

/// The index of the template email with this id; meaningful only under
/// [`has_template`].
pub open spec fn template_idx(templates: Seq<EmailTemplateView>, id: u64) -> int {
    choose|i: int| 0 <= i < templates.len() && (#[trigger] templates[i]).id == id
}

/// Some inbox row exists for this (user, template) pair.
pub open spec fn has_user_email(rows: Seq<UserEmailView>, user_id: u64, email_id: u64) -> bool {
    exists|i: int|
        0 <= i < rows.len() && (#[trigger] rows[i]).user_id == user_id
            && rows[i].universal_email_id == email_id
}

/// The index of the inbox row for this (user, template) pair; meaningful
/// only under [`has_user_email`].
pub open spec fn user_email_idx(rows: Seq<UserEmailView>, user_id: u64, email_id: u64) -> int {
    choose|i: int|
        0 <= i < rows.len() && (#[trigger] rows[i]).user_id == user_id
            && rows[i].universal_email_id == email_id
}

/// The user already owns this service.
pub open spec fn has_grant(grants: Seq<ServiceGrant>, user_id: u64, service_id: u64) -> bool {
    exists|i: int|
        0 <= i < grants.len() && (#[trigger] grants[i]).user_id == user_id
            && grants[i].service_id == service_id
}

/// The user has an encryption record for this path.
pub open spec fn has_encrypted_file(
    rows: Seq<EncryptedFileView>,
    user_id: u64,
    path: Seq<char>,
) -> bool {
    exists|i: int|
        0 <= i < rows.len() && (#[trigger] rows[i]).user_id == user_id && rows[i].file_path == path
}

/// The index of the user's encryption record for this path; meaningful only
/// under [`has_encrypted_file`].
pub open spec fn encrypted_file_idx(
    rows: Seq<EncryptedFileView>,
    user_id: u64,
    path: Seq<char>,
) -> int {
    choose|i: int|
        0 <= i < rows.len() && (#[trigger] rows[i]).user_id == user_id && rows[i].file_path == path
}

/// Some user, whoever it is, has an encryption record for this path.
pub open spec fn has_encrypted_path(rows: Seq<EncryptedFileView>, path: Seq<char>) -> bool {
    exists|i: int| 0 <= i < rows.len() && (#[trigger] rows[i]).file_path == path
}

// ---------------------------------------------------------------------------
// Ledger sums
// ---------------------------------------------------------------------------

/// Signed sum of all ledger entries of one user.
pub open spec fn sum_for(txns: Seq<TransactionView>, user_id: u64) -> int
    decreases txns.len(),
{
    if txns.len() == 0 {
        0
    } else {
        sum_for(txns.drop_last(), user_id) + if txns.last().user_id == user_id {
            txns.last().amount as int
        } else {
            0
        }
    }
}

/// Sum of the positive (credit) entries of one user.
pub open spec fn credits_for(txns: Seq<TransactionView>, user_id: u64) -> int
    decreases txns.len(),
{
    if txns.len() == 0 {
        0
    } else {
        credits_for(txns.drop_last(), user_id) + if txns.last().user_id == user_id
            && txns.last().amount > 0 {
            txns.last().amount as int
        } else {
            0
        }
    }
}

/// Sum of the magnitudes of the negative (debit) entries of one user.
pub open spec fn debits_for(txns: Seq<TransactionView>, user_id: u64) -> int
    decreases txns.len(),
{
    if txns.len() == 0 {
        0
    } else {
        debits_for(txns.drop_last(), user_id) + if txns.last().user_id == user_id
            && txns.last().amount < 0 {
            -(txns.last().amount as int)
        } else {
            0
        }
    }
}

/// Appending one entry moves each sum by exactly that entry.
pub proof fn lemma_sum_for_push(txns: Seq<TransactionView>, t: TransactionView, user_id: u64)
    ensures
        sum_for(txns.push(t), user_id) == sum_for(txns, user_id) + if t.user_id == user_id {
            t.amount as int
        } else {
            0
        },
{
    assert(txns.push(t).drop_last() =~= txns);
}

/// A user nobody has written entries for sums to zero.
pub proof fn lemma_sum_for_absent(txns: Seq<TransactionView>, user_id: u64)
    requires
        forall|i: int| 0 <= i < txns.len() ==> (#[trigger] txns[i]).user_id != user_id,
    ensures
        sum_for(txns, user_id) == 0,
    decreases txns.len(),
{
    if txns.len() > 0 {
        lemma_sum_for_absent(txns.drop_last(), user_id);
    }
}

/// The signed sum is exactly credits minus debits.
pub proof fn lemma_sum_split(txns: Seq<TransactionView>, user_id: u64)
    ensures
        sum_for(txns, user_id) == credits_for(txns, user_id) - debits_for(txns, user_id),
    decreases txns.len(),
{
    if txns.len() > 0 {
        lemma_sum_split(txns.drop_last(), user_id);
    }
}

/// Debits never exceed credits, in every well-formed store: the balance
/// summarizes the ledger and is never negative.
pub proof fn lemma_debits_bounded_by_credits(m: StoreView, user_id: u64)
    requires
        m.wf(),
        has_account_for(m.accounts, user_id),
    ensures
        debits_for(m.transactions, user_id) <= credits_for(m.transactions, user_id),
{
    let i = account_idx(m.accounts, user_id);
    assert(0 <= i < m.accounts.len() && m.accounts[i].user_id == user_id);
    lemma_sum_split(m.transactions, user_id);
}

// ---------------------------------------------------------------------------
// Cascade deletion
// ---------------------------------------------------------------------------

/// The user rows left after deleting the one with this id.
pub open spec fn drop_users_with_id(s: Seq<UserView>, id: u64) -> Seq<UserView>
    decreases s.len(),
{
    if s.len() == 0 {
        Seq::empty()
    } else {
        let rest = drop_users_with_id(s.drop_last(), id);
        if s.last().id == id {
            rest
        } else {
            rest.push(s.last())
        }
    }
}

/// Deleting a user keeps exactly the other users, and keeps ids and names
/// unique.
#[verifier::rlimit(30)]
pub proof fn lemma_drop_users_with_id(s: Seq<UserView>, id: u64)
    ensures
        forall|i: int|
            0 <= i < drop_users_with_id(s, id).len() ==> (#[trigger] drop_users_with_id(s, id)[i]).id
                != id && s.contains(drop_users_with_id(s, id)[i]),
        forall|i: int|
            0 <= i < s.len() && (#[trigger] s[i]).id != id ==> drop_users_with_id(s, id).contains(
                s[i],
            ),
        (forall|i: int, j: int|
            #![trigger s[i], s[j]]
            0 <= i < j < s.len() ==> s[i].id != s[j].id && s[i].name != s[j].name) ==> (forall|
            i: int,
            j: int,
        |
            #![trigger drop_users_with_id(s, id)[i], drop_users_with_id(s, id)[j]]
            0 <= i < j < drop_users_with_id(s, id).len() ==> drop_users_with_id(s, id)[i].id
                != drop_users_with_id(s, id)[j].id && drop_users_with_id(s, id)[i].name
                != drop_users_with_id(s, id)[j].name),
    decreases s.len(),
{
    if s.len() > 0 {
        let rest = drop_users_with_id(s.drop_last(), id);
        let d = drop_users_with_id(s, id);
        lemma_drop_users_with_id(s.drop_last(), id);
        assert forall|i: int| 0 <= i < d.len() implies (#[trigger] d[i]).id != id && s.contains(
            d[i],
        ) by {
            if s.last().id != id && i == d.len() - 1 {
                assert(d[i] == s.last());
                assert(s[s.len() - 1] == d[i]);
            } else {
                assert(d[i] == rest[i]);
                let w = choose|k: int|
                    0 <= k < s.drop_last().len() && s.drop_last()[k] == rest[i];
                assert(s[w] == d[i]);
            }
        }
        assert forall|i: int| 0 <= i < s.len() && (#[trigger] s[i]).id != id implies d.contains(
            s[i],
        ) by {
            if i < s.len() - 1 {
                let w = choose|k: int| 0 <= k < rest.len() && rest[k] == s.drop_last()[i];
                assert(d[w] == s[i]);
            } else {
                assert(d.last() == s[i]);
            }
        }
        if forall|i: int, j: int|
            #![trigger s[i], s[j]]
            0 <= i < j < s.len() ==> s[i].id != s[j].id && s[i].name != s[j].name {
            assert forall|i: int, j: int|
                #![trigger d[i], d[j]]
                0 <= i < j < d.len() implies d[i].id != d[j].id && d[i].name != d[j].name by {
                if s.last().id != id && j == d.len() - 1 {
                    assert(d[j] == s.last());
                    assert(d[i] == rest[i]);
                    let w = choose|k: int|
                        0 <= k < s.drop_last().len() && s.drop_last()[k] == rest[i];
                    assert(s[w] == d[i]);
                    assert(s[w].id != s[s.len() - 1].id && s[w].name != s[s.len() - 1].name);
                } else {
                    assert(d[i] == rest[i] && d[j] == rest[j]);
                }
            }
        }
    }
}

/// The account rows left after deleting this user's.
pub open spec fn drop_accounts_of(s: Seq<AccountView>, user_id: u64) -> Seq<AccountView>
    decreases s.len(),
{
    if s.len() == 0 {
        Seq::empty()
    } else {
        let rest = drop_accounts_of(s.drop_last(), user_id);
        if s.last().user_id == user_id {
            rest
        } else {
            rest.push(s.last())
        }
    }
}

/// Deleting a user's account keeps exactly the other accounts, with ids and
/// owners still unique.
pub proof fn lemma_drop_accounts_of(s: Seq<AccountView>, user_id: u64)
    ensures
        forall|i: int|
            0 <= i < drop_accounts_of(s, user_id).len() ==> (#[trigger] drop_accounts_of(
                s,
                user_id,
            )[i]).user_id != user_id && s.contains(drop_accounts_of(s, user_id)[i]),
        forall|i: int|
            0 <= i < s.len() && (#[trigger] s[i]).user_id != user_id ==> drop_accounts_of(
                s,
                user_id,
            ).contains(s[i]),
        (forall|i: int, j: int|
            #![trigger s[i], s[j]]
            0 <= i < j < s.len() ==> s[i].id != s[j].id && s[i].user_id != s[j].user_id) ==> (forall|
            i: int,
            j: int,
        |
            #![trigger drop_accounts_of(s, user_id)[i], drop_accounts_of(s, user_id)[j]]
            0 <= i < j < drop_accounts_of(s, user_id).len() ==> drop_accounts_of(s, user_id)[i].id
                != drop_accounts_of(s, user_id)[j].id && drop_accounts_of(s, user_id)[i].user_id
                != drop_accounts_of(s, user_id)[j].user_id),
    decreases s.len(),
{
    if s.len() > 0 {
        let rest = drop_accounts_of(s.drop_last(), user_id);
        let d = drop_accounts_of(s, user_id);
        lemma_drop_accounts_of(s.drop_last(), user_id);
        assert forall|i: int| 0 <= i < d.len() implies (#[trigger] d[i]).user_id != user_id
            && s.contains(d[i]) by {
            if s.last().user_id != user_id && i == d.len() - 1 {
                assert(d[i] == s.last());
                assert(s[s.len() - 1] == d[i]);
            } else {
                assert(d[i] == rest[i]);
                let w = choose|k: int| 0 <= k < s.drop_last().len() && s.drop_last()[k] == rest[i];
                assert(s[w] == d[i]);
            }
        }
        assert forall|i: int| 0 <= i < s.len() && (#[trigger] s[i]).user_id != user_id implies d
            .contains(s[i]) by {
            if i < s.len() - 1 {
                let w = choose|k: int| 0 <= k < rest.len() && rest[k] == s.drop_last()[i];
                assert(d[w] == s[i]);
            } else {
                assert(d.last() == s[i]);
            }
        }
        if forall|i: int, j: int|
            #![trigger s[i], s[j]]
            0 <= i < j < s.len() ==> s[i].id != s[j].id && s[i].user_id != s[j].user_id {
            assert forall|i: int, j: int|
                #![trigger d[i], d[j]]
                0 <= i < j < d.len() implies d[i].id != d[j].id && d[i].user_id != d[j].user_id by {
                if s.last().user_id != user_id && j == d.len() - 1 {
                    assert(d[j] == s.last());
                    assert(d[i] == rest[i]);
                    let w = choose|k: int|
                        0 <= k < s.drop_last().len() && s.drop_last()[k] == rest[i];
                    assert(s[w] == d[i]);
                    assert(s[w].id != s[s.len() - 1].id && s[w].user_id != s[s.len() - 1].user_id);
                } else {
                    assert(d[i] == rest[i] && d[j] == rest[j]);
                }
            }
        }
    }
}

/// The ledger entries left after deleting this user's.
pub open spec fn drop_txns_of(s: Seq<TransactionView>, user_id: u64) -> Seq<TransactionView>
    decreases s.len(),
{
    if s.len() == 0 {
        Seq::empty()
    } else {
        let rest = drop_txns_of(s.drop_last(), user_id);
        if s.last().user_id == user_id {
            rest
        } else {
            rest.push(s.last())
        }
    }
}

/// Deleting a user's ledger entries keeps exactly the other entries, ids
/// still unique.
pub proof fn lemma_drop_txns_of(s: Seq<TransactionView>, user_id: u64)
    ensures
        forall|i: int|
            0 <= i < drop_txns_of(s, user_id).len() ==> (#[trigger] drop_txns_of(
                s,
                user_id,
            )[i]).user_id != user_id && s.contains(drop_txns_of(s, user_id)[i]),
        forall|i: int|
            0 <= i < s.len() && (#[trigger] s[i]).user_id != user_id ==> drop_txns_of(
                s,
                user_id,
            ).contains(s[i]),
        (forall|i: int, j: int|
            #![trigger s[i], s[j]]
            0 <= i < j < s.len() ==> s[i].id != s[j].id) ==> (forall|i: int, j: int|
            #![trigger drop_txns_of(s, user_id)[i], drop_txns_of(s, user_id)[j]]
            0 <= i < j < drop_txns_of(s, user_id).len() ==> drop_txns_of(s, user_id)[i].id
                != drop_txns_of(s, user_id)[j].id),
    decreases s.len(),
{
    if s.len() > 0 {
        let rest = drop_txns_of(s.drop_last(), user_id);
        let d = drop_txns_of(s, user_id);
        lemma_drop_txns_of(s.drop_last(), user_id);
        assert forall|i: int| 0 <= i < d.len() implies (#[trigger] d[i]).user_id != user_id
            && s.contains(d[i]) by {
            if s.last().user_id != user_id && i == d.len() - 1 {
                assert(d[i] == s.last());
                assert(s[s.len() - 1] == d[i]);
            } else {
                assert(d[i] == rest[i]);
                let w = choose|k: int| 0 <= k < s.drop_last().len() && s.drop_last()[k] == rest[i];
                assert(s[w] == d[i]);
            }
        }
        assert forall|i: int| 0 <= i < s.len() && (#[trigger] s[i]).user_id != user_id implies d
            .contains(s[i]) by {
            if i < s.len() - 1 {
                let w = choose|k: int| 0 <= k < rest.len() && rest[k] == s.drop_last()[i];
                assert(d[w] == s[i]);
            } else {
                assert(d.last() == s[i]);
            }
        }
        if forall|i: int, j: int|
            #![trigger s[i], s[j]]
            0 <= i < j < s.len() ==> s[i].id != s[j].id {
            assert forall|i: int, j: int|
                #![trigger d[i], d[j]]
                0 <= i < j < d.len() implies d[i].id != d[j].id by {
                if s.last().user_id != user_id && j == d.len() - 1 {
                    assert(d[j] == s.last());
                    assert(d[i] == rest[i]);
                    let w = choose|k: int|
                        0 <= k < s.drop_last().len() && s.drop_last()[k] == rest[i];
                    assert(s[w] == d[i]);
                    assert(s[w].id != s[s.len() - 1].id);
                } else {
                    assert(d[i] == rest[i] && d[j] == rest[j]);
                }
            }
        }
    }
}

/// Deleting one user's entries leaves every other user's sum unchanged.
pub proof fn lemma_sum_for_drop_other(s: Seq<TransactionView>, user_id: u64, other: u64)
    requires
        other != user_id,
    ensures
        sum_for(drop_txns_of(s, user_id), other) == sum_for(s, other),
    decreases s.len(),
{
    if s.len() > 0 {
        lemma_sum_for_drop_other(s.drop_last(), user_id, other);
        if s.last().user_id != user_id {
            lemma_sum_for_push(drop_txns_of(s.drop_last(), user_id), s.last(), other);
        }
    }
}

/// The per-user task rows left after deleting this user's.
pub open spec fn drop_user_tasks_of(s: Seq<UserTaskView>, user_id: u64) -> Seq<UserTaskView>
    decreases s.len(),
{
    if s.len() == 0 {
        Seq::empty()
    } else {
        let rest = drop_user_tasks_of(s.drop_last(), user_id);
        if s.last().user_id == user_id {
            rest
        } else {
            rest.push(s.last())
        }
    }
}

/// Deleting a user's task rows keeps exactly the other rows, ids and pairs
/// still unique.
pub proof fn lemma_drop_user_tasks_of(s: Seq<UserTaskView>, user_id: u64)
    ensures
        forall|i: int|
            0 <= i < drop_user_tasks_of(s, user_id).len() ==> (#[trigger] drop_user_tasks_of(
                s,
                user_id,
            )[i]).user_id != user_id && s.contains(drop_user_tasks_of(s, user_id)[i]),
        forall|i: int|
            0 <= i < s.len() && (#[trigger] s[i]).user_id != user_id ==> drop_user_tasks_of(
                s,
                user_id,
            ).contains(s[i]),
        (forall|i: int, j: int|
            #![trigger s[i], s[j]]
            0 <= i < j < s.len() ==> s[i].id != s[j].id && !(s[i].user_id == s[j].user_id
                && s[i].universal_task_id == s[j].universal_task_id)) ==> (forall|i: int, j: int|
            #![trigger drop_user_tasks_of(s, user_id)[i], drop_user_tasks_of(s, user_id)[j]]
            0 <= i < j < drop_user_tasks_of(s, user_id).len() ==> drop_user_tasks_of(
                s,
                user_id,
            )[i].id != drop_user_tasks_of(s, user_id)[j].id && !(drop_user_tasks_of(
                s,
                user_id,
            )[i].user_id == drop_user_tasks_of(s, user_id)[j].user_id && drop_user_tasks_of(
                s,
                user_id,
            )[i].universal_task_id == drop_user_tasks_of(s, user_id)[j].universal_task_id)),
    decreases s.len(),
{
    if s.len() > 0 {
        let rest = drop_user_tasks_of(s.drop_last(), user_id);
        let d = drop_user_tasks_of(s, user_id);
        lemma_drop_user_tasks_of(s.drop_last(), user_id);
        assert forall|i: int| 0 <= i < d.len() implies (#[trigger] d[i]).user_id != user_id
            && s.contains(d[i]) by {
            if s.last().user_id != user_id && i == d.len() - 1 {
                assert(d[i] == s.last());
                assert(s[s.len() - 1] == d[i]);
            } else {
                assert(d[i] == rest[i]);
                let w = choose|k: int| 0 <= k < s.drop_last().len() && s.drop_last()[k] == rest[i];
                assert(s[w] == d[i]);
            }
        }
        assert forall|i: int| 0 <= i < s.len() && (#[trigger] s[i]).user_id != user_id implies d
            .contains(s[i]) by {
            if i < s.len() - 1 {
                let w = choose|k: int| 0 <= k < rest.len() && rest[k] == s.drop_last()[i];
                assert(d[w] == s[i]);
            } else {
                assert(d.last() == s[i]);
            }
        }
        if forall|i: int, j: int|
            #![trigger s[i], s[j]]
            0 <= i < j < s.len() ==> s[i].id != s[j].id && !(s[i].user_id == s[j].user_id
                && s[i].universal_task_id == s[j].universal_task_id) {
            assert forall|i: int, j: int|
                #![trigger d[i], d[j]]
                0 <= i < j < d.len() implies d[i].id != d[j].id && !(d[i].user_id == d[j].user_id
                    && d[i].universal_task_id == d[j].universal_task_id) by {
                if s.last().user_id != user_id && j == d.len() - 1 {
                    assert(d[j] == s.last());
                    assert(d[i] == rest[i]);
                    let w = choose|k: int|
                        0 <= k < s.drop_last().len() && s.drop_last()[k] == rest[i];
                    assert(s[w] == d[i]);
                    assert(s[w].id != s[s.len() - 1].id);
                } else {
                    assert(d[i] == rest[i] && d[j] == rest[j]);
                }
            }
        }
    }
}

/// The inbox rows left after deleting this user's.
pub open spec fn drop_user_emails_of(s: Seq<UserEmailView>, user_id: u64) -> Seq<UserEmailView>
    decreases s.len(),
{
    if s.len() == 0 {
        Seq::empty()
    } else {
        let rest = drop_user_emails_of(s.drop_last(), user_id);
        if s.last().user_id == user_id {
            rest
        } else {
            rest.push(s.last())
        }
    }
}

/// Deleting a user's inbox rows keeps exactly the other rows, pairs still
/// unique.
pub proof fn lemma_drop_user_emails_of(s: Seq<UserEmailView>, user_id: u64)
    ensures
        forall|i: int|
            0 <= i < drop_user_emails_of(s, user_id).len() ==> (#[trigger] drop_user_emails_of(
                s,
                user_id,
            )[i]).user_id != user_id && s.contains(drop_user_emails_of(s, user_id)[i]),
        forall|i: int|
            0 <= i < s.len() && (#[trigger] s[i]).user_id != user_id ==> drop_user_emails_of(
                s,
                user_id,
            ).contains(s[i]),
        (forall|i: int, j: int|
            #![trigger s[i], s[j]]
            0 <= i < j < s.len() ==> !(s[i].user_id == s[j].user_id && s[i].universal_email_id
                == s[j].universal_email_id)) ==> (forall|i: int, j: int|
            #![trigger drop_user_emails_of(s, user_id)[i], drop_user_emails_of(s, user_id)[j]]
            0 <= i < j < drop_user_emails_of(s, user_id).len() ==> !(drop_user_emails_of(
                s,
                user_id,
            )[i].user_id == drop_user_emails_of(s, user_id)[j].user_id && drop_user_emails_of(
                s,
                user_id,
            )[i].universal_email_id == drop_user_emails_of(s, user_id)[j].universal_email_id)),
    decreases s.len(),
{
    if s.len() > 0 {
        let rest = drop_user_emails_of(s.drop_last(), user_id);
        let d = drop_user_emails_of(s, user_id);
        lemma_drop_user_emails_of(s.drop_last(), user_id);
        assert forall|i: int| 0 <= i < d.len() implies (#[trigger] d[i]).user_id != user_id
            && s.contains(d[i]) by {
            if s.last().user_id != user_id && i == d.len() - 1 {
                assert(d[i] == s.last());
                assert(s[s.len() - 1] == d[i]);
            } else {
                assert(d[i] == rest[i]);
                let w = choose|k: int| 0 <= k < s.drop_last().len() && s.drop_last()[k] == rest[i];
                assert(s[w] == d[i]);
            }
        }
        assert forall|i: int| 0 <= i < s.len() && (#[trigger] s[i]).user_id != user_id implies d
            .contains(s[i]) by {
            if i < s.len() - 1 {
                let w = choose|k: int| 0 <= k < rest.len() && rest[k] == s.drop_last()[i];
                assert(d[w] == s[i]);
            } else {
                assert(d.last() == s[i]);
            }
        }
        if forall|i: int, j: int|
            #![trigger s[i], s[j]]
            0 <= i < j < s.len() ==> !(s[i].user_id == s[j].user_id && s[i].universal_email_id
                == s[j].universal_email_id) {
            assert forall|i: int, j: int|
                #![trigger d[i], d[j]]
                0 <= i < j < d.len() implies !(d[i].user_id == d[j].user_id && d[i].universal_email_id
                    == d[j].universal_email_id) by {
                if s.last().user_id != user_id && j == d.len() - 1 {
                    assert(d[j] == s.last());
                    assert(d[i] == rest[i]);
                    let w = choose|k: int|
                        0 <= k < s.drop_last().len() && s.drop_last()[k] == rest[i];
                    assert(s[w] == d[i]);
                    assert(true);
                } else {
                    assert(d[i] == rest[i] && d[j] == rest[j]);
                }
            }
        }
    }
}

/// The service grants left after deleting this user's.
pub open spec fn drop_grants_of(s: Seq<ServiceGrant>, user_id: u64) -> Seq<ServiceGrant>
    decreases s.len(),
{
    if s.len() == 0 {
        Seq::empty()
    } else {
        let rest = drop_grants_of(s.drop_last(), user_id);
        if s.last().user_id == user_id {
            rest
        } else {
            rest.push(s.last())
        }
    }
}

/// Deleting a user's grants keeps exactly the other grants, pairs still
/// unique.
pub proof fn lemma_drop_grants_of(s: Seq<ServiceGrant>, user_id: u64)
    ensures
        forall|i: int|
            0 <= i < drop_grants_of(s, user_id).len() ==> (#[trigger] drop_grants_of(
                s,
                user_id,
            )[i]).user_id != user_id && s.contains(drop_grants_of(s, user_id)[i]),
        forall|i: int|
            0 <= i < s.len() && (#[trigger] s[i]).user_id != user_id ==> drop_grants_of(
                s,
                user_id,
            ).contains(s[i]),
        (forall|i: int, j: int|
            #![trigger s[i], s[j]]
            0 <= i < j < s.len() ==> !(s[i].user_id == s[j].user_id && s[i].service_id
                == s[j].service_id)) ==> (forall|i: int, j: int|
            #![trigger drop_grants_of(s, user_id)[i], drop_grants_of(s, user_id)[j]]
            0 <= i < j < drop_grants_of(s, user_id).len() ==> !(drop_grants_of(
                s,
                user_id,
            )[i].user_id == drop_grants_of(s, user_id)[j].user_id && drop_grants_of(
                s,
                user_id,
            )[i].service_id == drop_grants_of(s, user_id)[j].service_id)),
    decreases s.len(),
{
    if s.len() > 0 {
        let rest = drop_grants_of(s.drop_last(), user_id);
        let d = drop_grants_of(s, user_id);
        lemma_drop_grants_of(s.drop_last(), user_id);
        assert forall|i: int| 0 <= i < d.len() implies (#[trigger] d[i]).user_id != user_id
            && s.contains(d[i]) by {
            if s.last().user_id != user_id && i == d.len() - 1 {
                assert(d[i] == s.last());
                assert(s[s.len() - 1] == d[i]);
            } else {
                assert(d[i] == rest[i]);
                let w = choose|k: int| 0 <= k < s.drop_last().len() && s.drop_last()[k] == rest[i];
                assert(s[w] == d[i]);
            }
        }
        assert forall|i: int| 0 <= i < s.len() && (#[trigger] s[i]).user_id != user_id implies d
            .contains(s[i]) by {
            if i < s.len() - 1 {
                let w = choose|k: int| 0 <= k < rest.len() && rest[k] == s.drop_last()[i];
                assert(d[w] == s[i]);
            } else {
                assert(d.last() == s[i]);
            }
        }
        if forall|i: int, j: int|
            #![trigger s[i], s[j]]
            0 <= i < j < s.len() ==> !(s[i].user_id == s[j].user_id && s[i].service_id
                == s[j].service_id) {
            assert forall|i: int, j: int|
                #![trigger d[i], d[j]]
                0 <= i < j < d.len() implies !(d[i].user_id == d[j].user_id && d[i].service_id == d[j].service_id) by {
                if s.last().user_id != user_id && j == d.len() - 1 {
                    assert(d[j] == s.last());
                    assert(d[i] == rest[i]);
                    let w = choose|k: int|
                        0 <= k < s.drop_last().len() && s.drop_last()[k] == rest[i];
                    assert(s[w] == d[i]);
                    assert(true);
                } else {
                    assert(d[i] == rest[i] && d[j] == rest[j]);
                }
            }
        }
    }
}

/// The encryption records left after deleting this user's.
pub open spec fn drop_files_of(s: Seq<EncryptedFileView>, user_id: u64) -> Seq<EncryptedFileView>
    decreases s.len(),
{
    if s.len() == 0 {
        Seq::empty()
    } else {
        let rest = drop_files_of(s.drop_last(), user_id);
        if s.last().user_id == user_id {
            rest
        } else {
            rest.push(s.last())
        }
    }
}

/// Deleting a user's encryption records keeps exactly the other records,
/// pairs still unique.
pub proof fn lemma_drop_files_of(s: Seq<EncryptedFileView>, user_id: u64)
    ensures
        forall|i: int|
            0 <= i < drop_files_of(s, user_id).len() ==> (#[trigger] drop_files_of(
                s,
                user_id,
            )[i]).user_id != user_id && s.contains(drop_files_of(s, user_id)[i]),
        forall|i: int|
            0 <= i < s.len() && (#[trigger] s[i]).user_id != user_id ==> drop_files_of(
                s,
                user_id,
            ).contains(s[i]),
        (forall|i: int, j: int|
            #![trigger s[i], s[j]]
            0 <= i < j < s.len() ==> !(s[i].user_id == s[j].user_id && s[i].file_path
                == s[j].file_path)) ==> (forall|i: int, j: int|
            #![trigger drop_files_of(s, user_id)[i], drop_files_of(s, user_id)[j]]
            0 <= i < j < drop_files_of(s, user_id).len() ==> !(drop_files_of(s, user_id)[i].user_id
                == drop_files_of(s, user_id)[j].user_id && drop_files_of(s, user_id)[i].file_path
                == drop_files_of(s, user_id)[j].file_path)),
    decreases s.len(),
{
    if s.len() > 0 {
        let rest = drop_files_of(s.drop_last(), user_id);
        let d = drop_files_of(s, user_id);
        lemma_drop_files_of(s.drop_last(), user_id);
        assert forall|i: int| 0 <= i < d.len() implies (#[trigger] d[i]).user_id != user_id
            && s.contains(d[i]) by {
            if s.last().user_id != user_id && i == d.len() - 1 {
                assert(d[i] == s.last());
                assert(s[s.len() - 1] == d[i]);
            } else {
                assert(d[i] == rest[i]);
                let w = choose|k: int| 0 <= k < s.drop_last().len() && s.drop_last()[k] == rest[i];
                assert(s[w] == d[i]);
            }
        }
        assert forall|i: int| 0 <= i < s.len() && (#[trigger] s[i]).user_id != user_id implies d
            .contains(s[i]) by {
            if i < s.len() - 1 {
                let w = choose|k: int| 0 <= k < rest.len() && rest[k] == s.drop_last()[i];
                assert(d[w] == s[i]);
            } else {
                assert(d.last() == s[i]);
            }
        }
        if forall|i: int, j: int|
            #![trigger s[i], s[j]]
            0 <= i < j < s.len() ==> !(s[i].user_id == s[j].user_id && s[i].file_path
                == s[j].file_path) {
            assert forall|i: int, j: int|
                #![trigger d[i], d[j]]
                0 <= i < j < d.len() implies !(d[i].user_id == d[j].user_id && d[i].file_path == d[j].file_path) by {
                if s.last().user_id != user_id && j == d.len() - 1 {
                    assert(d[j] == s.last());
                    assert(d[i] == rest[i]);
                    let w = choose|k: int|
                        0 <= k < s.drop_last().len() && s.drop_last()[k] == rest[i];
                    assert(s[w] == d[i]);
                    assert(true);
                } else {
                    assert(d[i] == rest[i] && d[j] == rest[j]);
                }
            }
        }
    }
}

// ---------------------------------------------------------------------------
// Well-formedness
// ---------------------------------------------------------------------------

impl StoreView {
    /// User rows: fresh ids, unique ids and names, never-empty credentials.
    pub open spec fn users_wf(self) -> bool {
        &&& forall|i: int|
            0 <= i < self.users.len() ==> (#[trigger] self.users[i]).id < self.next_id
                && self.users[i].password_hash.len() > 0
        &&& forall|i: int, j: int|
            #![trigger self.users[i], self.users[j]]
            0 <= i < j < self.users.len() ==> self.users[i].id != self.users[j].id
                && self.users[i].name != self.users[j].name
    }

    /// Account rows: fresh ids, at most one account per user, every account
    /// owned by an existing user, and a balance that is non-negative and
    /// equal to the signed sum of the owner's ledger entries.
    pub open spec fn accounts_wf(self) -> bool {
        &&& forall|i: int|
            0 <= i < self.accounts.len() ==> (#[trigger] self.accounts[i]).id < self.next_id
                && self.accounts[i].user_id < self.next_id
                && has_user_id(self.users, self.accounts[i].user_id)
                && self.accounts[i].balance >= 0
                && self.accounts[i].balance == sum_for(self.transactions, self.accounts[i].user_id)
        &&& forall|i: int, j: int|
            #![trigger self.accounts[i], self.accounts[j]]
            0 <= i < j < self.accounts.len() ==> self.accounts[i].id != self.accounts[j].id
                && self.accounts[i].user_id != self.accounts[j].user_id
    }

    /// Ledger rows: fresh unique ids, every entry tied to an existing
    /// account.
    pub open spec fn transactions_wf(self) -> bool {
        &&& forall|i: int|
            0 <= i < self.transactions.len() ==> (#[trigger] self.transactions[i]).id
                < self.next_id && self.transactions[i].user_id < self.next_id
                && has_account_for(self.accounts, self.transactions[i].user_id)
        &&& forall|i: int, j: int|
            #![trigger self.transactions[i], self.transactions[j]]
            0 <= i < j < self.transactions.len() ==> self.transactions[i].id
                != self.transactions[j].id
    }

    /// Task definitions: unique ids, non-negative point rewards.
    pub open spec fn tasks_wf(self) -> bool {
        &&& forall|i: int| 0 <= i < self.tasks.len() ==> (#[trigger] self.tasks[i]).points >= 0
        &&& forall|i: int, j: int|
            #![trigger self.tasks[i], self.tasks[j]]
            0 <= i < j < self.tasks.len() ==> self.tasks[i].id != self.tasks[j].id
    }

    /// Per-user task rows: fresh unique ids, at most one row per (user,
    /// task), both ends of the pair existing, and a completion timestamp
    /// exactly on completed rows.
    pub open spec fn user_tasks_wf(self) -> bool {
        &&& forall|i: int|
            0 <= i < self.user_tasks.len() ==> (#[trigger] self.user_tasks[i]).id < self.next_id
                && has_user_id(self.users, self.user_tasks[i].user_id)
                && has_task(self.tasks, self.user_tasks[i].universal_task_id)
                && (self.user_tasks[i].status is Completed <==> self.user_tasks[i].completed_at
                is Some)
        &&& forall|i: int, j: int|
            #![trigger self.user_tasks[i], self.user_tasks[j]]
            0 <= i < j < self.user_tasks.len() ==> self.user_tasks[i].id != self.user_tasks[j].id
                && !(self.user_tasks[i].user_id == self.user_tasks[j].user_id
                && self.user_tasks[i].universal_task_id == self.user_tasks[j].universal_task_id)
    }

    /// Template emails: unique ids.
    pub open spec fn templates_wf(self) -> bool {
        forall|i: int, j: int|
            #![trigger self.universal_emails[i], self.universal_emails[j]]
            0 <= i < j < self.universal_emails.len() ==> self.universal_emails[i].id
                != self.universal_emails[j].id
    }

    /// Inbox rows: at most one per (user, template), both ends existing.
    pub open spec fn user_emails_wf(self) -> bool {
        &&& forall|i: int|
            0 <= i < self.user_emails.len() ==> has_user_id(
                self.users,
                (#[trigger] self.user_emails[i]).user_id,
            ) && has_template(self.universal_emails, self.user_emails[i].universal_email_id)
        &&& forall|i: int, j: int|
            #![trigger self.user_emails[i], self.user_emails[j]]
            0 <= i < j < self.user_emails.len() ==> !(self.user_emails[i].user_id
                == self.user_emails[j].user_id && self.user_emails[i].universal_email_id
                == self.user_emails[j].universal_email_id)
    }

    /// Service grants: at most one per (user, service), owner existing.
    pub open spec fn grants_wf(self) -> bool {
        &&& forall|i: int|
            0 <= i < self.user_services.len() ==> has_user_id(
                self.users,
                (#[trigger] self.user_services[i]).user_id,
            )
        &&& forall|i: int, j: int|
            #![trigger self.user_services[i], self.user_services[j]]
            0 <= i < j < self.user_services.len() ==> !(self.user_services[i].user_id
                == self.user_services[j].user_id && self.user_services[i].service_id
                == self.user_services[j].service_id)
    }

    /// Encryption records: at most one per (user, path), owner existing.
    pub open spec fn files_wf(self) -> bool {
        &&& forall|i: int|
            0 <= i < self.encrypted_files.len() ==> has_user_id(
                self.users,
                (#[trigger] self.encrypted_files[i]).user_id,
            )
        &&& forall|i: int, j: int|
            #![trigger self.encrypted_files[i], self.encrypted_files[j]]
            0 <= i < j < self.encrypted_files.len() ==> !(self.encrypted_files[i].user_id
                == self.encrypted_files[j].user_id && self.encrypted_files[i].file_path
                == self.encrypted_files[j].file_path)
    }

    /// The store invariant: every table clause at once.
    pub open spec fn wf(self) -> bool {
        &&& self.users_wf()
        &&& self.accounts_wf()
        &&& self.transactions_wf()
        &&& self.tasks_wf()
        &&& self.user_tasks_wf()
        &&& self.templates_wf()
        &&& self.user_emails_wf()
        &&& self.grants_wf()
        &&& self.files_wf()
    }
}

} // verus!
