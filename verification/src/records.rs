//! Typed rows of the store's tables, plus the request bundles that the
//! surface operations take.
//!
//! Timestamps are carried as plain integer values (seconds); the caller
//! supplies the clock reading, so every operation is a function of its
//! arguments and the current store alone.

use vstd::prelude::*;

verus! {

/// A provisioned user account.  `name` is unique across the store and
/// `password_hash` is an opaque, never-empty credential string; hashing
/// itself is the caller's collaborator, the store only records the result.
pub struct User {
    pub id: u64,
    pub device_name: String,
    pub name: String,
    pub password_hash: String,
    pub ip: String,
    pub mac: String,
    pub created_at: i64,
}

/// The points account of one user: exactly one per user, balance never
/// negative.
pub struct BankAccount {
    pub id: u64,
    pub user_id: u64,
    pub balance: i64,
    pub account_number: String,
    pub card_number: String,
    pub cvc: String,
    pub expiry_date: String,
    pub created_at: i64,
}

/// One append-only audit entry of the ledger; `amount` is signed, credits
/// positive and debits negative.  Entries are immutable once written.
pub struct BankTransaction {
    pub id: u64,
    pub user_id: u64,
    pub description: String,
    pub amount: i64,
    pub created_at: i64,
}

/// A training-task definition shared by all users; `points` is the fixed
/// reward issued on the first completion.
pub struct UniversalTask {
    pub id: u64,
    pub title: String,
    pub description: String,
    pub learning_module: Option<String>,
    pub points: i64,
    pub task_type: String,
    pub task_data: Option<String>,
    pub level: i64,
}

/// Completion state of one (user, task) pair.
#[derive(Clone, Copy, Debug, PartialEq, Eq, Structural)]
pub enum TaskStatus {
    ToDo,
    InProgress,
    Completed,
}

/// Per-user task state: at most one row per (user, task), created lazily on
/// the first completion attempt and never deleted while the user exists.
pub struct UserTask {
    pub id: u64,
    pub user_id: u64,
    pub universal_task_id: u64,
    pub status: TaskStatus,
    pub completed_at: Option<i64>,
    pub created_at: i64,
}

/// A template email shared by all users; each user gets one `UserEmail` row
/// per template when their inbox is seeded.
pub struct UniversalEmail {
    pub id: u64,
    pub from_user: String,
    pub subject: String,
    pub body: String,
}

/// Per-user inbox state of one template email, keyed by the composite
/// (user, template) pair.
pub struct UserEmail {
    pub user_id: u64,
    pub universal_email_id: u64,
    pub is_read: bool,
    pub classification: String,
}

/// An inbox row joined with its template's content, as the surface lists a
/// user's emails.
pub struct Email {
    pub user_id: u64,
    pub universal_email_id: u64,
    pub is_read: bool,
    pub classification: String,
    pub from_user: String,
    pub subject: String,
    pub body: String,
}

/// Ownership of a purchased service by a user, keyed by the composite
/// (user, service) pair.
pub struct ServiceGrant {
    pub user_id: u64,
    pub service_id: u64,
}

/// A file a user has encrypted, keyed by the composite (user, path) pair.
pub struct EncryptedFile {
    pub user_id: u64,
    pub file_path: String,
}

/// The freshly generated identifiers an account is provisioned with.  The
/// generator module produces them; provisioning records them as given.
pub struct AccountIdentity {
    pub ip: String,
    pub mac: String,
    pub account_number: String,
    pub card_number: String,
    pub cvc: String,
    pub expiry_date: String,
}

/// A user row joined with their bank account, as handed to the surface.
pub struct UserDetails {
    pub id: u64,
    pub device_name: String,
    pub name: String,
    pub ip: String,
    pub mac: String,
    pub bank_account: Option<BankAccount>,
}

/// Arguments of account provisioning.  `password` carries the credential as
/// the store will record it: the caller hashes the raw secret first, the
/// store treats the string as opaque.
pub struct CreateUserRequest {
    pub device_name: String,
    pub name: String,
    pub password: String,
}

/// A partial update of a user's mutable fields; `None` leaves a field as it
/// is.
pub struct UpdateUserRequest {
    pub device_name: Option<String>,
    pub ip: Option<String>,
    pub mac: Option<String>,
}

/// Arguments of standalone bank-account creation.
pub struct CreateBankAccountRequest {
    pub user_id: u64,
}

/// Arguments of a card-detail update.
pub struct UpdateCardRequest {
    pub user_id: u64,
    pub generate_new_card: bool,
}

impl User {
    /// An equal copy, so reads can hand rows out without surrendering the
    /// store's own.
    pub fn duplicate(&self) -> (r: User)
        ensures
            r == *self,
    {
        User {
            id: self.id,
            device_name: self.device_name.clone(),
            name: self.name.clone(),
            password_hash: self.password_hash.clone(),
            ip: self.ip.clone(),
            mac: self.mac.clone(),
            created_at: self.created_at,
        }
    }
}

impl BankAccount {
    /// An equal copy.
    pub fn duplicate(&self) -> (r: BankAccount)
        ensures
            r == *self,
    {
        BankAccount {
            id: self.id,
            user_id: self.user_id,
            balance: self.balance,
            account_number: self.account_number.clone(),
            card_number: self.card_number.clone(),
            cvc: self.cvc.clone(),
            expiry_date: self.expiry_date.clone(),
            created_at: self.created_at,
        }
    }
}

impl BankTransaction {
    /// An equal copy.
    pub fn duplicate(&self) -> (r: BankTransaction)
        ensures
            r == *self,
    {
        BankTransaction {
            id: self.id,
            user_id: self.user_id,
            description: self.description.clone(),
            amount: self.amount,
            created_at: self.created_at,
        }
    }
}

/// An equal copy of an optional string.
pub fn duplicate_opt_string(s: &Option<String>) -> (r: Option<String>)
    ensures
        r == *s,
{
    match s {
        Some(v) => Some(v.clone()),
        None => None,
    }
}

impl UniversalTask {
    /// An equal copy.
    pub fn duplicate(&self) -> (r: UniversalTask)
        ensures
            r == *self,
    {
        UniversalTask {
            id: self.id,
            title: self.title.clone(),
            description: self.description.clone(),
            learning_module: duplicate_opt_string(&self.learning_module),
            points: self.points,
            task_type: self.task_type.clone(),
            task_data: duplicate_opt_string(&self.task_data),
            level: self.level,
        }
    }
}

impl UserTask {
    /// An equal copy.
    pub fn duplicate(&self) -> (r: UserTask)
        ensures
            r == *self,
    {
        UserTask {
            id: self.id,
            user_id: self.user_id,
            universal_task_id: self.universal_task_id,
            status: self.status,
            completed_at: self.completed_at,
            created_at: self.created_at,
        }
    }
}

impl UserEmail {
    /// An equal copy.
    pub fn duplicate(&self) -> (r: UserEmail)
        ensures
            r == *self,
    {
        UserEmail {
            user_id: self.user_id,
            universal_email_id: self.universal_email_id,
            is_read: self.is_read,
            classification: self.classification.clone(),
        }
    }
}

} // verus!
