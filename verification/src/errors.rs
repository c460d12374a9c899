//! Error taxonomy of the store's operations.
//!
//! Every multi-step operation converts any mid-flight failure into one of
//! these kinds at its transaction boundary; the operation's contract states
//! exactly which inputs produce which kind.

use vstd::prelude::*;

verus! {

/// Why a store operation was rejected.  Whenever an operation returns one of
/// these, its contract guarantees that the store is unchanged.
#[derive(Clone, Copy, Debug, PartialEq, Eq, Structural)]
pub enum Error {
    /// A user with the requested unique name already exists.
    DuplicateName,
    /// The referenced user or bank account does not exist.
    NotFound,
    /// The referenced task definition does not exist.
    TaskNotFound,
    /// A partial update carried no fields at all.
    NoFieldsSpecified,
    /// A credential to be recorded was empty.
    EmptyPassword,
    /// A debit larger than the current balance was requested.
    InsufficientFunds,
    /// A negative amount was supplied where a debit price was expected.
    InvalidAmount,
    /// A name, password or file path did not match the expected secret.
    InvalidCredentials,
    /// A store-level constraint would be violated (balance out of range,
    /// identifier space exhausted); the whole unit of work is abandoned.
    DatabaseFailure,
}

impl Error {
    /// Stable, user-visible message for each kind.
    pub fn message(&self) -> (r: String)
        ensures
            *self is DuplicateName ==> r@ == "A user with this name already exists"@,
            *self is NotFound ==> r@ == "User not found"@,
            *self is TaskNotFound ==> r@ == "Universal task not found."@,
            *self is NoFieldsSpecified ==> r@ == "No fields to update"@,
            *self is EmptyPassword ==> r@ == "Password must not be empty"@,
            *self is InsufficientFunds ==> r@ == "Not enough points"@,
            *self is InvalidAmount ==> r@ == "Amount must not be negative"@,
            *self is InvalidCredentials ==> r@ == "Invalid credentials"@,
            *self is DatabaseFailure ==> r@ == "Database failure"@,
    {
        match self {
            Error::DuplicateName => String::from_str("A user with this name already exists"),
            Error::NotFound => String::from_str("User not found"),
            Error::TaskNotFound => String::from_str("Universal task not found."),
            Error::NoFieldsSpecified => String::from_str("No fields to update"),
            Error::EmptyPassword => String::from_str("Password must not be empty"),
            Error::InsufficientFunds => String::from_str("Not enough points"),
            Error::InvalidAmount => String::from_str("Amount must not be negative"),
            Error::InvalidCredentials => String::from_str("Invalid credentials"),
            Error::DatabaseFailure => String::from_str("Database failure"),
        }
    }
}

} // verus!
