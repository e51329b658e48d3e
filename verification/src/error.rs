//! The library's error taxonomy: validation failures, missing rows,
//! uniqueness conflicts, store failures and contract violations, each with
//! a short user-facing message; raw store error detail never crosses the
//! boundary.

use vstd::prelude::*;
use vstd::string::StringExecFns;

verus! {

/// How a store operation failed, with the constraint classes the command
/// layer distinguishes.
#[derive(Debug, Clone, Copy, PartialEq, Eq, Structural)]
pub enum StoreError {
    /// A UNIQUE constraint was violated.
    UniqueViolation,
    /// A FOREIGN KEY constraint was violated.
    ForeignKeyViolation,
    /// Any other connection or query failure.
    Other,
}

#[derive(Debug, Clone)]
pub enum AppError {
    /// A row with this name already exists.
    AlreadyExists { name: String },
    /// The named entity was not found.
    NotFound { entity: &'static str },
    /// A field failed validation, with the reason.
    InvalidInput { field: &'static str, reason: String },
    /// A row could not be deleted, with the reason.
    DeleteFailed { reason: String },
    /// The store failed; detail stays on this side of the boundary.
    Database(StoreError),
    /// A mutation was attempted on a row that was never persisted.
    Unsaved { entity: &'static str },
}

pub open spec fn spec_user_message(e: AppError) -> Seq<char> {
    match e {
        AppError::AlreadyExists { name } => "'"@ + name@ + "' already exists"@,
        AppError::NotFound { entity } => entity@ + " not found"@,
        AppError::InvalidInput { field, reason } => "Invalid "@ + field@ + ": "@ + reason@,
        AppError::DeleteFailed { reason } => "Cannot delete: "@ + reason@,
        AppError::Database(_) => "Database error"@,
        AppError::Unsaved { entity } => "Cannot update unsaved "@ + entity@,
    }
}

impl AppError {
    /// The short user-facing message for this error.
    pub fn user_message(&self) -> (r: String)
        ensures
            r@ == spec_user_message(*self),
    {
        match self {
            AppError::AlreadyExists { name } => {
                let mut s = String::new();
                s.append("'");
                s.append(name.as_str());
                s.append("' already exists");
                proof {
                    assert(s@ =~= spec_user_message(*self));
                }
                s
            },
            AppError::NotFound { entity } => {
                let mut s = String::new();
                s.append(entity);
                s.append(" not found");
                proof {
                    assert(s@ =~= spec_user_message(*self));
                }
                s
            },
            AppError::InvalidInput { field, reason } => {
                let mut s = String::new();
                s.append("Invalid ");
                s.append(field);
                s.append(": ");
                s.append(reason.as_str());
                proof {
                    assert(s@ =~= spec_user_message(*self));
                }
                s
            },
            AppError::DeleteFailed { reason } => {
                let mut s = String::new();
                s.append("Cannot delete: ");
                s.append(reason.as_str());
                proof {
                    assert(s@ =~= spec_user_message(*self));
                }
                s
            },
            AppError::Database(_) => {
                let mut s = String::new();
                s.append("Database error");
                proof {
                    assert(s@ =~= spec_user_message(*self));
                }
                s
            },
            AppError::Unsaved { entity } => {
                let mut s = String::new();
                s.append("Cannot update unsaved ");
                s.append(entity);
                proof {
                    assert(s@ =~= spec_user_message(*self));
                }
                s
            },
        }
    }
}

} // verus!
