//! Error taxonomy of the durability subsystem.
//!
//! Bootstrap errors (`DuplicateVersion`, `StepExecutionFailed`) are fatal:
//! the application must not operate against a store whose schema state is
//! unknown. Post-bootstrap write errors (`ConstraintViolation`) are
//! returned to the immediate caller; the store stays consistent.

use vstd::prelude::*;

verus! {

/// The table an operation was addressed to.
#[derive(Debug, Clone, Copy, PartialEq, Eq, Structural)]
pub enum Entity {
    Users,
    Messages,
    Contacts,
    AuthTokens,
    Groups,
    GroupMembers,
    GroupContacts,
    GroupMessages,
}

/// The constraint a rejected write ran into.
#[derive(Debug, Clone, Copy, PartialEq, Eq, Structural)]
pub enum Constraint {
    /// A user with the same username already exists.
    UniqueUsername,
    /// A row with the same primary key already exists.
    PrimaryKey,
    /// `sender_id` does not name an existing user.
    FkSender,
    /// `receiver_id` does not name an existing user.
    FkReceiver,
    /// `user_id` does not name an existing user.
    FkUser,
    /// `contact_id` does not name an existing user.
    FkContact,
    /// `created_by` does not name an existing user.
    FkCreator,
    /// `group_id` does not name an existing group.
    FkGroup,
}

/// Everything this subsystem can fail with.
#[derive(Debug)]
pub enum Error {
    /// Two migration steps declare the same version number; detected
    /// before any step runs, and fatal.
    DuplicateVersion(u64),
    /// A step's transformation could not be applied: a table named
    /// `table` already exists with a different shape. Fatal; the version
    /// marker stays at the last fully applied step.
    StepExecutionFailed { version: u64, table: String },
    /// A write violated a uniqueness or foreign-key constraint; the
    /// statement is rejected and the store is unchanged.
    ConstraintViolation { entity: Entity, constraint: Constraint },
}

} // verus!
