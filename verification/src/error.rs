use vstd::prelude::*;

verus! {

/// The discriminated failure reasons of the operation surface.
///
/// Every operation validates all of its preconditions before mutating
/// anything; the first violated precondition aborts the whole operation with
/// one of these codes and no effect on the state.
#[derive(Clone, Copy, Debug, PartialEq, Eq, Structural)]
pub enum ErrorCode {
    /// Caller identity does not match the recorded owner or role.
    NotAuthorized,
    /// The admin to add is already on the admin list.
    AdminAlreadyExists,
    /// The admin to remove is not on the admin list.
    AdminNotFound,
    /// The admin list is already at its fixed capacity.
    AdminLimitReached,
    /// A user role outside the recognised set.
    InvalidRole,
    /// A project's daily rate must be positive.
    InvalidDailyRate,
    /// A project's duration must be positive.
    InvalidDuration,
    /// A project's labourer capacity must be positive.
    InvalidLabourerCount,
    /// An arithmetic step (escrow sizing, rating aggregation, a counter)
    /// would overflow its value domain.
    CalculationError,
    /// The funding balance cannot cover the required transfer.
    InsufficientFunds,
    /// A token account is not owned by the expected party.
    WrongOwner,
    /// The project is not accepting applications.
    ProjectNotOpen,
    /// The project is already at its labourer capacity.
    ProjectFull,
    /// The labourer's identity record is not active.
    LabourNotActive,
    /// The application is not in the `Pending` state.
    ApplicationNotPending,
    /// A supplied record does not belong to the stated project.
    InvalidProject,
    /// The approved day number does not equal `days_worked + 1`.
    InvalidDaySequence,
    /// A supplied record does not belong to the stated labourer.
    InvalidLabour,
    /// The caller is not the project's manager.
    InvalidManager,
    /// The requested closing status is not a closed status.
    WrongProjectStatus,
    /// The project is already completed or cancelled.
    ProjectNotActive,
    /// The project is still running where a closed one was expected.
    ProjectStillActive,
    /// The assignment is no longer active.
    AssignmentNotActive,
    /// The submitted day number is not the next unworked day.
    InvalidDayNumber,
    /// The work day was already approved by the manager.
    AlreadyVerified,
    /// A rating outside the range 1 to 5.
    InvalidRating,
    /// The escrow account does not belong to the project.
    InvalidEscrowAccount,
    /// An unrecognised token mint was supplied.
    InvalidTokenMint,
    /// The mint does not match the system's configured mint.
    MintMismatch,
    /// A referenced record does not exist in the store.
    RecordNotFound,
    /// A record with the same derived key already exists in the store.
    DuplicateRecord,
}

} // verus!
