use vstd::prelude::*;

verus! {

/// The role an identity registered under.
#[derive(Clone, Copy, Debug, PartialEq, Eq, Structural)]
pub enum UserRole {
    Labour,
    Manager,
}

/// A project's lifecycle status.
///
/// `Open` until the labourer capacity fills, then `InProgress`; closing
/// moves it to `Completed` or `Cancelled`, and no transition leaves those.
#[derive(Clone, Copy, Debug, PartialEq, Eq, Structural)]
pub enum ProjectStatus {
    Open,
    InProgress,
    Completed,
    Cancelled,
}

/// The status of an application.
#[derive(Clone, Copy, Debug, PartialEq, Eq, Structural)]
pub enum ApplicationStatus {
    Pending,
    Accepted,
    Rejected,
    Withdrawn,
}

/// Which side of the marketplace a review speaks about.
#[derive(Clone, Copy, Debug, PartialEq, Eq, Structural)]
pub enum ReviewType {
    LabourReview,
    ManagerReview,
}

/// A coarse account classification kept alongside the role taxonomy.
#[derive(Clone, Copy, Debug, PartialEq, Eq, Structural)]
pub enum AccountType {
    Labour,
    Manager,
}

/// Global counters and the administrator list.
#[derive(Clone, Debug)]
pub struct SystemState {
    /// Identity allowed to maintain the admin list.
    pub authority: u64,
    /// The configured funding asset.
    pub mint: u64,
    /// Number of registered labour identities.
    pub labour_count: u32,
    /// Number of registered manager identities.
    pub manager_count: u32,
    /// Monotonically increasing project counter; the next project's index.
    pub project_count: u32,
    /// Administrator identities, at most ten, without duplicates.
    pub admins: Vec<u64>,
}

/// An identity record, keyed by its authority.
#[derive(Clone, Debug)]
pub struct UserAccount {
    pub authority: u64,
    pub name: String,
    pub metadata_uri: String,
    pub active: bool,
    pub verified: bool,
    pub rating: u32,
    pub rating_count: u32,
    pub timestamp: i64,
    pub index: u32,
    pub role: UserRole,
    pub spam: bool,
}

/// A project record, keyed by its sequence index.
///
/// Its escrow pool lives in the token ledger under
/// `TokenHolder::ProjectEscrow(index)`.
#[derive(Clone, Debug)]
pub struct Project {
    /// Authority of the manager identity that created the project.
    pub manager: u64,
    pub title: String,
    pub metadata_uri: String,
    /// Wage per fully attested day, positive.
    pub daily_rate: u64,
    /// Number of payable days per labourer, positive.
    pub duration_days: u16,
    /// Labourer capacity, positive and fixed at creation.
    pub max_labourers: u8,
    /// Number of labourers currently assigned, never above the capacity.
    pub labour_count: u8,
    pub status: ProjectStatus,
    pub timestamp: i64,
    /// Position of this record in the project store.
    pub index: u32,
}

/// A rating left by one identity about another, keyed by the pair.
#[derive(Clone, Debug)]
pub struct Review {
    pub reviewer: u64,
    pub reviewee: u64,
    pub rating: u8,
    pub context: String,
    pub timestamp: i64,
    pub review_type: ReviewType,
}

/// A labourer's application to a project, keyed by the pair.
#[derive(Clone, Debug)]
pub struct Application {
    pub labour: u64,
    pub project: u32,
    pub description: String,
    pub status: ApplicationStatus,
    pub timestamp: i64,
}

/// The binding of one labourer to one project, created at application
/// approval and keyed by the pair.
#[derive(Clone, Debug)]
pub struct Assignment {
    pub labour: u64,
    pub project: u32,
    /// Fully processed days; `days_paid <= days_worked <= duration_days`.
    pub days_worked: u16,
    pub days_paid: u16,
    pub active: bool,
    pub timestamp: i64,
}

/// One day's dual-attestation record, keyed by (project, labourer, day).
#[derive(Clone, Debug)]
pub struct WorkVerification {
    pub project: u32,
    pub labour: u64,
    /// One-based, strictly sequential per assignment.
    pub day_number: u16,
    pub manager_verified: bool,
    pub labour_verified: bool,
    pub metadata_uri: String,
    pub timestamp: i64,
    /// Set together with the single wage transfer for this day.
    pub payment_processed: bool,
}

} // verus!
