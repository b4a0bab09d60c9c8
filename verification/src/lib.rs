//! A labour marketplace with escrow-backed, day-by-day wage payment.
//!
//! A manager funds a project's wage pool up front; labourers apply, are
//! assigned up to the project's capacity, and submit daily work attestations.
//! A labourer is paid for a day exactly once, and only after both the
//! labourer and the manager have attested that day's work. Closing a project
//! returns the residual escrow to the manager.
//!
//! The whole system is modelled as a single state value ([`engine::DlmsState`])
//! holding the record store (users, projects, applications, assignments,
//! work verifications, reviews) and the token ledger. Every operation is a
//! pure, all-or-nothing state transition: it validates all preconditions
//! against the current state and either commits all of its effects or
//! returns the first violated precondition as an [`error::ErrorCode`],
//! leaving the state untouched.

pub mod error;
pub mod engine;
pub mod laws;
pub mod ledger;
pub mod lifecycle;
pub mod payroll;
pub mod states;
