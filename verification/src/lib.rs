//! Core logic of a field-service tracking application: reconciling
//! worker-to-job assignments, aggregating per-shift payroll data,
//! fixed-point money handling, calendar arithmetic for pay periods,
//! and role-based access decisions.

pub mod assign;
pub mod auth;
pub mod checkinout;
pub mod dates;
pub mod errors;
pub mod idlist;
pub mod joblist;
pub mod money;
pub mod payroll;
pub mod text;
pub mod worker_admin;
