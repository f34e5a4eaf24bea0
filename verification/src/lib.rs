//! Recurring-payment / billing-status engine for a student tuition tracker.
//!
//! The heart of the crate is the trio of pure calculators — expected amount,
//! next due date, payment status — together with an in-memory billing ledger
//! that keeps a student's aggregate `paid_amount` equal to the sum of the
//! recorded payment transactions, and a batch recomputer offered in two
//! equivalent strategies. All date arithmetic is done on plain
//! year/month/day values; "today" is always an explicit argument, so every
//! computation is a deterministic function of its inputs.

pub mod attendance;
pub mod batch;
pub mod clock;
pub mod date;
pub mod error;
pub mod export;
pub mod groups;
pub mod history;
pub mod laws;
pub mod ledger;
pub mod payment;
pub mod scanner;
pub mod settings;
pub mod student;
pub mod summary;
pub mod text;
