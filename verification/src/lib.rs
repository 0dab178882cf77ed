//! Verified core of a transit-cooperative fleet-management service.
//!
//! Cooperatives ("SACCOs") register vehicles (matatus), drivers and routes,
//! and track trips, maintenance, fuel, revenue, expenses, feedback and
//! schedules.  This crate holds the persistent entity store, the monotonic
//! identity allocator, the referential-integrity checks and the derived
//! analytics (financial reports, driver-performance accrual, route
//! optimization and automated scheduling), all with machine-checked
//! contracts.  Monetary amounts are integers in the smallest currency unit;
//! timestamps are integer nanoseconds, as supplied by the caller.

pub mod aggregate;
pub mod analytics;
pub mod entities;
pub mod errors;
pub mod laws;
pub mod perf;
pub mod record;
pub mod schedule;
pub mod store;
pub mod table;

pub use errors::EntityKind;
pub use errors::Message;
