//! Append-only conversation records on a shared ledger: two-party message
//! threads and one-to-many broadcast channels with subscriptions.
//!
//! Every record lives at a storage address derived deterministically from a
//! domain tag and the record's identifying inputs. Every state-changing
//! operation checks that the caller is an authorized principal, that message
//! sequence numbers advance strictly and without gaps, and that creation and
//! destruction of records manage the storage deposit; a rejected operation
//! leaves the store exactly as it was.

pub mod addresses;
pub mod errors;
pub mod keys;
pub mod laws;
pub mod ledger;
pub mod records;
