//! Client-side logic for the TSM configfs attestation interface.
//!
//! The kernel exposes attestation reports and runtime measurement
//! registers (RTMRs) as directories of byte-stream attributes.  This
//! crate holds the protocol logic: path addressing, the write-then-read
//! report retrieval protocol guarded by a generation counter, and the
//! RTMR search-or-create workflow.  All filesystem access goes through
//! the [`client::StoragePort`] trait; the binary supplies a real
//! filesystem implementation, tests supply scripted ones.

pub mod client;
pub mod num;
pub mod report;
pub mod rtmr;
pub mod tsm;
