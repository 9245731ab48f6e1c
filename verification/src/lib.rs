//! Synchronizes email-forwarding routing rules on a remote zone against a
//! desired set of aliases parsed from an export file.
//!
//! The crate holds the synchronization core: alias extraction from two export
//! schemas, paginated enumeration of remote rules with the catch-all rule
//! filtered out, payload construction for bulk creation, and the decision
//! logic of the bounded-concurrency delete and create fan-outs. Network and
//! file transfer stay with the caller, which hands the core plain values.
pub mod alias_map;
pub mod csv_table;
pub mod deleter;
pub mod errors;
pub mod extract;
pub mod fanout;
pub mod importer;
pub mod lister;
pub mod requests;
pub mod rules;
pub mod text;
