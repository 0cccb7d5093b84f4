//! Verified core of a DHCP reporting pipeline.
//!
//! A report request names a report kind and carries optional time and
//! free-text filters.  The library assembles the matching search request
//! (shared filters, a report-specific discriminator filter, and a bucket
//! aggregation tree), and, given the event store's response document,
//! decodes the nested bucket aggregations and flattens them into the
//! report's record list, wrapped in a `{"data": [...]}` envelope.
//! The store round trip itself is I/O and stays with the caller.

pub mod json;
pub mod query;
pub mod report;
pub mod walker;
