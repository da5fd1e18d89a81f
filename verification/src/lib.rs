//! Core of a columnar table engine's indexing subsystem.
//!
//! The crate holds two index families and their shared plumbing:
//! a flat scalar index that answers SARGable predicates over a column of
//! values paired with stable row identifiers, and a product quantizer that
//! compresses high-dimensional vectors into compact codes and prepares the
//! lookup tables used for bulk approximate-distance evaluation.  Around them
//! stand the residual transform that rewrites vectors as offsets from their
//! coarse centroid, and the manifest feature-flag gate that decides whether a
//! reader or writer may open a table.

pub mod error;
pub mod feature_flags;
pub mod flat;
pub mod pq;
pub mod residual;
pub mod row_ids;
pub mod schema;
