//! Cross-check hashing of structured values.
//!
//! Two programs that build the same data can be compared by the hashes of
//! their values. A record or an enum carries annotations that say, for the
//! type and for each field, how a value is to be hashed: a field can be
//! skipped, hashed by its contents, by its raw bits, by a function of its
//! own, or structurally, one level further down.
//!
//! - [`meta`] holds annotations as they are written, and [`args`] the
//!   arguments that they stand for, by name.
//! - [`parse`] reads annotations into arguments.
//! - [`policy`] resolves arguments into one policy per field and one per
//!   type. This is done once for a type, and a fault in the annotations is
//!   an [`error::ConfigError`], never a silent default.
//! - [`hash`] hashes a live value under the policies: it feeds the fields to
//!   one accumulator in declaration order and gives the 64 bits that the
//!   accumulator ends with.

pub mod args;
pub mod error;
pub mod hash;
pub mod meta;
pub mod parse;
pub mod policy;
