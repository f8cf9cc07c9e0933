//! A forum of hierarchical categories, threads and posts, kept as an explicit
//! state value and changed by commands that either succeed as a whole or fail
//! with a typed error and leave the state untouched.
//!
//! Every command takes the caller's account and, where it stamps a record,
//! the block height and time at which it runs; the host ledger verifies the
//! caller and supplies the time. Membership is decided by a
//! [`records::ForumUserRegistry`].
//!
//! - [`forum`]: the state, its invariant, and the checks shared by commands;
//! - [`category`]: creating categories and changing their flags;
//! - [`ledger`]: threads and posts, edits and moderation;
//! - [`validation`] and [`constraint`]: length bounds on user text;
//! - [`numbering`]: sequence numbers that run from 1 without gaps;
//! - [`laws`]: properties of every well-formed state and every command;
//! - [`samples`]: sample inputs and a sample configuration.
use vstd::prelude::*;

pub mod category;
pub mod constraint;
pub mod error;
pub mod forum;
pub mod laws;
pub mod ledger;
pub mod numbering;
pub mod records;
pub mod samples;
pub mod validation;

verus! {

/// Account of a caller, as verified by the host ledger.
pub type AccountId = u64;

/// Height of the block in which a call is executed.
pub type BlockNumber = u64;

/// Wall-clock time of the block in which a call is executed.
pub type Moment = u64;

/// Identifier of a category.
pub type CategoryId = u64;

/// Identifier of a thread.
pub type ThreadId = u64;

/// Identifier of a post.
pub type PostId = u64;

} // verus!
