//! Core of an IRC channel-search bot: a structured search request parsed from
//! command tokens, a cached channel listing with an expiration policy, and a
//! refresh coordinator that keeps concurrent queries from triggering redundant
//! listing refreshes.

use vstd::prelude::*;

pub mod channel;
pub mod coordinator;
pub mod listing;
pub mod messages;
pub mod pattern;
pub mod request;
pub mod text;

verus! {

/// A request text that does not follow the `list` command's grammar, or names
/// a pattern or a numeric bound that does not parse.
#[derive(Clone, Copy, PartialEq, Eq, Structural, Debug)]
pub struct UsageError;

/// A listing record from the server that does not decode into a channel entry.
#[derive(Clone, Copy, PartialEq, Eq, Structural, Debug)]
pub struct ParseError;

} // verus!
