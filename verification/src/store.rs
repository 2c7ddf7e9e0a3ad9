//! The records the score store keeps: identity links and scores.

use vstd::prelude::*;

verus! {

/// A link between a game identity and a community identity.
#[derive(Debug, Clone, Copy, PartialEq, Eq, Structural)]
pub struct SteamID {
    pub steamid: i64,
    pub discordid: i64,
}

/// One stored score: who, on which map, with which car (where known), and
/// the score itself (where known).
#[derive(Debug, Clone)]
pub struct Score {
    pub steamid: i64,
    pub map: String,
    pub car: Option<String>,
    pub score: Option<i64>,
}

} // verus!
