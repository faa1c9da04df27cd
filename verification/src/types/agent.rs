//! The player's agent.

use vstd::prelude::*;

verus! {

/// The symbol that names an agent.
pub type AgentSymbol = String;

/// An agent: the player's identity in the game.
#[derive(Debug)]
pub struct Agent {
    pub account_id: String,
    pub symbol: String,
    pub headquarters: String,
    pub credits: u64,
}

} // verus!
