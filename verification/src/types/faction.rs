//! Factions and what distinguishes them.

use crate::types::system_symbol::WaypointSymbol;
use vstd::prelude::*;

verus! {

/// The symbol that names a faction.
pub type FactionSymbol = String;

/// The symbol that names a trait of a faction.
pub type FactionTraitSymbol = String;

/// A faction of the game.
#[derive(Debug)]
pub struct Faction {
    pub symbol: FactionSymbol,
    pub name: String,
    pub description: String,
    pub headquarters: WaypointSymbol,
    pub traits: Vec<FactionTrait>,
    pub is_recruiting: bool,
}

/// A faction, by its symbol alone.
#[derive(Debug)]
pub struct FactionReference {
    pub symbol: FactionSymbol,
}

/// A trait of a faction.
#[derive(Debug)]
pub struct FactionTrait {
    pub symbol: String,
    pub name: String,
    pub description: String,
}

} // verus!
