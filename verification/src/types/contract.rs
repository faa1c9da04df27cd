//! Contracts that factions offer to agents.

use crate::types::faction::FactionSymbol;
use vstd::prelude::*;

verus! {

/// The kinds of contract.
#[derive(Clone, Copy, Debug, PartialEq, Eq, Structural)]
pub enum ContractType {
    Procurement,
}

/// A contract offered by a faction.
#[derive(Debug)]
pub struct Contract {
    pub id: String,
    pub faction_symbol: FactionSymbol,
    pub contract_type: ContractType,
}

} // verus!
