//! The records that the remote service exchanges.

pub mod agent;
pub mod api;
pub mod contract;
pub mod faction;
pub mod fleet;
pub mod system;
pub mod system_symbol;

pub use agent::{Agent, AgentSymbol};
pub use api::{ApiMessage, ApiMeta, RegistrationData, RegistrationRequest};
pub use contract::{Contract, ContractType};
pub use faction::{Faction, FactionReference, FactionSymbol, FactionTrait, FactionTraitSymbol};
pub use fleet::{ShipEngine, ShipFrame, ShipModule, ShipMount, ShipReactor, ShipSymbol};
pub use system::{
    Chart, Coordinates, Market, MarketGood, MarketGoodSymbol, MarketTradeGood, Orbital,
    SupplyType, System, SystemType, Timestamp, TradeType, Trait, Transaction, Waypoint,
    WaypointReference, WaypointTraitSymbol, WaypointType,
};
pub use system_symbol::{SectorSymbol, SystemError, SystemSymbol, WaypointSymbol};
