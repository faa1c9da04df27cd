//! Systems, the waypoints in them, and the markets at waypoints.

use crate::types::faction::FactionReference;
use crate::types::fleet::ShipSymbol;
use crate::types::system_symbol::{
    find_hyphens, hyphen_positions, prefix, sector_of, system_of, SectorSymbol, SystemError,
    SystemSymbol, WaypointSymbol,
};
use vstd::prelude::*;

verus! {

/// The symbol that names a good traded at markets.
pub type MarketGoodSymbol = String;

/// The symbol that names a trait of a waypoint.
pub type WaypointTraitSymbol = String;

/// An instant on the service's clock: whole seconds since the Unix epoch, and the
/// nanoseconds past them.
#[derive(Clone, Copy, Debug, PartialEq, Eq, Structural)]
pub struct Timestamp {
    pub seconds: i64,
    pub nanoseconds: u32,
}

/// A star system.
#[derive(Debug)]
pub struct System {
    pub symbol: SystemSymbol,
    pub sector_symbol: SectorSymbol,
    pub system_type: SystemType,
    pub x: i64,
    pub y: i64,
    pub waypoints: Vec<WaypointReference>,
    pub factions: Vec<FactionReference>,
}

/// A waypoint as a system lists it.
#[derive(Debug)]
pub struct WaypointReference {
    pub symbol: WaypointSymbol,
    pub waypoint_type: WaypointType,
    pub x: i64,
    pub y: i64,
}

/// A trait of a waypoint.
#[derive(Debug)]
pub struct Trait {
    pub symbol: String,
    pub name: String,
    pub description: String,
}

/// A waypoint in full.
#[derive(Debug)]
pub struct Waypoint {
    pub reference: WaypointReference,
    pub system_symbol: SystemSymbol,
    pub orbitals: Vec<Orbital>,
    pub faction: Option<FactionReference>,
    pub traits: Vec<Trait>,
    pub chart: Option<Chart>,
}

/// Whether one of `traits` carries the symbol `MARKETPLACE`.
pub open spec fn has_marketplace(traits: Seq<Trait>) -> bool {
    exists|i: int| 0 <= i < traits.len() && (#[trigger] traits[i]).symbol@ == "MARKETPLACE"@
}

impl Waypoint {
    /// Whether goods are traded at the waypoint: whether one of its traits is
    /// `MARKETPLACE`.
    pub fn is_market(&self) -> (market: bool)
        ensures
            market == has_marketplace(self.traits@),
    {
        let marketplace: String = "MARKETPLACE".to_owned();
        let mut i: usize = 0;
        while i < self.traits.len()
            invariant
                i <= self.traits.len(),
                marketplace@ == "MARKETPLACE"@,
                forall|j: int| 0 <= j < i ==> (#[trigger] self.traits@[j]).symbol@ != marketplace@,
            decreases self.traits.len() - i,
        {
            if self.traits[i].symbol == marketplace {
                return true;
            }
            i = i + 1;
        }
        false
    }
}

/// A body that orbits a waypoint.
#[derive(Debug)]
pub struct Orbital {
    pub symbol: String,
}

/// Who charted a waypoint, and when.
#[derive(Debug)]
pub struct Chart {
    pub waypoint_symbol: Option<WaypointSymbol>,
    pub submitted_by: String,
    pub submitted_on: Timestamp,
}

/// The market at a waypoint.
#[derive(Debug)]
pub struct Market {
    pub symbol: WaypointSymbol,
    pub imports: Vec<MarketGood>,
    pub exports: Vec<MarketGood>,
    pub exchange: Vec<MarketGood>,
    pub transactions: Vec<Transaction>,
    pub trade_goods: Vec<MarketTradeGood>,
}

/// A good that a market deals in.
#[derive(Debug)]
pub struct MarketGood {
    pub symbol: MarketGoodSymbol,
    pub name: String,
    pub description: String,
}

/// A trade that took place at a market.
#[derive(Debug)]
pub struct Transaction {
    pub waypoint_symbol: WaypointSymbol,
    pub ship_symbol: ShipSymbol,
    pub trade_symbol: MarketGoodSymbol,
    pub trade_type: TradeType,
    pub units: u64,
    pub price_per_unit: u64,
    pub total_price: u64,
    pub timestamp: Timestamp,
}

/// What a market asks and offers for a good.
#[derive(Debug)]
pub struct MarketTradeGood {
    pub symbol: MarketGoodSymbol,
    pub trade_volume: u64,
    pub supply: SupplyType,
    pub purchase_price: u64,
    pub sell_price: u64,
}

/// The kinds of star system.
#[derive(Clone, Copy, Debug, PartialEq, Eq, Structural)]
pub enum SystemType {
    NeutronStar,
    RedStar,
    OrangeStar,
    BlueStar,
    YoungStar,
    WhiteDwarf,
    BlackHole,
    Hypergiant,
    Nebula,
    Unstable,
}

/// The kinds of waypoint.
#[derive(Clone, Copy, Debug, PartialEq, Eq, Structural)]
pub enum WaypointType {
    Planet,
    GasGiant,
    Moon,
    OrbitalStation,
    JumpGate,
    AsteroidField,
    Nebula,
    DebrisField,
    GravityWell,
}

/// The two sides of a trade.
#[derive(Clone, Copy, Debug, PartialEq, Eq, Structural)]
pub enum TradeType {
    Purchase,
    Sell,
}

/// How much of a good a market has.
#[derive(Clone, Copy, Debug, PartialEq, Eq, Structural)]
pub enum SupplyType {
    Scarce,
    Limited,
    Moderate,
    Abundant,
}

/// The coordinates of a waypoint: its symbol, read as sector, system and
/// waypoint.
#[derive(Debug, PartialEq, Eq)]
pub struct Coordinates {
    sector: String,
    system: String,
    waypoint: String,
}

impl View for Coordinates {
    type V = Seq<char>;

    closed spec fn view(&self) -> Seq<char> {
        self.waypoint@
    }
}

impl Clone for Coordinates {
    fn clone(&self) -> (copy: Self)
        ensures
            copy@ == self@,
    {
        proof {
            use_type_invariant(self);
        }
        Coordinates {
            sector: self.sector.clone(),
            system: self.system.clone(),
            waypoint: self.waypoint.clone(),
        }
    }
}

impl Coordinates {
    #[verifier::type_invariant]
    spec fn inv(&self) -> bool {
        &&& hyphen_positions(self.waypoint@).len() == 2
        &&& self.sector@ == sector_of(self.waypoint@)
        &&& self.system@ == system_of(self.waypoint@)
    }

    /// Reads `s` as the coordinates of a waypoint, which it is if it has two
    /// hyphens.
    pub fn new(s: &str) -> (coordinates: Result<Coordinates, SystemError>)
        ensures
            coordinates is Ok <==> hyphen_positions(s@).len() == 2,
            coordinates matches Ok(place) ==> place@ == s@,
    {
        let cuts: Vec<usize> = find_hyphens(s);
        if cuts.len() == 2 {
            Ok(
                Coordinates {
                    sector: prefix(s, cuts[0]),
                    system: prefix(s, cuts[1]),
                    waypoint: s.to_owned(),
                },
            )
        } else {
            Err(SystemError::InvalidCoordinates)
        }
    }

    /// The symbol of the sector.
    pub fn sector(&self) -> (text: &str)
        ensures
            text@ == sector_of(self@),
    {
        proof {
            use_type_invariant(self);
        }
        self.sector.as_str()
    }

    /// The symbol of the system.
    pub fn system(&self) -> (text: &str)
        ensures
            text@ == system_of(self@),
    {
        proof {
            use_type_invariant(self);
        }
        self.system.as_str()
    }

    /// The symbol of the waypoint.
    pub fn waypoint(&self) -> (text: &str)
        ensures
            text@ == self@,
            hyphen_positions(self@).len() == 2,
    {
        proof {
            use_type_invariant(self);
        }
        self.waypoint.as_str()
    }

    /// The symbol of the waypoint as an owned string.
    pub fn into_string(self) -> (text: String)
        ensures
            text@ == self@,
    {
        self.waypoint
    }
}

} // verus!
