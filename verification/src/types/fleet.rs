//! The parts that a ship is built from. The service describes them in more detail
//! than this library reads: each is kept as a record without fields.

use vstd::prelude::*;

verus! {

/// The symbol that names a ship.
pub type ShipSymbol = String;

/// The frame of a ship.
#[derive(Debug)]
pub struct ShipFrame {}

/// The reactor of a ship.
#[derive(Debug)]
pub struct ShipReactor {}

/// The engine of a ship.
#[derive(Debug)]
pub struct ShipEngine {}

/// A module installed in a ship.
#[derive(Debug)]
pub struct ShipModule {}

/// A mount installed on a ship.
#[derive(Debug)]
pub struct ShipMount {}

} // verus!
