//! The envelope in which the service wraps every answer, and the records of
//! registration.

use crate::types::agent::Agent;
use crate::types::faction::FactionSymbol;
use vstd::prelude::*;

verus! {

/// An answer of the service: the data asked for and, for a listing, where its
/// page stands in the whole.
#[derive(Debug)]
pub struct ApiMessage<T> {
    pub data: T,
    pub meta: Option<ApiMeta>,
}

/// Where a page stands in a listing.
#[derive(Clone, Copy, Debug, PartialEq, Eq, Structural)]
pub struct ApiMeta {
    /// The number of entries in the whole listing.
    pub total: u32,
    /// The number of this page, counted from one.
    pub page: u32,
    /// The number of entries on a full page.
    pub limit: u32,
}

/// What a new agent sends to register.
#[derive(Debug)]
pub struct RegistrationRequest {
    pub symbol: String,
    pub faction: FactionSymbol,
}

/// What the service answers to a registration.
#[derive(Debug)]
pub struct RegistrationData {
    pub token: String,
    pub agent: Agent,
}

} // verus!
