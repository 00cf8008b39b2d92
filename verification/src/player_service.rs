//! The `IPlayerService` interface.

use vstd::prelude::*;

pub mod get_owned_games;
pub mod laws;

verus! {

/// The name of the interface in request URLs.
pub const INTERFACE: &'static str = "IPlayerService";

} // verus!
