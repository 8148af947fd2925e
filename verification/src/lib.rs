pub mod achievement_fetch;
pub mod completion;
pub mod db;
pub mod game_fetch;
pub mod game_list;
pub mod goals;
mod seq_facts;

use vstd::prelude::*;

verus! {

/// Typed failures surfaced by the engine: upstream data that contradicts
/// itself, or a response whose shape is not the one the upstream schema
/// promises.
#[derive(Clone, Copy, Debug, PartialEq, Eq, Structural)]
pub enum EngineError {
    /// An achievement key was present in player state but absent from the
    /// game's schema, or a stored identifier had no matching row.
    DataInconsistency,
    /// An upstream response was missing a field that a successful response
    /// always carries.
    MalformedResponse,
}

} // verus!
