use vstd::prelude::*;

verus! {

/// Why a step of the search did not produce a result.
#[derive(Debug, Clone, Copy, PartialEq, Eq, Structural)]
pub enum MatchError {
    /// A player is unwilling to take any role that is still open.
    RoleUnavailable,
    /// Every attempt at assembling a team ran into an unavailable role.
    AssemblyExhausted,
    /// The roster does not hold exactly ten players.
    RosterSize,
}

} // verus!
