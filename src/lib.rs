//! Splits a roster of ten players into two five-person teams, one player per
//! positional role, and keeps an archive of strictly improving candidate splits.

mod chance;
pub mod error;
pub mod player;
pub mod scoring;
pub mod search;
pub mod team;

pub use error::MatchError;
pub use player::{check_roster, holds_role, remove_role, PlayerDetails, ROSTER_SIZE};
pub use scoring::{comfort_penalty, has_captain, satisfaction};
pub use search::{score_less, SearchDriver, Solution, UNBEATEN};
pub use team::{generate_scenario, handle_team, try_handle_team, RoleAssignment, Team, MAX_ATTEMPTS};
