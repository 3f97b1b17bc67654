//! Admin routes on groups.

use vstd::prelude::*;

verus! {

/// What converting a group to a developer group does.
#[derive(Debug, PartialEq, Eq, Structural)]
pub enum ConvertDeveloperStep {
    /// The group's team is already a developer team: nothing.
    AlreadyDeveloper,
    /// Create the developer team of `team_id` and wait for the team update.
    CreateDeveloperTeam { team_id: u128 },
}

/// Converts a group to a developer group, given how many developer teams
/// the lookup of the group found.
pub fn convert_developer(group_id: u128, dev_teams_found: usize) -> (step: ConvertDeveloperStep)
    ensures
        dev_teams_found > 0 ==> step == ConvertDeveloperStep::AlreadyDeveloper,
        dev_teams_found == 0 ==> step == (ConvertDeveloperStep::CreateDeveloperTeam { team_id: group_id }),
{
    if dev_teams_found > 0 {
        ConvertDeveloperStep::AlreadyDeveloper
    } else {
        ConvertDeveloperStep::CreateDeveloperTeam { team_id: group_id }
    }
}

} // verus!
