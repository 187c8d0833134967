//! Teams and the team-balancing rule used at player registration.
//!
//! A new player is assigned to a team with the globally fewest players;
//! in particular any team that still has zero players is preferred, since
//! zero is the minimum. Ties go to the first such team in declaration
//! order, which the registration rule leaves open.

use vstd::prelude::*;

use crate::text::str_eq;

verus! {

/// The four backend teams a player can be assigned to.
#[derive(Clone, Copy, Debug, PartialEq, Eq, Structural)]
pub enum Team {
    Rust,
    Python,
    Js,
    Vtl,
}

/// How many players each team currently has.
#[derive(Clone, Copy, Debug, PartialEq, Eq, Structural)]
pub struct TeamCounts {
    pub rust: usize,
    pub python: usize,
    pub js: usize,
    pub vtl: usize,
}

impl TeamCounts {
    /// The count stored for one team.
    pub open spec fn spec_count_of(self, t: Team) -> int {
        match t {
            Team::Rust => self.rust as int,
            Team::Python => self.python as int,
            Team::Js => self.js as int,
            Team::Vtl => self.vtl as int,
        }
    }
}

/// The team a new player is assigned to: the first team, in declaration
/// order, whose player count is minimal.
pub open spec fn spec_choose_team(c: TeamCounts) -> Team {
    if c.rust <= c.python && c.rust <= c.js && c.rust <= c.vtl {
        Team::Rust
    } else if c.python <= c.js && c.python <= c.vtl {
        Team::Python
    } else if c.js <= c.vtl {
        Team::Js
    } else {
        Team::Vtl
    }
}

/// Picks the team for a new player: one with the globally fewest players,
/// so an unused team (count zero) is always preferred when one exists.
pub fn choose_team(c: &TeamCounts) -> (r: Team)
    ensures
        r == spec_choose_team(*c),
        forall|t: Team| c.spec_count_of(r) <= c.spec_count_of(t),
{
    proof {
        assert forall|t: Team|
            c.spec_count_of(spec_choose_team(*c)) <= #[trigger] c.spec_count_of(t) by {
            match t {
                Team::Rust => {},
                Team::Python => {},
                Team::Js => {},
                Team::Vtl => {},
            }
        }
    }
    if c.rust <= c.python && c.rust <= c.js && c.rust <= c.vtl {
        Team::Rust
    } else if c.python <= c.js && c.python <= c.vtl {
        Team::Python
    } else if c.js <= c.vtl {
        Team::Js
    } else {
        Team::Vtl
    }
}

/// The wire name of a team, as the roster file and the remote API spell
/// it.
pub open spec fn spec_team_name(t: Team) -> Seq<char> {
    match t {
        Team::Rust => "RUST"@,
        Team::Python => "PYTHON"@,
        Team::Js => "JS"@,
        Team::Vtl => "VTL"@,
    }
}

/// The wire name of a team.
pub fn team_name(t: Team) -> (r: &'static str)
    ensures
        r@ == spec_team_name(t),
{
    match t {
        Team::Rust => "RUST",
        Team::Python => "PYTHON",
        Team::Js => "JS",
        Team::Vtl => "VTL",
    }
}

/// Whether a string is one of the four team names.
pub open spec fn known_team(s: Seq<char>) -> bool {
    ||| s == "RUST"@
    ||| s == "PYTHON"@
    ||| s == "JS"@
    ||| s == "VTL"@
}

/// The team a wire name denotes, `None` for an unknown name.
pub fn team_from_name(s: &str) -> (r: Option<Team>)
    ensures
        r is Some <==> known_team(s@),
        r is Some ==> spec_team_name(r->0) == s@,
{
    if str_eq(s, "RUST") {
        Some(Team::Rust)
    } else if str_eq(s, "PYTHON") {
        Some(Team::Python)
    } else if str_eq(s, "JS") {
        Some(Team::Js)
    } else if str_eq(s, "VTL") {
        Some(Team::Vtl)
    } else {
        None
    }
}

/// The click mutation a team's players call.
pub open spec fn spec_click_mutation(team: Seq<char>) -> Seq<char> {
    if team == "RUST"@ {
        "clickRust"@
    } else if team == "PYTHON"@ {
        "clickPython"@
    } else if team == "JS"@ {
        "clickJs"@
    } else {
        "clickVtl"@
    }
}

/// The name of the click mutation for a team, which routes each player's
/// clicks to that team's backend. The team name must be one of the four
/// known teams.
pub fn click_mutation_for_team(team: &str) -> (r: &'static str)
    requires
        known_team(team@),
    ensures
        r@ == spec_click_mutation(team@),
{
    if str_eq(team, "RUST") {
        "clickRust"
    } else if str_eq(team, "PYTHON") {
        "clickPython"
    } else if str_eq(team, "JS") {
        "clickJs"
    } else {
        "clickVtl"
    }
}

/// The latency-report mutation a team's players call.
pub open spec fn spec_report_mutation(team: Seq<char>) -> Seq<char> {
    if team == "RUST"@ {
        "reportLatencyRust"@
    } else if team == "PYTHON"@ {
        "reportLatencyPython"@
    } else if team == "JS"@ {
        "reportLatencyJs"@
    } else {
        "reportLatencyVtl"@
    }
}

/// The name of the latency-report mutation for a team. The team name must
/// be one of the four known teams.
pub fn report_mutation_for_team(team: &str) -> (r: &'static str)
    requires
        known_team(team@),
    ensures
        r@ == spec_report_mutation(team@),
{
    if str_eq(team, "RUST") {
        "reportLatencyRust"
    } else if str_eq(team, "PYTHON") {
        "reportLatencyPython"
    } else if str_eq(team, "JS") {
        "reportLatencyJs"
    } else {
        "reportLatencyVtl"
    }
}

} // verus!
