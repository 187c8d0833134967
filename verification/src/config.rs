//! The simulation's configuration surface: endpoint, credential, player
//! count, click frequency, run duration, roster file path, and the
//! registration-only flag.

use vstd::prelude::*;

verus! {

/// The configuration of one simulation run.
pub struct CliParser {
    /// URL of the remote API endpoint.
    pub api_endpoint: String,
    /// Credential sent with every request.
    pub api_key: String,
    /// Number of players to simulate.
    pub players: usize,
    /// Clicks per second for each player.
    pub frequency: u64,
    /// How long to run the simulation, in seconds.
    pub duration: u64,
    /// Path of the roster file storing player identities.
    pub config: String,
    /// Only register players, do not start the simulation.
    pub register_only: bool,
}

impl Default for CliParser {
    /// The default run: 100 players clicking 7 times a second for 20
    /// seconds, the roster kept beside the working directory, endpoint and
    /// credential left for the caller to fill in.
    fn default() -> (r: CliParser)
        ensures
            r.api_endpoint@.len() == 0,
            r.api_key@.len() == 0,
            r.players == 100,
            r.frequency == 7,
            r.duration == 20,
            r.config@ == "./simulate_players.config.txt"@,
            !r.register_only,
    {
        CliParser {
            api_endpoint: String::new(),
            api_key: String::new(),
            players: 100,
            frequency: 7,
            duration: 20,
            config: "./simulate_players.config.txt".to_owned(),
            register_only: false,
        }
    }
}

} // verus!
