//! A model of the game's shared store and the conditional updates the
//! server applies to it.
//!
//! The store holds the game-status singleton and one record per player.
//! Every mutating operation mirrors a conditional write: it states exactly
//! when it succeeds, and a rejected operation leaves the store unchanged.
//! Player ids and secrets are opaque unique tokens; the model carries them
//! as plain integers.

use vstd::prelude::*;

use crate::stats::click_increment;
use crate::stats::merge_latency;
use crate::stats::spec_clicks_or_zero;
use crate::stats::spec_merge;
use crate::stats::LatencyReport;
use crate::stats::LatencyStats;
use crate::status::GameStatus;
use crate::team::spec_choose_team;
use crate::team::Team;
use crate::team::TeamCounts;

verus! {

/// Why the store rejected an operation. A secret mismatch is reported as
/// `NotFound`, exactly as a conditional write cannot tell a missing record
/// from a failed condition on it.
#[derive(Clone, Copy, Debug, PartialEq, Eq, Structural)]
pub enum Rejected {
    /// No record for the player id, or the presented secret does not
    /// match, or a compare-and-swap found the stored value changed.
    NotFound,
    /// The game is not in the `Started` state.
    InvalidGameStatus,
    /// The stored status is not the unique predecessor of the target.
    InvalidTransition,
    /// A registration found the player id already taken.
    AlreadyExists,
}

/// One player's stored record.
pub struct PlayerRecord {
    pub id: u64,
    pub name: String,
    pub team: Team,
    pub secret: u64,
    pub clicks: Option<u64>,
    pub latency: LatencyStats,
}

impl PlayerRecord {
    /// A stored record is well formed when its latency pair is.
    pub open spec fn wf(self) -> bool {
        self.latency.wf()
    }
}

impl Clone for PlayerRecord {
    fn clone(&self) -> (r: Self)
        ensures
            r == *self,
    {
        PlayerRecord {
            id: self.id,
            name: self.name.clone(),
            team: self.team,
            secret: self.secret,
            clicks: self.clicks,
            latency: self.latency,
        }
    }
}

/// How many of the given players are on team `t`.
pub open spec fn spec_team_count(s: Seq<PlayerRecord>, t: Team) -> nat
    decreases s.len(),
{
    if s.len() == 0 {
        0
    } else {
        spec_team_count(s.drop_last(), t) + if s.last().team == t {
            1nat
        } else {
            0nat
        }
    }
}

/// A team's player count never exceeds the number of players.
proof fn lemma_team_count_le_len(s: Seq<PlayerRecord>, t: Team)
    ensures
        spec_team_count(s, t) <= s.len(),
    decreases s.len(),
{
    if s.len() > 0 {
        lemma_team_count_le_len(s.drop_last(), t);
    }
}

/// The team the registration rule assigns to the next new player, given
/// the players already stored.
pub open spec fn spec_assigned_team(s: Seq<PlayerRecord>) -> Team {
    spec_choose_team(
        TeamCounts {
            rust: spec_team_count(s, Team::Rust) as usize,
            python: spec_team_count(s, Team::Python) as usize,
            js: spec_team_count(s, Team::Js) as usize,
            vtl: spec_team_count(s, Team::Vtl) as usize,
        },
    )
}

/// The registration rule balances teams: the team assigned to the next
/// new player has no more players than any other team. In particular a
/// team with zero players is always preferred while one exists, since
/// zero is the minimum.
pub proof fn lemma_assigned_team_minimal(s: Seq<PlayerRecord>)
    requires
        s.len() <= usize::MAX,
    ensures
        forall|t: Team|
            spec_team_count(s, spec_assigned_team(s)) <= #[trigger] spec_team_count(s, t),
{
    lemma_team_count_le_len(s, Team::Rust);
    lemma_team_count_le_len(s, Team::Python);
    lemma_team_count_le_len(s, Team::Js);
    lemma_team_count_le_len(s, Team::Vtl);
    assert forall|t: Team|
        spec_team_count(s, spec_assigned_team(s)) <= #[trigger] spec_team_count(s, t) by {
        match t {
            Team::Rust => {},
            Team::Python => {},
            Team::Js => {},
            Team::Vtl => {},
        }
    }
}

/// The game's shared store: the status singleton and the player records.
/// The status starts at `Reset` and only ever moves along the cycle
/// `Reset -> Started -> Stopped -> Reset`.
pub struct GameStore {
    pub status: GameStatus,
    pub players: Vec<PlayerRecord>,
}

impl GameStore {
    /// Player ids are unique and every record is well formed.
    pub open spec fn wf(self) -> bool {
        &&& forall|i: int, j: int|
            0 <= i < j < self.players@.len() ==> #[trigger] self.players@[i].id
                != #[trigger] self.players@[j].id
        &&& forall|i: int| 0 <= i < self.players@.len() ==> (#[trigger] self.players@[i]).wf()
    }

    /// Whether a record with this player id is stored.
    pub open spec fn has_player(self, id: u64) -> bool {
        exists|i: int| 0 <= i < self.players@.len() && (#[trigger] self.players@[i]).id == id
    }

    /// The index of the record with this player id (unique under `wf`).
    pub open spec fn spec_index_of(self, id: u64) -> int {
        choose|i: int| 0 <= i < self.players@.len() && (#[trigger] self.players@[i]).id == id
    }

    /// The stored record for this player id.
    pub open spec fn spec_player(self, id: u64) -> PlayerRecord {
        self.players@[self.spec_index_of(id)]
    }

    /// Whether a record with this id is stored and carries this secret:
    /// the condition every mutating per-player operation checks.
    pub open spec fn authorized(self, id: u64, secret: u64) -> bool {
        self.has_player(id) && self.spec_player(id).secret == secret
    }

    /// Whether the game is currently accepting clicks and reports.
    pub open spec fn started(self) -> bool {
        self.status == GameStatus::Started
    }

    /// An empty store: the status at `Reset`, no players.
    pub fn new() -> (r: GameStore)
        ensures
            r.wf(),
            r.status == GameStatus::Reset,
            r.players@.len() == 0,
    {
        GameStore { status: GameStatus::Reset, players: Vec::new() }
    }

    /// The stored status.
    pub fn current_status(&self) -> (r: GameStatus)
        ensures
            r == self.status,
    {
        self.status
    }

    /// The index of the record with this player id, if any.
    fn find_player(&self, id: u64) -> (r: Option<usize>)
        requires
            self.wf(),
        ensures
            match r {
                Some(i) => i < self.players@.len() && self.players@[i as int].id == id && i
                    == self.spec_index_of(id),
                None => !self.has_player(id),
            },
    {
        let n: usize = self.players.len();
        let mut i: usize = 0;
        while i < n
            invariant
                self.wf(),
                n == self.players@.len(),
                i <= n,
                forall|j: int| 0 <= j < i ==> (#[trigger] self.players@[j]).id != id,
            decreases n - i,
        {
            if self.players[i].id == id {
                proof {
                    assert(self.has_player(id));
                    let w = self.spec_index_of(id);
                    assert(0 <= w < self.players@.len() && self.players@[w].id == id);
                    if w != i as int {
                        if w < i as int {
                            assert(self.players@[w].id != id);
                        } else {
                            assert(self.players@[i as int].id != self.players@[w].id);
                        }
                    }
                    assert(w == i as int);
                }
                return Some(i);
            }
            i += 1;
        }
        None
    }

    /// Changes the game status to `target`.
    ///
    /// The write is conditional: it succeeds exactly when the stored
    /// status is the unique predecessor of `target` in the cycle
    /// `Reset -> Started -> Stopped -> Reset`. A rejected transition
    /// leaves the store unchanged.
    pub fn set_status(&mut self, target: GameStatus) -> (r: Result<GameStatus, Rejected>)
        requires
            old(self).wf(),
        ensures
            final(self).wf(),
            r is Ok <==> old(self).status == target.spec_valid_from(),
            r is Ok ==> r->Ok_0 == target && final(self).status == target
                && final(self).players@ == old(self).players@,
            r is Err ==> r->Err_0 == Rejected::InvalidTransition && *final(self) == *old(self),
    {
        if self.status == target.valid_from_status() {
            self.status = target;
            Ok(target)
        } else {
            Err(Rejected::InvalidTransition)
        }
    }

    /// Applies one click for the player: the game must be `Started` and
    /// the secret must match; the stored click counter is then atomically
    /// set to one more than its prior value (an absent counter counts as
    /// zero). Returns the updated record. A rejected click leaves the
    /// store unchanged.
    pub fn click(&mut self, player_id: u64, secret: u64) -> (r: Result<PlayerRecord, Rejected>)
        requires
            old(self).wf(),
            old(self).has_player(player_id) ==> spec_clicks_or_zero(
                old(self).spec_player(player_id).clicks,
            ) < u64::MAX,
        ensures
            final(self).wf(),
            final(self).status == old(self).status,
            r is Ok <==> old(self).started() && old(self).authorized(player_id, secret),
            r is Err ==> *final(self) == *old(self) && r->Err_0 == (if !old(self).started() {
                Rejected::InvalidGameStatus
            } else {
                Rejected::NotFound
            }),
            r is Ok ==> {
                &&& final(self).players@.len() == old(self).players@.len()
                &&& forall|j: int|
                    0 <= j < old(self).players@.len() ==> final(self).players@[j] == (
                    if old(self).players@[j].id == player_id {
                        PlayerRecord {
                            clicks: Some(
                                (spec_clicks_or_zero(old(self).players@[j].clicks) + 1) as u64,
                            ),
                            ..old(self).players@[j]
                        }
                    } else {
                        old(self).players@[j]
                    })
                &&& r->Ok_0 == final(self).players@[old(self).spec_index_of(player_id)]
            },
    {
        if self.current_status() != GameStatus::Started {
            return Err(Rejected::InvalidGameStatus);
        }
        match self.find_player(player_id) {
            None => Err(Rejected::NotFound),
            Some(i) => {
                if self.players[i].secret != secret {
                    return Err(Rejected::NotFound);
                }
                let cur = self.players[i].clone();
                let updated = PlayerRecord {
                    clicks: Some(click_increment(cur.clicks)),
                    ..cur
                };
                let result = updated.clone();
                self.players[i] = updated;
                Ok(result)
            },
        }
    }

    /// Whether a latency compare-and-swap for this player would be
    /// accepted: the record exists, the secret matches, and the stored
    /// latency pair still equals what the caller last observed.
    pub open spec fn cas_applies(
        self,
        id: u64,
        secret: u64,
        observed: LatencyStats,
    ) -> bool {
        self.authorized(id, secret) && self.spec_player(id).latency == observed
    }

    /// Writes new latency statistics for the player, conditionally: the
    /// write is accepted only if the stored pair still equals exactly the
    /// pair the caller last `observed` (both-absent matching both-absent,
    /// or exact value match) and the secret matches. A rejected write
    /// leaves the store unchanged.
    pub fn latency_cas(
        &mut self,
        player_id: u64,
        secret: u64,
        observed: LatencyStats,
        new_stats: LatencyStats,
    ) -> (r: Result<PlayerRecord, Rejected>)
        requires
            old(self).wf(),
            new_stats.wf(),
        ensures
            final(self).wf(),
            final(self).status == old(self).status,
            r is Ok <==> old(self).cas_applies(player_id, secret, observed),
            r is Err ==> *final(self) == *old(self) && r->Err_0 == Rejected::NotFound,
            r is Ok ==> {
                &&& final(self).players@.len() == old(self).players@.len()
                &&& forall|j: int|
                    0 <= j < old(self).players@.len() ==> final(self).players@[j] == (
                    if old(self).players@[j].id == player_id {
                        PlayerRecord { latency: new_stats, ..old(self).players@[j] }
                    } else {
                        old(self).players@[j]
                    })
                &&& r->Ok_0 == final(self).players@[old(self).spec_index_of(player_id)]
            },
    {
        match self.find_player(player_id) {
            None => Err(Rejected::NotFound),
            Some(i) => {
                if self.players[i].secret != secret {
                    return Err(Rejected::NotFound);
                }
                if self.players[i].latency != observed {
                    return Err(Rejected::NotFound);
                }
                let cur = self.players[i].clone();
                let updated = PlayerRecord { latency: new_stats, ..cur };
                let result = updated.clone();
                self.players[i] = updated;
                Ok(result)
            },
        }
    }

    /// Folds one latency report into the player's stored statistics.
    ///
    /// The game must be `Started` and the secret must match. The new pair
    /// is computed by the merge rule from the pair read out of the store;
    /// when the merge is skipped (a zero new count, the division guard)
    /// the stored record is returned unchanged. The write is a
    /// compare-and-swap against the pair that was read.
    pub fn report_latency(
        &mut self,
        player_id: u64,
        secret: u64,
        report: LatencyReport,
    ) -> (r: Result<PlayerRecord, Rejected>)
        requires
            old(self).wf(),
            old(self).has_player(player_id) ==> {
                &&& old(self).spec_player(player_id).latency.spec_total() + report.total_latency
                    <= u64::MAX
                &&& old(self).spec_player(player_id).latency.spec_count() + report.clicks
                    <= u64::MAX
            },
        ensures
            final(self).wf(),
            final(self).status == old(self).status,
            r is Ok <==> old(self).started() && old(self).authorized(player_id, secret),
            r is Err ==> *final(self) == *old(self) && r->Err_0 == (if !old(self).started() {
                Rejected::InvalidGameStatus
            } else {
                Rejected::NotFound
            }),
            r is Ok ==> match spec_merge(old(self).spec_player(player_id).latency, report) {
                Some(new_stats) => {
                    &&& final(self).players@.len() == old(self).players@.len()
                    &&& forall|j: int|
                        0 <= j < old(self).players@.len() ==> final(self).players@[j] == (
                        if old(self).players@[j].id == player_id {
                            PlayerRecord { latency: new_stats, ..old(self).players@[j] }
                        } else {
                            old(self).players@[j]
                        })
                    &&& r->Ok_0 == final(self).players@[old(self).spec_index_of(player_id)]
                },
                None => *final(self) == *old(self) && r->Ok_0 == old(self).spec_player(player_id),
            },
    {
        if self.current_status() != GameStatus::Started {
            return Err(Rejected::InvalidGameStatus);
        }
        match self.find_player(player_id) {
            None => Err(Rejected::NotFound),
            Some(i) => {
                if self.players[i].secret != secret {
                    return Err(Rejected::NotFound);
                }
                let cur = self.players[i].clone();
                match merge_latency(cur.latency, report) {
                    Some(new_stats) => self.latency_cas(player_id, secret, cur.latency, new_stats),
                    None => Ok(cur),
                }
            },
        }
    }

    /// Resets the game: transitions the status to `Reset` (valid only from
    /// `Stopped`) and clears every player's
    /// click counter and latency statistics, keeping the rest of each
    /// record. A rejected transition leaves the store unchanged and clears
    /// nothing.
    pub fn reset_game(&mut self) -> (r: Result<GameStatus, Rejected>)
        requires
            old(self).wf(),
        ensures
            final(self).wf(),
            r is Ok <==> old(self).status == GameStatus::Stopped,
            r is Err ==> *final(self) == *old(self) && r->Err_0 == Rejected::InvalidTransition,
            r is Ok ==> {
                &&& r->Ok_0 == GameStatus::Reset
                &&& final(self).status == GameStatus::Reset
                &&& final(self).players@.len() == old(self).players@.len()
                &&& forall|j: int|
                    0 <= j < old(self).players@.len() ==> final(self).players@[j] == (PlayerRecord {
                        clicks: None,
                        latency: LatencyStats::Unreported,
                        ..old(self).players@[j]
                    })
            },
    {
        let transition = self.set_status(GameStatus::Reset);
        if let Err(e) = transition {
            return Err(e);
        }
        let ghost orig = self.players@;
        let n: usize = self.players.len();
        let mut i: usize = 0;
        while i < n
            invariant
                n == self.players@.len(),
                orig.len() == n,
                i <= n,
                self.status == GameStatus::Reset,
                forall|j: int|
                    0 <= j < i ==> self.players@[j] == (PlayerRecord {
                        clicks: None,
                        latency: LatencyStats::Unreported,
                        ..orig[j]
                    }),
                forall|j: int| i <= j < n ==> self.players@[j] == orig[j],
            decreases n - i,
        {
            let cur = self.players[i].clone();
            self.players[i] = PlayerRecord {
                clicks: None,
                latency: LatencyStats::Unreported,
                ..cur
            };
            i += 1;
        }
        proof {
            assert forall|a: int, b: int| 0 <= a < b < self.players@.len() implies self.players@[a].id
                != self.players@[b].id by {
                assert(orig[a].id != orig[b].id);
            }
        }
        Ok(GameStatus::Reset)
    }

    /// Registers a new player: the id must not be taken yet; the record is
    /// appended with no clicks and no latency statistics, assigned to a
    /// team with the globally fewest players (an unused team, if any team
    /// is still unused). A rejected registration leaves the store
    /// unchanged.
    pub fn register_new_player(
        &mut self,
        name: String,
        secret: u64,
        id: u64,
    ) -> (r: Result<PlayerRecord, Rejected>)
        requires
            old(self).wf(),
        ensures
            final(self).wf(),
            final(self).status == old(self).status,
            r is Ok <==> !old(self).has_player(id),
            r is Err ==> *final(self) == *old(self) && r->Err_0 == Rejected::AlreadyExists,
            r is Ok ==> final(self).players@ == old(self).players@.push(r->Ok_0) && r->Ok_0
                == (PlayerRecord {
                id,
                name,
                team: spec_assigned_team(old(self).players@),
                secret,
                clicks: None,
                latency: LatencyStats::Unreported,
            }),
    {
        if let Some(_i) = self.find_player(id) {
            return Err(Rejected::AlreadyExists);
        }
        let counts = self.teams_player_count();
        let team = crate::team::choose_team(&counts);
        let record = PlayerRecord {
            id,
            name,
            team,
            secret,
            clicks: None,
            latency: LatencyStats::Unreported,
        };
        let result = record.clone();
        self.players.push(record);
        proof {
            assert forall|a: int, b: int| 0 <= a < b < self.players@.len() implies self.players@[a].id
                != self.players@[b].id by {
                if b == self.players@.len() - 1 {
                    assert(old(self).players@[a].id != id);
                }
            }
        }
        Ok(result)
    }

    /// Renames a player, if the record exists and the secret matches.
    /// Returns the updated record; a rejected rename leaves the store
    /// unchanged.
    pub fn update_player_name(
        &mut self,
        player_id: u64,
        new_name: String,
        secret: u64,
    ) -> (r: Result<PlayerRecord, Rejected>)
        requires
            old(self).wf(),
        ensures
            final(self).wf(),
            final(self).status == old(self).status,
            r is Ok <==> old(self).authorized(player_id, secret),
            r is Err ==> *final(self) == *old(self) && r->Err_0 == Rejected::NotFound,
            r is Ok ==> {
                &&& final(self).players@.len() == old(self).players@.len()
                &&& forall|j: int|
                    0 <= j < old(self).players@.len() ==> final(self).players@[j] == (
                    if old(self).players@[j].id == player_id {
                        PlayerRecord { name: new_name, ..old(self).players@[j] }
                    } else {
                        old(self).players@[j]
                    })
                &&& r->Ok_0 == final(self).players@[old(self).spec_index_of(player_id)]
            },
    {
        match self.find_player(player_id) {
            None => Err(Rejected::NotFound),
            Some(i) => {
                if self.players[i].secret != secret {
                    return Err(Rejected::NotFound);
                }
                let cur = self.players[i].clone();
                let updated = PlayerRecord { name: new_name, ..cur };
                let result = updated.clone();
                self.players[i] = updated;
                Ok(result)
            },
        }
    }

    /// Removes a player's record, returning it; rejected with `NotFound`
    /// when no record has this id, leaving the store unchanged.
    pub fn remove_player(&mut self, player_id: u64) -> (r: Result<PlayerRecord, Rejected>)
        requires
            old(self).wf(),
        ensures
            final(self).wf(),
            final(self).status == old(self).status,
            r is Ok <==> old(self).has_player(player_id),
            r is Err ==> *final(self) == *old(self) && r->Err_0 == Rejected::NotFound,
            r is Ok ==> {
                &&& r->Ok_0 == old(self).spec_player(player_id)
                &&& final(self).players@ == old(self).players@.remove(
                    old(self).spec_index_of(player_id),
                )
            },
    {
        match self.find_player(player_id) {
            None => Err(Rejected::NotFound),
            Some(i) => {
                let removed = self.players.remove(i);
                proof {
                    let orig = old(self).players@;
                    assert forall|a: int, b: int|
                        0 <= a < b < self.players@.len() implies self.players@[a].id
                        != self.players@[b].id by {
                        let oa = if a < i as int { a } else { a + 1 };
                        let ob = if b < i as int { b } else { b + 1 };
                        assert(orig[oa].id != orig[ob].id);
                    }
                }
                Ok(removed)
            },
        }
    }

    /// Counts the players currently on each team.
    pub fn teams_player_count(&self) -> (r: TeamCounts)
        ensures
            r.rust == spec_team_count(self.players@, Team::Rust),
            r.python == spec_team_count(self.players@, Team::Python),
            r.js == spec_team_count(self.players@, Team::Js),
            r.vtl == spec_team_count(self.players@, Team::Vtl),
    {
        let n: usize = self.players.len();
        let mut counts = TeamCounts { rust: 0, python: 0, js: 0, vtl: 0 };
        let mut i: usize = 0;
        while i < n
            invariant
                n == self.players@.len(),
                i <= n,
                counts.rust == spec_team_count(self.players@.take(i as int), Team::Rust),
                counts.python == spec_team_count(self.players@.take(i as int), Team::Python),
                counts.js == spec_team_count(self.players@.take(i as int), Team::Js),
                counts.vtl == spec_team_count(self.players@.take(i as int), Team::Vtl),
            decreases n - i,
        {
            proof {
                lemma_team_count_le_len(self.players@.take(i as int), Team::Rust);
                lemma_team_count_le_len(self.players@.take(i as int), Team::Python);
                lemma_team_count_le_len(self.players@.take(i as int), Team::Js);
                lemma_team_count_le_len(self.players@.take(i as int), Team::Vtl);
                assert(self.players@.take(i + 1).drop_last() =~= self.players@.take(i as int));
                assert(self.players@.take(i + 1).last() == self.players@[i as int]);
            }
            match self.players[i].team {
                Team::Rust => {
                    counts.rust += 1;
                },
                Team::Python => {
                    counts.python += 1;
                },
                Team::Js => {
                    counts.js += 1;
                },
                Team::Vtl => {
                    counts.vtl += 1;
                },
            }
            i += 1;
        }
        proof {
            assert(self.players@.take(n as int) =~= self.players@);
        }
        counts
    }
}

} // verus!
