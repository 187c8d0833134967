use clicksim::GameStatus;
use clicksim::GameStore;
use clicksim::LatencyReport;
use clicksim::LatencyStats;
use clicksim::Rejected;
use clicksim::Team;

fn store_with_player(id: u64, secret: u64) -> GameStore {
    let mut store = GameStore::new();
    store
        .register_new_player("TestPlayer".to_string(), secret, id)
        .expect("id is free");
    store
}

fn started_store_with_player(id: u64, secret: u64) -> GameStore {
    let mut store = store_with_player(id, secret);
    store
        .set_status(GameStatus::Started)
        .expect("Reset to Started is a valid transition");
    store
}

/// A store walked along the cycle until it stores `status`.
fn store_at_status(status: GameStatus) -> GameStore {
    let mut store = GameStore::new();
    if status == GameStatus::Started || status == GameStatus::Stopped {
        store.set_status(GameStatus::Started).expect("valid transition");
    }
    if status == GameStatus::Stopped {
        store.set_status(GameStatus::Stopped).expect("valid transition");
    }
    store
}

#[test]
fn status_transitions_follow_the_cycle() {
    // From each stored status, exactly the successor in the cycle
    // Reset -> Started -> Stopped -> Reset is accepted; everything else
    // is rejected and leaves the status unchanged.
    let table = [
        (GameStatus::Reset, GameStatus::Started, true),
        (GameStatus::Reset, GameStatus::Stopped, false),
        (GameStatus::Reset, GameStatus::Reset, false),
        (GameStatus::Started, GameStatus::Stopped, true),
        (GameStatus::Started, GameStatus::Started, false),
        (GameStatus::Started, GameStatus::Reset, false),
        (GameStatus::Stopped, GameStatus::Reset, true),
        (GameStatus::Stopped, GameStatus::Started, false),
        (GameStatus::Stopped, GameStatus::Stopped, false),
    ];
    for (current, target, accepted) in table {
        let mut store = store_at_status(current);
        let r = store.set_status(target);
        if accepted {
            assert_eq!(r, Ok(target));
            assert_eq!(store.current_status(), target);
        } else {
            assert_eq!(r, Err(Rejected::InvalidTransition));
            assert_eq!(store.current_status(), current);
        }
    }
}

#[test]
fn a_fresh_store_is_at_reset_and_keeps_the_cycle() {
    // The singleton starts at Reset, so the only first write accepted is
    // Started: there is no shortcut into Stopped or back into Reset.
    let mut store = GameStore::new();
    assert_eq!(store.current_status(), GameStatus::Reset);
    assert_eq!(
        store.set_status(GameStatus::Stopped),
        Err(Rejected::InvalidTransition)
    );
    assert_eq!(
        store.set_status(GameStatus::Reset),
        Err(Rejected::InvalidTransition)
    );
    assert_eq!(store.current_status(), GameStatus::Reset);
    assert_eq!(store.set_status(GameStatus::Started), Ok(GameStatus::Started));
}

#[test]
fn three_clicks_count_exactly_three() {
    // Three successful clicks for one player starting from no counter
    // leave the counter at exactly 3: every increment is atomic, none is
    // lost.
    let mut store = started_store_with_player(11, 7001);
    for _ in 0..3 {
        store.click(11, 7001).expect("game started, secret matches");
    }
    let record = store.click(11, 7001).expect("still accepted");
    assert_eq!(record.clicks, Some(4));
}

#[test]
fn click_requires_a_started_game() {
    let mut store = store_with_player(11, 7001);
    assert_eq!(store.click(11, 7001).err(), Some(Rejected::InvalidGameStatus));
    store.set_status(GameStatus::Started).expect("valid transition");
    store.set_status(GameStatus::Stopped).expect("valid transition");
    assert_eq!(store.click(11, 7001).err(), Some(Rejected::InvalidGameStatus));
}

#[test]
fn click_rejects_a_wrong_secret_or_unknown_player() {
    let mut store = started_store_with_player(11, 7001);
    assert_eq!(store.click(11, 9999).err(), Some(Rejected::NotFound));
    assert_eq!(store.click(12, 7001).err(), Some(Rejected::NotFound));
    let record = store.click(11, 7001).expect("the right secret");
    assert_eq!(record.clicks, Some(1));
}

#[test]
fn report_latency_merges_into_stored_statistics() {
    let mut store = started_store_with_player(11, 7001);
    let first = store
        .report_latency(11, 7001, LatencyReport { clicks: 10, total_latency: 1000 })
        .expect("accepted");
    assert_eq!(
        first.latency,
        LatencyStats::Reported { total_latency: 1000, click_count: 10 }
    );
    let second = store
        .report_latency(11, 7001, LatencyReport { clicks: 5, total_latency: 1000 })
        .expect("accepted");
    assert_eq!(
        second.latency,
        LatencyStats::Reported { total_latency: 2000, click_count: 15 }
    );
}

#[test]
fn report_latency_with_zero_clicks_on_fresh_player_changes_nothing() {
    let mut store = started_store_with_player(11, 7001);
    let record = store
        .report_latency(11, 7001, LatencyReport { clicks: 0, total_latency: 0 })
        .expect("the call is accepted, the update is skipped");
    assert_eq!(record.latency, LatencyStats::Unreported);
    let after = store.remove_player(11).expect("player exists");
    assert_eq!(after.latency, LatencyStats::Unreported);
}

#[test]
fn report_latency_requires_started_game_and_matching_secret() {
    let mut store = store_with_player(11, 7001);
    let report = LatencyReport { clicks: 1, total_latency: 5 };
    assert_eq!(store.report_latency(11, 7001, report).err(), Some(Rejected::InvalidGameStatus));
    store.set_status(GameStatus::Started).expect("valid transition");
    assert_eq!(store.report_latency(11, 9999, report).err(), Some(Rejected::NotFound));
    assert_eq!(store.report_latency(77, 7001, report).err(), Some(Rejected::NotFound));
}

#[test]
fn latency_cas_rejects_a_stale_observation() {
    let mut store = started_store_with_player(11, 7001);
    store
        .report_latency(11, 7001, LatencyReport { clicks: 2, total_latency: 100 })
        .expect("accepted");
    // An observation made before that report no longer matches the store.
    let stale = LatencyStats::Unreported;
    let fresh = LatencyStats::Reported { total_latency: 300, click_count: 4 };
    assert_eq!(store.latency_cas(11, 7001, stale, fresh).err(), Some(Rejected::NotFound));
    // The stored pair is untouched by the rejected write.
    let record = store.click(11, 7001).expect("accepted");
    assert_eq!(
        record.latency,
        LatencyStats::Reported { total_latency: 100, click_count: 2 }
    );
}

#[test]
fn registration_balances_teams() {
    let mut store = GameStore::new();
    let teams: Vec<Team> = (0..8)
        .map(|k| {
            store
                .register_new_player(format!("P{k}"), 100 + k, k)
                .expect("fresh id")
                .team
        })
        .collect();
    // Unused teams are preferred until each has one player, then counts
    // stay balanced.
    assert_eq!(
        &teams[0..4],
        &[Team::Rust, Team::Python, Team::Js, Team::Vtl][..]
    );
    assert_eq!(
        &teams[4..8],
        &[Team::Rust, Team::Python, Team::Js, Team::Vtl][..]
    );
}

#[test]
fn registration_rejects_a_taken_id() {
    let mut store = store_with_player(11, 7001);
    assert!(matches!(
        store.register_new_player("Other".to_string(), 8, 11),
        Err(Rejected::AlreadyExists)
    ));
}

#[test]
fn reset_game_clears_scores_and_needs_a_stopped_game() {
    let mut store = started_store_with_player(11, 7001);
    store.click(11, 7001).expect("accepted");
    store
        .report_latency(11, 7001, LatencyReport { clicks: 1, total_latency: 30 })
        .expect("accepted");
    // Reset straight from Started is not a valid transition.
    assert_eq!(store.reset_game(), Err(Rejected::InvalidTransition));
    store.set_status(GameStatus::Stopped).expect("valid transition");
    assert_eq!(store.reset_game(), Ok(GameStatus::Reset));
    assert_eq!(store.current_status(), GameStatus::Reset);
    let record = store.remove_player(11).expect("player still registered");
    assert_eq!(record.clicks, None);
    assert_eq!(record.latency, LatencyStats::Unreported);
    assert_eq!(record.name, "TestPlayer");
}

#[test]
fn update_player_name_checks_the_secret() {
    let mut store = store_with_player(11, 7001);
    assert_eq!(
        store.update_player_name(11, "New".to_string(), 9999).err(),
        Some(Rejected::NotFound)
    );
    let renamed = store
        .update_player_name(11, "New".to_string(), 7001)
        .expect("the right secret");
    assert_eq!(renamed.name, "New");
}

#[test]
fn remove_player_returns_the_record_once() {
    let mut store = store_with_player(11, 7001);
    let removed = store.remove_player(11).expect("player exists");
    assert_eq!(removed.id, 11);
    assert_eq!(store.remove_player(11).err(), Some(Rejected::NotFound));
}

#[test]
fn current_status_defaults_to_reset() {
    let store = GameStore::new();
    assert_eq!(store.current_status(), GameStatus::Reset);
}
