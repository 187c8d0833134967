use clicksim::parse_line;
use clicksim::parse_roster;
use clicksim::roster_content;
use clicksim::sort_players_by_idx;
use clicksim::PlayerConfig;

#[test]
fn test_player_config_from_str() {
    let config_str = "1 TestPlayer RUST player123 secret456";
    let config = PlayerConfig::from(config_str);
    assert_eq!(config.idx, 1);
    assert_eq!(config.name, "TestPlayer");
    assert_eq!(config.team, "RUST");
    assert_eq!(config.id, "player123");
    assert_eq!(config.secret, "secret456");
}

#[test]
fn test_player_config_display() {
    let config = PlayerConfig {
        idx: 1,
        name: "TestPlayer".to_string(),
        team: "RUST".to_string(),
        id: "player123".to_string(),
        secret: "secret456".to_string(),
    };
    assert_eq!(config.to_line(), "1 TestPlayer RUST player123 secret456");
}

#[test]
fn line_round_trip_preserves_every_field() {
    let config = PlayerConfig {
        idx: 42,
        name: "Player42".to_string(),
        team: "PYTHON".to_string(),
        id: "11111111-2222-3333-4444-555555555555".to_string(),
        secret: "66666666-7777-8888-9999-000000000000".to_string(),
    };
    let line = config.to_line();
    let back = PlayerConfig::from(line.as_str());
    assert_eq!(back.idx, config.idx);
    assert_eq!(back.name, config.name);
    assert_eq!(back.team, config.team);
    assert_eq!(back.id, config.id);
    assert_eq!(back.secret, config.secret);
}

#[test]
fn parse_line_ignores_extra_fields() {
    let parsed = parse_line("7 Name VTL id secret extra junk").expect("five fields are there");
    assert_eq!(parsed.idx, 7);
    assert_eq!(parsed.secret, "secret");
}

#[test]
fn parse_line_rejects_malformed_lines() {
    assert!(parse_line("").is_none());
    assert!(parse_line("1 two three four").is_none());
    assert!(parse_line("x Name RUST id secret").is_none());
}

#[test]
fn parse_roster_reads_lines_up_to_requested_count() {
    let content = "1 A RUST ida sa\n2 B JS idb sb\n3 C VTL idc sc\n";
    let all = parse_roster(content, 10).expect("well-formed roster");
    assert_eq!(all.len(), 3);
    assert_eq!(all[1].name, "B");
    let two = parse_roster(content, 2).expect("well-formed roster");
    assert_eq!(two.len(), 2);
    assert_eq!(two[1].idx, 2);
}

#[test]
fn parse_roster_rejects_a_corrupt_line() {
    assert!(parse_roster("1 A RUST ida sa\nbroken\n", 10).is_none());
    // A corrupt line beyond the requested count is never read.
    assert!(parse_roster("1 A RUST ida sa\nbroken\n", 1).is_some());
}

#[test]
fn parse_roster_of_empty_file_is_empty() {
    let players = parse_roster("", 5).expect("empty roster is well-formed");
    assert_eq!(players.len(), 0);
}

#[test]
fn roster_content_writes_one_line_per_player() {
    let players = vec![
        PlayerConfig {
            idx: 1,
            name: "A".to_string(),
            team: "RUST".to_string(),
            id: "ida".to_string(),
            secret: "sa".to_string(),
        },
        PlayerConfig {
            idx: 2,
            name: "B".to_string(),
            team: "JS".to_string(),
            id: "idb".to_string(),
            secret: "sb".to_string(),
        },
    ];
    assert_eq!(roster_content(&players), "1 A RUST ida sa\n2 B JS idb sb\n");
}

#[test]
fn sort_orders_players_by_index() {
    let mut players = vec![
        PlayerConfig {
            idx: 3,
            name: "C".to_string(),
            team: "VTL".to_string(),
            id: "idc".to_string(),
            secret: "sc".to_string(),
        },
        PlayerConfig {
            idx: 1,
            name: "A".to_string(),
            team: "RUST".to_string(),
            id: "ida".to_string(),
            secret: "sa".to_string(),
        },
        PlayerConfig {
            idx: 2,
            name: "B".to_string(),
            team: "JS".to_string(),
            id: "idb".to_string(),
            secret: "sb".to_string(),
        },
    ];
    sort_players_by_idx(&mut players);
    assert_eq!(players[0].idx, 1);
    assert_eq!(players[1].idx, 2);
    assert_eq!(players[2].idx, 3);
    assert_eq!(players[0].name, "A");
    assert_eq!(players[2].name, "C");
}
