use clicksim::click_mutation_for_team;
use clicksim::report_mutation_for_team;
use clicksim::team_from_name;
use clicksim::team_name;
use clicksim::Team;

#[test]
fn test_click_mutation_for_team() {
    assert_eq!(click_mutation_for_team("RUST"), "clickRust");
    assert_eq!(click_mutation_for_team("PYTHON"), "clickPython");
    assert_eq!(click_mutation_for_team("JS"), "clickJs");
    assert_eq!(click_mutation_for_team("VTL"), "clickVtl");
}

#[test]
fn test_report_mutation_for_team() {
    assert_eq!(report_mutation_for_team("RUST"), "reportLatencyRust");
    assert_eq!(report_mutation_for_team("PYTHON"), "reportLatencyPython");
    assert_eq!(report_mutation_for_team("JS"), "reportLatencyJs");
    assert_eq!(report_mutation_for_team("VTL"), "reportLatencyVtl");
}

#[test]
fn team_names_round_trip() {
    let teams = [Team::Rust, Team::Python, Team::Js, Team::Vtl];
    for t in teams {
        assert_eq!(team_from_name(team_name(t)), Some(t));
    }
    assert_eq!(team_from_name("INVALID"), None);
    assert_eq!(team_from_name(""), None);
}
