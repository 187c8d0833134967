use clicksim::chunk_spans;
use clicksim::new_registration;
use clicksim::parse_usize;
use clicksim::player_name_for_index;
use clicksim::should_retry_batch;
use clicksim::str_eq;
use clicksim::u64_to_decimal;
use clicksim::CliParser;

#[test]
fn decimal_rendering_is_exact() {
    assert_eq!(u64_to_decimal(0), "0");
    assert_eq!(u64_to_decimal(7), "7");
    assert_eq!(u64_to_decimal(1234567890), "1234567890");
    assert_eq!(u64_to_decimal(u64::MAX), "18446744073709551615");
}

#[test]
fn decimal_parsing_is_exact_and_total() {
    assert_eq!(parse_usize("0"), Some(0));
    assert_eq!(parse_usize("42"), Some(42));
    assert_eq!(parse_usize("007"), Some(7));
    assert_eq!(parse_usize(""), None);
    assert_eq!(parse_usize("12a"), None);
    assert_eq!(parse_usize("-3"), None);
    assert_eq!(parse_usize("99999999999999999999999999"), None);
}

#[test]
fn string_equality_compares_contents() {
    assert!(str_eq("", ""));
    assert!(str_eq("RUST", "RUST"));
    assert!(!str_eq("RUST", "RUS"));
    assert!(!str_eq("RUST", "rust"));
}

#[test]
fn registration_derives_name_and_draws_a_secret() {
    let name = player_name_for_index(12);
    assert_eq!(name, "Player12");
    let first = new_registration(3);
    assert_eq!(first.idx, 3);
    assert_eq!(first.name, "Player3");
    assert_eq!(first.secret.len(), 36);
    // Secrets are drawn fresh: two registrations never share one.
    let second = new_registration(3);
    assert_eq!(second.secret.len(), 36);
    assert_ne!(first.secret, second.secret);
}

#[test]
fn batches_carry_at_most_twenty_five_requests() {
    assert_eq!(chunk_spans(0), Vec::<(usize, usize)>::new());
    assert_eq!(chunk_spans(10), vec![(0, 10)]);
    assert_eq!(chunk_spans(25), vec![(0, 25)]);
    assert_eq!(chunk_spans(60), vec![(0, 25), (25, 50), (50, 60)]);
}

#[test]
fn batch_rounds_stop_after_five_tries_or_when_done() {
    assert!(should_retry_batch(3, 0));
    assert!(should_retry_batch(3, 4));
    assert!(!should_retry_batch(3, 5));
    assert!(!should_retry_batch(0, 0));
}

#[test]
fn default_run_configuration() {
    let cfg = CliParser::default();
    assert_eq!(cfg.players, 100);
    assert_eq!(cfg.frequency, 7);
    assert_eq!(cfg.duration, 20);
    assert_eq!(cfg.config, "./simulate_players.config.txt");
    assert!(!cfg.register_only);
    assert!(cfg.api_endpoint.is_empty());
    assert!(cfg.api_key.is_empty());
}
