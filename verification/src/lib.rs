//! A verified core for a multiplayer "click game" benchmark harness.
//!
//! The library holds the pure logic of the harness: the three-state game
//! status machine, the aggregate-statistics merge rules, the per-player
//! latency aggregation window, the click scheduler, the team-balancing
//! rule, and the roster file format. The network transport and the
//! asynchronous task plumbing live outside the library and hand it plain
//! values.

pub mod aggregator;
pub mod batching;
pub mod config;
pub mod register;
pub mod roster;
pub mod schedule;
pub mod stats;
pub mod status;
pub mod store;
pub mod team;
pub mod text;

pub use aggregator::LatencyAggregator;
pub use batching::chunk_spans;
pub use batching::should_retry_batch;
pub use config::CliParser;
pub use register::new_registration;
pub use register::player_name_for_index;
pub use register::RegistrationRequest;
pub use roster::parse_line;
pub use roster::parse_roster;
pub use roster::roster_content;
pub use roster::sort_players_by_idx;
pub use roster::PlayerConfig;
pub use schedule::interval_nanos;
pub use schedule::next_tick;
pub use schedule::schedule_ticks;
pub use schedule::should_dispatch;
pub use schedule::NANOS_PER_SEC;
pub use stats::click_increment;
pub use stats::merge_latency;
pub use stats::LatencyReport;
pub use stats::LatencyStats;
pub use status::GameStatus;
pub use store::GameStore;
pub use store::PlayerRecord;
pub use store::Rejected;
pub use team::click_mutation_for_team;
pub use team::report_mutation_for_team;
pub use team::team_from_name;
pub use team::team_name;
pub use team::Team;
pub use team::TeamCounts;
pub use text::parse_usize;
pub use text::str_eq;
pub use text::u64_to_decimal;
