use std::time::Duration;

use pulsehub::model::{DpiValues, Environment};
use pulsehub::profile::{
    select_environment, select_environment_with_rules, EnvironmentTracker, EnvironmentTransition, ProcessRule,
    RetryBackoff, SelectionPolicy,
};

#[test]
fn range_rejects_values_outside_the_step() {
    let values = DpiValues::Range { min: 200, max: 800, step: 100 };

    assert!(values.contains(400));
    assert!(!values.contains(450));
    assert!(!values.contains(900));
}

#[test]
fn discrete_values_accept_only_listed_dpi() {
    let values = DpiValues::Discrete(vec![400, 800, 1600]);
    assert!(values.contains(800));
    assert!(!values.contains(1200));
    let zero_step = DpiValues::Range { min: 100, max: 800, step: 0 };
    assert!(!zero_step.contains(100));
}

#[test]
fn cs2_is_matched_case_insensitively() {
    assert_eq!(select_environment(Some("CS2.EXE")), Environment::Cs2);
    assert_eq!(select_environment(Some("steam.exe")), Environment::Office);
}

#[test]
fn no_foreground_process_selects_office() {
    assert_eq!(select_environment(None), Environment::Office);
}

#[test]
fn configured_rules_and_fixed_policy_are_respected() {
    let rules = [ProcessRule { environment: Environment::Cs2, process_names: vec!["custom-game.exe".to_owned()] }];
    assert_eq!(
        select_environment_with_rules(SelectionPolicy::Auto, Some("CUSTOM-GAME.EXE"), &rules),
        Environment::Cs2
    );
    assert_eq!(
        select_environment_with_rules(SelectionPolicy::Fixed(Environment::Cs2), Some("explorer.exe"), &[]),
        Environment::Cs2
    );
}

#[test]
fn first_matching_rule_wins() {
    let rules = [
        ProcessRule { environment: Environment::Office, process_names: vec!["game.exe".to_owned()] },
        ProcessRule { environment: Environment::Cs2, process_names: vec!["GAME.EXE".to_owned()] },
    ];
    assert_eq!(select_environment_with_rules(SelectionPolicy::Auto, Some("game.exe"), &rules), Environment::Office);
}

#[test]
fn tracker_deduplicates_events_until_environment_changes() {
    let mut tracker = EnvironmentTracker::default();
    assert_eq!(
        tracker.observe(Environment::Office),
        Some(EnvironmentTransition { previous: None, target: Environment::Office })
    );
    assert_eq!(tracker.observe(Environment::Office), None);
    assert_eq!(
        tracker.observe(Environment::Cs2),
        Some(EnvironmentTransition { previous: Some(Environment::Office), target: Environment::Cs2 })
    );
    tracker.invalidate();
    assert_eq!(tracker.observe(Environment::Cs2).unwrap().previous, None);
}

#[test]
fn retry_backoff_is_bounded_and_resets_after_success() {
    let mut backoff = RetryBackoff::default();
    assert_eq!(backoff.record_failure(), Duration::from_millis(250));
    assert_eq!(backoff.record_failure(), Duration::from_millis(500));
    for _ in 0..10 {
        let delay = backoff.record_failure();
        assert!(delay <= Duration::from_secs(10));
    }
    backoff.record_success();
    assert_eq!(backoff.failures(), 0);
    assert_eq!(backoff.record_failure(), Duration::from_millis(250));
}

#[test]
fn retry_backoff_follows_the_documented_schedule() {
    let mut backoff = RetryBackoff::default();
    let delays: Vec<Duration> = (0..7).map(|_| backoff.record_failure()).collect();
    assert_eq!(
        delays,
        [250, 500, 1_000, 2_000, 5_000, 10_000, 10_000].map(Duration::from_millis).to_vec()
    );
    assert_eq!(backoff.failures(), 7);
}
