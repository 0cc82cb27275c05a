//! Environment selection from the foreground process, de-duplication of
//! environment changes, and the bounded retry schedule.

use core::time::Duration;
use vstd::prelude::*;

use crate::model::Environment;
use crate::text::{eq_ignore_ascii_case, str_eq_ignore_ascii_case, utf8};

verus! {

#[derive(Debug, Clone, Copy, PartialEq, Eq, Structural)]
pub enum SelectionPolicy {
    Auto,
    Fixed(Environment),
}

#[derive(Debug, Clone, PartialEq, Eq)]
pub struct ProcessRule {
    pub environment: Environment,
    pub process_names: Vec<String>,
}

#[derive(Debug, Clone, Copy, PartialEq, Eq, Structural)]
pub struct EnvironmentTransition {
    pub previous: Option<Environment>,
    pub target: Environment,
}

#[derive(Debug)]
pub struct EnvironmentTracker {
    current: Option<Environment>,
}

#[derive(Debug)]
pub struct RetryBackoff {
    failures: u32,
}

/// Names the `Duration` that `Duration::from_millis` returns for a count of milliseconds.
pub uninterp spec fn millis_duration(ms: u64) -> Duration;

/// `Duration::from_millis`; the result is named by `millis_duration`.
#[verifier::external_body]
pub(crate) fn duration_from_millis(ms: u64) -> (d: Duration)
    ensures
        d == millis_duration(ms),
{
    Duration::from_millis(ms)
}

/// The delay, in milliseconds, scheduled after `failures` earlier consecutive failures.
pub open spec fn backoff_delay_ms(failures: u32) -> u64 {
    if failures == 0 {
        250
    } else if failures == 1 {
        500
    } else if failures == 2 {
        1_000
    } else if failures == 3 {
        2_000
    } else if failures == 4 {
        5_000
    } else {
        10_000
    }
}

pub open spec fn saturating_inc(n: u32) -> u32 {
    if n == u32::MAX {
        n
    } else {
        (n + 1) as u32
    }
}

impl Default for RetryBackoff {
    fn default() -> (backoff: Self)
        ensures
            backoff.failures() == 0,
    {
        RetryBackoff { failures: 0 }
    }
}

impl RetryBackoff {
    pub closed spec fn spec_failures(&self) -> u32 {
        self.failures
    }

    /// Counts one more failure and returns the delay before the next attempt.
    pub fn record_failure(&mut self) -> (delay: Duration)
        ensures
            delay == millis_duration(backoff_delay_ms(old(self).failures())),
            final(self).failures() == saturating_inc(old(self).failures()),
    {
        let delays: [u64; 6] = [250, 500, 1_000, 2_000, 5_000, 10_000];
        let index: usize = if self.failures >= 5 {
            5
        } else {
            self.failures as usize
        };
        self.failures = self.failures.saturating_add(1);
        duration_from_millis(delays[index])
    }

    pub fn record_success(&mut self)
        ensures
            final(self).failures() == 0,
    {
        self.failures = 0;
    }

    #[verifier::when_used_as_spec(spec_failures)]
    pub fn failures(&self) -> (n: u32)
        ensures
            n == self.failures(),
    {
        self.failures
    }
}

/// Every scheduled retry delay lies between 250 ms and 10 s, and the schedule
/// never shortens as consecutive failures accumulate.
pub proof fn lemma_backoff_bounded_and_monotone(earlier: u32, later: u32)
    requires
        earlier <= later,
    ensures
        250 <= backoff_delay_ms(earlier) <= 10_000,
        backoff_delay_ms(earlier) <= backoff_delay_ms(later),
{
}

impl Default for EnvironmentTracker {
    fn default() -> (tracker: Self)
        ensures
            tracker.current() == None::<Environment>,
    {
        EnvironmentTracker { current: None }
    }
}

impl EnvironmentTracker {
    pub closed spec fn spec_current(&self) -> Option<Environment> {
        self.current
    }

    #[verifier::when_used_as_spec(spec_current)]
    pub fn current(&self) -> (env: Option<Environment>)
        ensures
            env == self.current(),
    {
        self.current
    }

    /// Records `target`; reports a transition only when the environment changes.
    pub fn observe(&mut self, target: Environment) -> (transition: Option<EnvironmentTransition>)
        ensures
            final(self).current() == Some(target),
            transition == spec_observe(old(self).current(), target),
    {
        if self.current == Some(target) {
            return None;
        }
        let transition = EnvironmentTransition { previous: self.current, target };
        self.current = Some(target);
        Some(transition)
    }

    pub fn invalidate(&mut self)
        ensures
            final(self).current() == None::<Environment>,
    {
        self.current = None;
    }
}

/// What observing `target` reports when the tracker currently holds `current`.
pub open spec fn spec_observe(current: Option<Environment>, target: Environment) -> Option<
    EnvironmentTransition,
> {
    if current == Some(target) {
        None
    } else {
        Some(EnvironmentTransition { previous: current, target })
    }
}

/// Observing the same environment twice in a row reports nothing the second time,
/// and after invalidation the next observation is reported with no previous environment.
pub proof fn lemma_tracker_deduplicates(current: Option<Environment>, target: Environment)
    ensures
        spec_observe(Some(target), target) == None::<EnvironmentTransition>,
        spec_observe(None, target) == Some(EnvironmentTransition { previous: None, target }),
        current != Some(target) ==> spec_observe(current, target) == Some(
            EnvironmentTransition { previous: current, target },
        ),
{
}

/// ApplyToken pairs a device connection generation with an invalidation epoch.
#[derive(Debug, Clone, Copy, PartialEq, Eq, Structural)]
pub struct ApplyToken {
    pub connection_generation: u64,
    pub invalidation_epoch: u64,
}

/// Whether some configured process name of the rule equals `name`, ignoring ASCII case.
pub open spec fn rule_matches(rule: ProcessRule, name: Seq<char>) -> bool {
    exists|k: int|
        0 <= k < rule.process_names@.len() && eq_ignore_ascii_case(
            utf8(#[trigger] rule.process_names@[k]@),
            utf8(name),
        )
}

/// The environment of the first rule, from index `i` on, that matches `name`.
pub open spec fn first_match_from(rules: Seq<ProcessRule>, name: Seq<char>, i: int) -> Option<
    Environment,
>
    decreases rules.len() - i,
{
    if i < 0 || i >= rules.len() {
        None
    } else if rule_matches(rules[i], name) {
        Some(rules[i].environment)
    } else {
        first_match_from(rules, name, i + 1)
    }
}

/// The environment selected for the foreground executable under a policy and rule list.
pub open spec fn spec_select_environment(
    policy: SelectionPolicy,
    executable_name: Option<Seq<char>>,
    rules: Seq<ProcessRule>,
) -> Environment {
    match policy {
        SelectionPolicy::Fixed(environment) => environment,
        SelectionPolicy::Auto => match executable_name {
            Some(name) => match first_match_from(rules, name, 0) {
                Some(environment) => environment,
                None => Environment::Office,
            },
            None => Environment::Office,
        },
    }
}

pub open spec fn opt_view(name: Option<&str>) -> Option<Seq<char>> {
    match name {
        Some(s) => Some(s@),
        None => None,
    }
}

fn rule_matches_exec(rule: &ProcessRule, name: &str) -> (r: bool)
    ensures
        r == rule_matches(*rule, name@),
{
    let mut k: usize = 0;
    while k < rule.process_names.len()
        invariant
            k <= rule.process_names@.len(),
            forall|j: int|
                0 <= j < k ==> !eq_ignore_ascii_case(
                    utf8(#[trigger] rule.process_names@[j]@),
                    utf8(name@),
                ),
        decreases rule.process_names.len() - k,
    {
        if str_eq_ignore_ascii_case(rule.process_names[k].as_str(), name) {
            assert(eq_ignore_ascii_case(utf8(rule.process_names@[k as int]@), utf8(name@)));
            return true;
        }
        k = k + 1;
    }
    false
}

/// Chooses the environment: a fixed policy wins; otherwise the first rule whose
/// process names match the executable (ASCII case-insensitively), else Office.
#[verifier::loop_isolation(false)]
pub fn select_environment_with_rules(
    policy: SelectionPolicy,
    executable_name: Option<&str>,
    rules: &[ProcessRule],
) -> (environment: Environment)
    ensures
        environment == spec_select_environment(policy, opt_view(executable_name), rules@),
{
    match policy {
        SelectionPolicy::Fixed(environment) => environment,
        SelectionPolicy::Auto => match executable_name {
            None => Environment::Office,
            Some(name) => {
                let mut i: usize = 0;
                while i < rules.len()
                    invariant
                        i <= rules@.len(),
                        first_match_from(rules@, name@, 0) == first_match_from(rules@, name@, i as int),
                    decreases rules.len() - i,
                {
                    if rule_matches_exec(&rules[i], name) {
                        return rules[i].environment;
                    }
                    i = i + 1;
                }
                Environment::Office
            },
        },
    }
}

/// The built-in rule set: `cs2.exe` (any ASCII case) selects CS2, anything else Office.
pub fn select_environment(executable_name: Option<&str>) -> (environment: Environment)
    ensures
        environment == (match executable_name {
            Some(name) => if eq_ignore_ascii_case(utf8("cs2.exe"@), utf8(name@)) {
                Environment::Cs2
            } else {
                Environment::Office
            },
            None => Environment::Office,
        }),
{
    let rules = vec![ProcessRule { environment: Environment::Cs2, process_names: vec!["cs2.exe".to_owned()] }];
    let environment = select_environment_with_rules(SelectionPolicy::Auto, executable_name, rules.as_slice());
    proof {
        if let Some(name) = executable_name {
            let rule = rules@[0];
            assert(rule.process_names@[0]@ == "cs2.exe"@);
            if eq_ignore_ascii_case(utf8("cs2.exe"@), utf8(name@)) {
                assert(rule_matches(rule, name@));
            } else {
                assert(!rule_matches(rule, name@));
            }
            assert(first_match_from(rules@, name@, 1) == None::<Environment>);
        }
    }
    environment
}

} // verus!
