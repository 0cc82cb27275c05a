//! The agent's device coordinator: what it does on each tick of the foreground
//! watcher, on each device health check, and for the commands the IPC clients
//! send; and the stand-alone foreground watcher. They own the state that spans
//! ticks; the program drives them and does the waiting.

use vstd::prelude::*;

use crate::agent::{
    after_failure, apply_target_dpi, apply_target_full, ipc_environment, selected_environment, snapshot_for_target,
    spec_decide, spec_selected_environment, spec_target_choice, target_error, target_for_process, CommandFailure,
    DeviceHealthMonitor, EnvironmentSwitchGuard, ForegroundProcess, SwitchDecision, target_is, cycle_levels,
    spec_button_actions, EnvironmentTarget, ApplyFailure,
};
use crate::config::{added, extends};
use crate::hidpp::DpiWriteResult;
use crate::config::{ConfigDocument, DocumentView, SelectionMode as ConfigSelectionMode};
use crate::g102::{read_first_g102_dpi, HidppLink, Transport, Exchange, no_memory_write, write_guarded, profile_dpi, lemma_memory_untouched_refl};
use crate::ipc::{AgentSnapshot, DeviceStatus, Environment as IpcEnvironment, ErrorCode, SelectionMode};
use crate::model::Environment;
use crate::profile::{
    backoff_delay_ms, duration_from_millis, millis_duration, saturating_inc, EnvironmentTracker, RetryBackoff,
};
use std::time::Duration;

verus! {

/// How often the agent checks the device's health, in milliseconds.
pub const HEALTH_CHECK_INTERVAL_MS: u64 = 500;

/// Whether a health check is due `elapsed_ms` after the last one.
pub fn health_check_due(elapsed_ms: u64) -> (due: bool)
    ensures
        due == (elapsed_ms >= HEALTH_CHECK_INTERVAL_MS),
{
    elapsed_ms >= HEALTH_CHECK_INTERVAL_MS
}

/// The coordinator's state between ticks.
#[derive(Debug)]
pub struct AgentCoordinator {
    active_profile_key: Option<String>,
    backoff: RetryBackoff,
    switch_guard: EnvironmentSwitchGuard,
    device_health: DeviceHealthMonitor,
    recovery_requested: bool,
    snapshot: AgentSnapshot,
}

pub open spec fn key_view(key: Option<String>) -> Option<Seq<char>> {
    match key {
        Some(k) => Some(k@),
        None => None,
    }
}

/// The target a foreground process gets, as the tick sees it: its profile key,
/// environment and DPI; `None` when the process could not be read or no target
/// can be built for it.
/// Onboard memory written during a tick carries only the foreground target's
/// profile: its button actions and its DPI settings.
pub open spec fn tick_writes(config: DocumentView, process: Result<ForegroundProcess, String>, log: Seq<Exchange>) -> bool {
    match process {
        Err(_) => no_memory_write(log),
        Ok(p) => if target_error(config, p.executable_name@) is Some {
            no_memory_write(log)
        } else {
            let choice = spec_target_choice(config, p.executable_name@);
            exists|t: EnvironmentTarget|
                #[trigger] target_is(t, p.executable_name@, p.process_id, choice, spec_button_actions(choice.3)->Ok_0)
                    && write_guarded(log, t.button_actions@, Some(profile_dpi(t.dpi, cycle_levels(t))))
        },
    }
}

pub open spec fn tick_target(config: DocumentView, process: Result<ForegroundProcess, String>) -> Option<
    (Seq<char>, Environment, u16),
> {
    match process {
        Err(_) => None,
        Ok(p) => if target_error(config, p.executable_name@) is Some {
            None
        } else {
            let choice = spec_target_choice(config, p.executable_name@);
            Some((choice.1, choice.0, choice.3.dpi))
        },
    }
}

impl AgentCoordinator {
    pub closed spec fn active_key(&self) -> Option<Seq<char>> {
        key_view(self.active_profile_key)
    }

    pub closed spec fn failures(&self) -> u32 {
        self.backoff.failures()
    }

    pub closed spec fn pending(&self) -> Option<(Seq<char>, u64)> {
        self.switch_guard.pending_target()
    }

    pub closed spec fn last_applied(&self) -> Option<u64> {
        self.switch_guard.last_applied()
    }

    pub closed spec fn health(&self) -> (u8, bool) {
        (self.device_health.failures(), self.device_health.is_unhealthy())
    }

    pub closed spec fn recovery(&self) -> bool {
        self.recovery_requested
    }

    pub closed spec fn published(&self) -> AgentSnapshot {
        self.snapshot
    }

    /// A coordinator that has applied nothing yet and publishes `snapshot`.
    pub fn new(snapshot: AgentSnapshot) -> (coordinator: Self)
        ensures
            coordinator.active_key() is None,
            coordinator.failures() == 0,
            coordinator.pending() is None,
            coordinator.last_applied() is None,
            coordinator.health() == (0u8, false),
            !coordinator.recovery(),
            coordinator.published() == snapshot,
    {
        AgentCoordinator {
            active_profile_key: None,
            backoff: RetryBackoff::default(),
            switch_guard: EnvironmentSwitchGuard::default(),
            device_health: DeviceHealthMonitor::default(),
            recovery_requested: false,
            snapshot,
        }
    }

    /// The snapshot the coordinator publishes.
    pub fn snapshot(&self) -> (snapshot: AgentSnapshot)
        ensures
            snapshot == self.published(),
    {
        self.snapshot
    }

    /// One tick of the foreground watcher at `now_ms`. After a recovery request the
    /// applied and pending targets are forgotten first. The foreground target is
    /// then applied once it has been stable long enough (and outside the cooldown);
    /// the result is the delay before the watcher should look again, if any.
    pub fn foreground_tick<T: Transport, F: FnOnce() -> Result<ForegroundProcess, String>>(
        &mut self,
        config: &ConfigDocument,
        revision: u64,
        now_ms: u64,
        foreground: F,
        transport: &mut HidppLink<T>,
        product_id: u16,
        release_number: u16,
    ) -> (delay: Option<Duration>)
        requires
            foreground.requires(()),
        ensures
            !final(self).recovery(),
            final(self).health() == old(self).health(),
            final(self).last_applied() == old(self).last_applied() || final(self).last_applied() == Some(now_ms),
            extends(old(transport).log(), final(transport).log()),
            exists|process: Result<ForegroundProcess, String>|
                #![trigger foreground.ensures((), process)]
                foreground.ensures((), process) && tick_writes(
                    config@,
                    process,
                    added(old(transport).log(), final(transport).log()),
                ) && tick_outcome(
                    old(self).active_key_after_recovery(),
                    old(self).pending_after_recovery(),
                    old(self).last_applied(),
                    old(self).failures(),
                    old(self).published(),
                    tick_target(config@, process),
                    revision,
                    now_ms,
                    delay,
                    final(self).active_key(),
                    final(self).pending(),
                    final(self).last_applied(),
                    final(self).failures(),
                    final(self).published(),
                ),
    {
        proof {
            lemma_memory_untouched_refl(transport.log());
        }
        if self.recovery_requested {
            self.recovery_requested = false;
            self.active_profile_key = None;
            self.switch_guard.clear_pending();
        }
        let process = foreground();
        let target = match process {
            Err(_) => {
                return Some(self.backoff.record_failure());
            },
            Ok(process) => match target_for_process(config, &process) {
                Ok(target) => target,
                Err(_) => {
                    return Some(self.backoff.record_failure());
                },
            },
        };
        let active = match &self.active_profile_key {
            Some(key) => Some(key.as_str()),
            None => None,
        };
        match self.switch_guard.decide(target.profile_key.as_str(), active, now_ms) {
            SwitchDecision::AlreadyActive => {
                return None;
            },
            SwitchDecision::Wait(ms) => {
                return Some(duration_from_millis(ms));
            },
            SwitchDecision::Apply => {},
        }
        let applied = apply_target_full(transport, product_id, release_number, &target);
        self.after_apply(&target, revision, now_ms, applied)
    }

    /// Records how applying `target` at `now_ms` went. A success makes it the active
    /// environment, clears the pending switch, resets the backoff and publishes the
    /// target at the DPI read back; a failure changes nothing else and, when trying
    /// again may help, schedules the next attempt after the backoff delay.
    pub fn after_apply(
        &mut self,
        target: &EnvironmentTarget,
        revision: u64,
        now_ms: u64,
        applied: Result<DpiWriteResult, ApplyFailure>,
    ) -> (delay: Option<Duration>)
        ensures
            final(self).health() == old(self).health(),
            final(self).recovery() == old(self).recovery(),
            match applied {
                Ok(result) => {
                    &&& delay is None
                    &&& final(self).active_key() == Some(target.profile_key@)
                    &&& final(self).pending() is None
                    &&& final(self).last_applied() == Some(now_ms)
                    &&& final(self).failures() == 0
                    &&& final(self).published() == (AgentSnapshot {
                        device_status: DeviceStatus::Ready,
                        active_environment: ipc_environment(target.environment),
                        config_revision: revision,
                        current_dpi: Some(result.after),
                        desired_dpi: target.dpi,
                    })
                },
                Err(failure) => {
                    &&& final(self).active_key() == old(self).active_key()
                    &&& final(self).pending() == old(self).pending()
                    &&& final(self).last_applied() == old(self).last_applied()
                    &&& final(self).published() == old(self).published()
                    &&& if failure.retryable {
                        delay == Some(millis_duration(backoff_delay_ms(old(self).failures())))
                            && final(self).failures() == saturating_inc(old(self).failures())
                    } else {
                        delay is None && final(self).failures() == old(self).failures()
                    }
                },
            },
    {
        match applied {
            Ok(applied) => {
                self.active_profile_key = Some(target.profile_key.clone());
                self.switch_guard.record_applied(now_ms);
                self.backoff.record_success();
                self.snapshot = snapshot_for_target(target, revision, DeviceStatus::Ready, Some(applied.after));
                None
            },
            Err(failure) => {
                if failure.retryable {
                    Some(self.backoff.record_failure())
                } else {
                    None
                }
            },
        }
    }

    pub closed spec fn active_key_after_recovery(&self) -> Option<Seq<char>> {
        if self.recovery_requested {
            None
        } else {
            key_view(self.active_profile_key)
        }
    }

    pub closed spec fn pending_after_recovery(&self) -> Option<(Seq<char>, u64)> {
        if self.recovery_requested {
            None
        } else {
            self.switch_guard.pending_target()
        }
    }

    /// One device health check: a DPI read that succeeds marks the device ready
    /// at that DPI; the failure that makes the device unhealthy marks it degraded,
    /// drops the DPI and requests a recovery (the result says so); other failures
    /// change nothing but the count.
    pub fn health_check<T: Transport>(&mut self, transport: &mut HidppLink<T>) -> (recover: bool)
        ensures
            final(self).active_key() == old(self).active_key(),
            final(self).pending() == old(self).pending(),
            final(self).last_applied() == old(self).last_applied(),
            final(self).failures() == old(self).failures(),
            ({
                ||| {
                    &&& !recover
                    &&& final(self).health() == (0u8, false)
                    &&& final(self).recovery() == old(self).recovery()
                    &&& final(self).published() == (AgentSnapshot {
                        device_status: DeviceStatus::Ready,
                        current_dpi: final(self).published().current_dpi,
                        ..old(self).published()
                    })
                    &&& final(self).published().current_dpi is Some
                }
                ||| {
                    let (count, unhealthy, signal) = after_failure(old(self).health().0, old(self).health().1);
                    &&& final(self).health() == (count, unhealthy)
                    &&& recover == signal
                    &&& recover ==> final(self).recovery() && final(self).published() == (AgentSnapshot {
                        device_status: DeviceStatus::Degraded,
                        current_dpi: None,
                        ..old(self).published()
                    })
                    &&& !recover ==> final(self).recovery() == old(self).recovery() && final(self).published()
                        == old(self).published()
                }
            }),
    {
        match read_first_g102_dpi(transport) {
            Ok(current_dpi) => {
                self.device_health.record_success();
                self.snapshot.current_dpi = Some(current_dpi);
                self.snapshot.device_status = DeviceStatus::Ready;
                false
            },
            Err(_) => {
                if self.device_health.record_failure() {
                    self.snapshot.current_dpi = None;
                    self.snapshot.device_status = DeviceStatus::Degraded;
                    self.recovery_requested = true;
                    true
                } else {
                    false
                }
            },
        }
    }

    /// The `apply_now` command: applies the foreground target completely and
    /// publishes it at `revision`. A foreground or target problem fails as a
    /// retryable internal error; a device failure as busy when it may pass, else
    /// as internal.
    pub fn apply_now<T: Transport, F: FnOnce() -> Result<ForegroundProcess, String>>(
        &mut self,
        config: &ConfigDocument,
        revision: u64,
        foreground: F,
        transport: &mut HidppLink<T>,
        product_id: u16,
        release_number: u16,
    ) -> (r: Result<AgentSnapshot, CommandFailure>)
        requires
            foreground.requires(()),
        ensures
            final(self).active_key() == old(self).active_key(),
            final(self).pending() == old(self).pending(),
            final(self).last_applied() == old(self).last_applied(),
            final(self).failures() == old(self).failures(),
            final(self).health() == old(self).health(),
            final(self).recovery() == old(self).recovery(),
            r matches Ok(snapshot) ==> snapshot == final(self).published(),
            r is Err ==> final(self).published() == old(self).published(),
            extends(old(transport).log(), final(transport).log()),
            exists|process: Result<ForegroundProcess, String>|
                #![trigger foreground.ensures((), process)]
                foreground.ensures((), process) && tick_writes(
                    config@,
                    process,
                    added(old(transport).log(), final(transport).log()),
                ) && match tick_target(config@, process) {
                    None => r matches Err(failure) && failure.code == ErrorCode::Internal && failure.retryable
                        && failure.message@ == match process {
                        Err(message) => message@,
                        Ok(p) => target_error(config@, p.executable_name@)->Some_0,
                    },
                    Some((_, environment, dpi)) => match r {
                        Ok(snapshot) => snapshot == (AgentSnapshot {
                            device_status: DeviceStatus::Ready,
                            active_environment: ipc_environment(environment),
                            config_revision: revision,
                            current_dpi: Some(dpi),
                            desired_dpi: dpi,
                        }),
                        Err(failure) => failure.code == (if failure.retryable {
                            ErrorCode::Busy
                        } else {
                            ErrorCode::Internal
                        }),
                    },
                },
    {
        proof {
            lemma_memory_untouched_refl(transport.log());
        }
        let process = foreground();
        let target = match process {
            Err(message) => {
                return Err(CommandFailure { code: ErrorCode::Internal, message, retryable: true });
            },
            Ok(process) => match target_for_process(config, &process) {
                Ok(target) => target,
                Err(message) => {
                    return Err(CommandFailure { code: ErrorCode::Internal, message, retryable: true });
                },
            },
        };
        let applied = apply_target_full(transport, product_id, release_number, &target);
        self.answer_apply(&target, revision, applied)
    }

    /// The answer to an immediate application of `target`: on success the target is
    /// published at the DPI read back and answered; a failure is answered as busy
    /// when trying again may help, else as an internal error, with its message.
    pub fn answer_apply(
        &mut self,
        target: &EnvironmentTarget,
        revision: u64,
        applied: Result<DpiWriteResult, ApplyFailure>,
    ) -> (r: Result<AgentSnapshot, CommandFailure>)
        ensures
            final(self).active_key() == old(self).active_key(),
            final(self).pending() == old(self).pending(),
            final(self).last_applied() == old(self).last_applied(),
            final(self).failures() == old(self).failures(),
            final(self).health() == old(self).health(),
            final(self).recovery() == old(self).recovery(),
            match applied {
                Ok(result) => {
                    &&& r == Ok::<AgentSnapshot, CommandFailure>(
                        AgentSnapshot {
                            device_status: DeviceStatus::Ready,
                            active_environment: ipc_environment(target.environment),
                            config_revision: revision,
                            current_dpi: Some(result.after),
                            desired_dpi: target.dpi,
                        },
                    )
                    &&& final(self).published() == r->Ok_0
                },
                Err(failure) => {
                    &&& r matches Err(answer) && answer.code == (if failure.retryable {
                        ErrorCode::Busy
                    } else {
                        ErrorCode::Internal
                    }) && answer.message == failure.message && answer.retryable == failure.retryable
                    &&& final(self).published() == old(self).published()
                },
            },
    {
        match applied {
            Ok(applied) => {
                self.snapshot = snapshot_for_target(target, revision, DeviceStatus::Ready, Some(applied.after));
                Ok(self.snapshot)
            },
            Err(failure) => {
                let code = if failure.retryable {
                    ErrorCode::Busy
                } else {
                    ErrorCode::Internal
                };
                Err(CommandFailure { code, message: failure.message, retryable: failure.retryable })
            },
        }
    }

    /// After a configuration is committed at `revision`: the published snapshot
    /// carries the revision, and the target DPI of the active Office or CS2
    /// environment from the new configuration (an application environment keeps
    /// its target).
    pub fn after_commit(&mut self, config: &ConfigDocument, revision: u64) -> (snapshot: AgentSnapshot)
        ensures
            snapshot == final(self).published(),
            snapshot == (AgentSnapshot {
                config_revision: revision,
                desired_dpi: match old(self).published().active_environment {
                    IpcEnvironment::Office => config@.profiles.office.dpi,
                    IpcEnvironment::Cs2 => config@.profiles.cs2.dpi,
                    IpcEnvironment::Custom => old(self).published().desired_dpi,
                },
                ..old(self).published()
            }),
            final(self).active_key() == old(self).active_key(),
            final(self).pending() == old(self).pending(),
            final(self).last_applied() == old(self).last_applied(),
            final(self).failures() == old(self).failures(),
            final(self).health() == old(self).health(),
            final(self).recovery() == old(self).recovery(),
    {
        let desired_dpi = match self.snapshot.active_environment {
            IpcEnvironment::Office => config.profiles.office.dpi,
            IpcEnvironment::Cs2 => config.profiles.cs2.dpi,
            IpcEnvironment::Custom => self.snapshot.desired_dpi,
        };
        self.snapshot.config_revision = revision;
        self.snapshot.desired_dpi = desired_dpi;
        self.snapshot
    }

    /// After the selection mode is changed and committed at `revision`: the
    /// published environment is the foreground target's (or, when there is none,
    /// the one the selection picks without a foreground process), with its target
    /// DPI from the configuration (an application environment keeps the previous
    /// target).
    pub fn after_mode_change<F: FnOnce() -> Result<ForegroundProcess, String>>(
        &mut self,
        config: &ConfigDocument,
        revision: u64,
        foreground: F,
    ) -> (snapshot: AgentSnapshot)
        requires
            foreground.requires(()),
        ensures
            snapshot == final(self).published(),
            exists|process: Result<ForegroundProcess, String>|
                #![trigger foreground.ensures((), process)]
                foreground.ensures((), process) && {
                    let environment = match tick_target(config@, process) {
                        Some((_, environment, _)) => environment,
                        None => spec_selected_environment(config@.selection, None),
                    };
                    snapshot == (AgentSnapshot {
                        active_environment: ipc_environment(environment),
                        config_revision: revision,
                        desired_dpi: match environment {
                            Environment::Office => config@.profiles.office.dpi,
                            Environment::Cs2 => config@.profiles.cs2.dpi,
                            Environment::Custom => old(self).published().desired_dpi,
                        },
                        ..old(self).published()
                    })
                },
            final(self).active_key() == old(self).active_key(),
            final(self).pending() == old(self).pending(),
            final(self).last_applied() == old(self).last_applied(),
            final(self).failures() == old(self).failures(),
            final(self).health() == old(self).health(),
            final(self).recovery() == old(self).recovery(),
    {
        let process = foreground();
        let environment = match process {
            Ok(process) => match target_for_process(config, &process) {
                Ok(target) => target.environment,
                Err(_) => selected_environment(config, None),
            },
            Err(_) => selected_environment(config, None),
        };
        self.snapshot.active_environment = match environment {
            Environment::Office => IpcEnvironment::Office,
            Environment::Cs2 => IpcEnvironment::Cs2,
            Environment::Custom => IpcEnvironment::Custom,
        };
        self.snapshot.config_revision = revision;
        self.snapshot.desired_dpi = match environment {
            Environment::Office => config.profiles.office.dpi,
            Environment::Cs2 => config.profiles.cs2.dpi,
            Environment::Custom => self.snapshot.desired_dpi,
        };
        self.snapshot
    }
}

/// What one tick does, from the state after a possible recovery reset and the
/// foreground target it saw, to the delay it asks for and the state after it.
pub open spec fn tick_outcome(
    active: Option<Seq<char>>,
    pending: Option<(Seq<char>, u64)>,
    last_applied: Option<u64>,
    failures: u32,
    published: AgentSnapshot,
    target: Option<(Seq<char>, Environment, u16)>,
    revision: u64,
    now: u64,
    delay: Option<Duration>,
    active_after: Option<Seq<char>>,
    pending_after: Option<(Seq<char>, u64)>,
    last_applied_after: Option<u64>,
    failures_after: u32,
    published_after: AgentSnapshot,
) -> bool {
    match target {
        None => {
            &&& delay == Some(millis_duration(backoff_delay_ms(failures)))
            &&& failures_after == saturating_inc(failures)
            &&& active_after == active && pending_after == pending && last_applied_after == last_applied
            &&& published_after == published
        },
        Some((key, environment, dpi)) => {
            let (decision, pending_decided) = spec_decide(pending, last_applied, key, active, now);
            match decision {
                SwitchDecision::AlreadyActive => {
                    &&& delay is None
                    &&& failures_after == failures && active_after == active && pending_after == pending_decided
                    &&& last_applied_after == last_applied && published_after == published
                },
                SwitchDecision::Wait(ms) => {
                    &&& delay == Some(millis_duration(ms))
                    &&& failures_after == failures && active_after == active && pending_after == pending_decided
                    &&& last_applied_after == last_applied && published_after == published
                },
                SwitchDecision::Apply => {
                    ||| {
                        &&& delay is None
                        &&& active_after == Some(key) && pending_after is None && last_applied_after == Some(now)
                        &&& failures_after == 0
                        &&& published_after == (AgentSnapshot {
                            device_status: DeviceStatus::Ready,
                            active_environment: ipc_environment(environment),
                            config_revision: revision,
                            current_dpi: Some(dpi),
                            desired_dpi: dpi,
                        })
                    }
                    ||| {
                        &&& active_after == active && pending_after == pending_decided
                        &&& last_applied_after == last_applied && published_after == published
                        &&& (delay is None && failures_after == failures || delay == Some(
                            millis_duration(backoff_delay_ms(failures)),
                        ) && failures_after == saturating_inc(failures))
                    }
                },
            }
        },
    }
}

/// The stand-alone foreground watcher: switches only the runtime DPI, once per
/// environment change, and backs off while the foreground or the device fails.
#[derive(Debug)]
pub struct ForegroundWatcher {
    tracker: EnvironmentTracker,
    backoff: RetryBackoff,
}

impl ForegroundWatcher {
    pub closed spec fn environment(&self) -> Option<Environment> {
        self.tracker.current()
    }

    pub closed spec fn failures(&self) -> u32 {
        self.backoff.failures()
    }

    pub fn new() -> (watcher: Self)
        ensures
            watcher.environment() is None,
            watcher.failures() == 0,
    {
        ForegroundWatcher { tracker: EnvironmentTracker::default(), backoff: RetryBackoff::default() }
    }

    /// One tick: the foreground target's DPI is applied when its environment
    /// differs from the one applied last; the result is the delay before the next
    /// look, if any.
    pub fn tick<T: Transport, F: FnOnce() -> Result<ForegroundProcess, String>>(
        &mut self,
        config: &ConfigDocument,
        foreground: F,
        transport: &mut HidppLink<T>,
    ) -> (delay: Option<Duration>)
        requires
            foreground.requires(()),
        ensures
            exists|process: Result<ForegroundProcess, String>|
                #![trigger foreground.ensures((), process)]
                foreground.ensures((), process) && match tick_target(config@, process) {
                    None => delay == Some(millis_duration(backoff_delay_ms(old(self).failures())))
                        && final(self).failures() == saturating_inc(old(self).failures())
                        && final(self).environment() == old(self).environment(),
                    Some((_, environment, _)) => if old(self).environment() == Some(environment) {
                        delay is None && final(self).failures() == old(self).failures()
                            && final(self).environment() == old(self).environment()
                    } else {
                        ||| delay is None && final(self).failures() == 0 && final(self).environment() == Some(
                            environment,
                        )
                        ||| delay is None && final(self).failures() == old(self).failures()
                            && final(self).environment() == old(self).environment()
                        ||| delay == Some(millis_duration(backoff_delay_ms(old(self).failures())))
                            && final(self).failures() == saturating_inc(old(self).failures())
                            && final(self).environment() == old(self).environment()
                    },
                },
    {
        let process = foreground();
        let target = match process {
            Err(_) => {
                return Some(self.backoff.record_failure());
            },
            Ok(process) => match target_for_process(config, &process) {
                Ok(target) => target,
                Err(_) => {
                    return Some(self.backoff.record_failure());
                },
            },
        };
        if self.tracker.current() == Some(target.environment) {
            return None;
        }
        match apply_target_dpi(transport, &target) {
            Ok(_) => {
                self.tracker.observe(target.environment);
                self.backoff.record_success();
                None
            },
            Err(failure) => {
                if failure.retryable {
                    Some(self.backoff.record_failure())
                } else {
                    None
                }
            },
        }
    }
}

/// The draft that sets the selection mode chosen over IPC, everything else as
/// configured.
pub fn selection_mode_draft(config: &ConfigDocument, mode: SelectionMode) -> (draft: ConfigDocument)
    ensures
        draft@ == (DocumentView {
            selection: crate::config::SelectionView {
                mode: match mode {
                    SelectionMode::Auto => ConfigSelectionMode::Auto,
                    SelectionMode::Office => ConfigSelectionMode::Office,
                    SelectionMode::Cs2 => ConfigSelectionMode::Cs2,
                },
                ..config@.selection
            },
            ..config@
        }),
{
    let mut draft = config.copy();
    draft.selection.mode = match mode {
        SelectionMode::Auto => ConfigSelectionMode::Auto,
        SelectionMode::Office => ConfigSelectionMode::Office,
        SelectionMode::Cs2 => ConfigSelectionMode::Cs2,
    };
    draft
}

} // verus!
