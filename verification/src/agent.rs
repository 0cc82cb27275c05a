//! The background agent's decisions: which profile the foreground process gets,
//! how a configured profile becomes the six onboard button bindings, when an
//! environment switch may be applied, when the device counts as unhealthy, how
//! failures are reported, and how a session that may apply profiles answers.

use vstd::prelude::*;

use crate::config::{
    same_text, ActionView, ApplicationProfileConfig, ApplicationView, ButtonActionConfig, ConfigDocument, ConfigError,
    ConfigErrorView, DocumentView, MappingView, ProfileConfig, ProfileName, ProfileView, RuleView, SelectionMode,
    SelectionView, spec_config_message, names_view,
};
use crate::fmt::hex_text;
use crate::g102::{
    activate_first_g102_onboard_mode, apply_first_g102_profile, identity_refusal, identity_verified, probe_first_g102,
    set_first_g102_dpi, HidppLink, Transport, memory_untouched, write_guarded, profile_dpi, lemma_write_guarded_after,
    lemma_write_guarded_before, lemma_memory_untouched_chain, lemma_memory_untouched_refl,
};
use crate::config::{added, extends};
use crate::hidpp::{
    hex4, spec_encode_button, spec_error_message, text, DpiWriteResult, HidppError, HidppErrorView, HidppProbeResult, OnboardButtonAction,
};
use crate::ipc::{
    answers_accepted, dispatch_accepted_request, request_error, request_id_of, spec_protocol_message, AgentSnapshot,
    DeviceStatus, ErrorBody, ErrorCode, ProtocolErrorView, Request, Response, ResponseData, Session,
};
use crate::model::Environment;
use crate::profile::{
    first_match_from, opt_view, rule_matches, select_environment_with_rules, spec_select_environment, ProcessRule,
    SelectionPolicy,
};
use crate::text::{eq_ignore_ascii_case, str_eq_ignore_ascii_case, str_equal, utf8};

verus! {

/// How long a new foreground target must persist before it is applied (ms).
pub const ENVIRONMENT_STABLE_FOR_MS: u64 = 1000;
/// The least time between two profile applications (ms).
pub const PROFILE_APPLY_COOLDOWN_MS: u64 = 5000;
/// Consecutive device failures after which the device counts as unhealthy.
pub const DEVICE_FAILURE_THRESHOLD: u8 = 3;
/// Attempts made to restore the shutdown profile.
pub const SHUTDOWN_MAX_ATTEMPTS: u8 = 3;

// ---------------------------------------------------------------------------
// Switching environments
// ---------------------------------------------------------------------------

#[derive(Debug, Clone, Copy, PartialEq, Eq, Structural)]
pub enum SwitchDecision {
    AlreadyActive,
    /// Ask again after this many milliseconds.
    Wait(u64),
    Apply,
}

/// Debounces foreground changes: a target is applied only after it has been seen
/// continuously for a second, and no sooner than five seconds after the last
/// application. Times are milliseconds on the caller's monotonic clock.
#[derive(Debug)]
pub struct EnvironmentSwitchGuard {
    pending: Option<(String, u64)>,
    last_applied_at: Option<u64>,
}

pub open spec fn pending_view(pending: Option<(String, u64)>) -> Option<(Seq<char>, u64)> {
    match pending {
        Some((target, since)) => Some((target@, since)),
        None => None,
    }
}

pub open spec fn saturating_elapsed(now: u64, since: u64) -> u64 {
    if now >= since {
        (now - since) as u64
    } else {
        0
    }
}

/// The decision, and the pending target afterwards, for a target observed at `now`.
pub open spec fn spec_decide(
    pending: Option<(Seq<char>, u64)>,
    last_applied_at: Option<u64>,
    target: Seq<char>,
    active: Option<Seq<char>>,
    now: u64,
) -> (SwitchDecision, Option<(Seq<char>, u64)>) {
    if active == Some(target) {
        (SwitchDecision::AlreadyActive, None)
    } else if pending is None || pending->Some_0.0 != target {
        (SwitchDecision::Wait(ENVIRONMENT_STABLE_FOR_MS), Some((target, now)))
    } else if saturating_elapsed(now, pending->Some_0.1) < ENVIRONMENT_STABLE_FOR_MS {
        (
            SwitchDecision::Wait((ENVIRONMENT_STABLE_FOR_MS - saturating_elapsed(now, pending->Some_0.1)) as u64),
            pending,
        )
    } else if last_applied_at is Some && saturating_elapsed(now, last_applied_at->Some_0)
        < PROFILE_APPLY_COOLDOWN_MS {
        (
            SwitchDecision::Wait(
                (PROFILE_APPLY_COOLDOWN_MS - saturating_elapsed(now, last_applied_at->Some_0)) as u64,
            ),
            pending,
        )
    } else {
        (SwitchDecision::Apply, pending)
    }
}

impl Default for EnvironmentSwitchGuard {
    fn default() -> (guard: Self)
        ensures
            guard.pending_target() is None,
            guard.last_applied() is None,
    {
        EnvironmentSwitchGuard { pending: None, last_applied_at: None }
    }
}

impl EnvironmentSwitchGuard {
    pub closed spec fn pending_target(&self) -> Option<(Seq<char>, u64)> {
        pending_view(self.pending)
    }

    pub closed spec fn last_applied(&self) -> Option<u64> {
        self.last_applied_at
    }

    /// Decides what to do about `target` while `active` is applied.
    pub fn decide(&mut self, target: &str, active: Option<&str>, now: u64) -> (decision: SwitchDecision)
        ensures
            (decision, final(self).pending_target()) == spec_decide(
                old(self).pending_target(),
                old(self).last_applied(),
                target@,
                opt_view(active),
                now,
            ),
            final(self).last_applied() == old(self).last_applied(),
    {
        let is_active = match active {
            Some(name) => str_equal(name, target),
            None => false,
        };
        if is_active {
            self.pending = None;
            return SwitchDecision::AlreadyActive;
        }
        let same_pending = match &self.pending {
            Some((pending_target, _)) => str_equal(pending_target.as_str(), target),
            None => false,
        };
        if !same_pending {
            self.pending = Some((text(target), now));
            return SwitchDecision::Wait(ENVIRONMENT_STABLE_FOR_MS);
        }
        let pending_since = match &self.pending {
            Some((_, since)) => *since,
            None => now,
        };
        let stable_elapsed = now.saturating_sub(pending_since);
        if stable_elapsed < ENVIRONMENT_STABLE_FOR_MS {
            return SwitchDecision::Wait(ENVIRONMENT_STABLE_FOR_MS - stable_elapsed);
        }
        if let Some(last_applied_at) = self.last_applied_at {
            let cooldown_elapsed = now.saturating_sub(last_applied_at);
            if cooldown_elapsed < PROFILE_APPLY_COOLDOWN_MS {
                return SwitchDecision::Wait(PROFILE_APPLY_COOLDOWN_MS - cooldown_elapsed);
            }
        }
        SwitchDecision::Apply
    }

    /// Forgets the pending target, as after a device recovery.
    pub fn clear_pending(&mut self)
        ensures
            final(self).pending_target() is None,
            final(self).last_applied() == old(self).last_applied(),
    {
        self.pending = None;
    }

    /// Records that a profile was applied at `now`.
    pub fn record_applied(&mut self, now: u64)
        ensures
            final(self).pending_target() is None,
            final(self).last_applied() == Some(now),
    {
        self.pending = None;
        self.last_applied_at = Some(now);
    }
}

/// A switch is applied only for the target that has been pending, after it has
/// been stable for the required time, and outside the cooldown after the last
/// application.
pub proof fn lemma_apply_needs_stable_target(
    pending: Option<(Seq<char>, u64)>,
    last_applied_at: Option<u64>,
    target: Seq<char>,
    active: Option<Seq<char>>,
    now: u64,
)
    requires
        spec_decide(pending, last_applied_at, target, active, now).0 == SwitchDecision::Apply,
    ensures
        active != Some(target),
        pending matches Some((pending_target, since)) && pending_target == target && since <= now && now - since
            >= ENVIRONMENT_STABLE_FOR_MS,
        last_applied_at matches Some(applied) ==> saturating_elapsed(now, applied) >= PROFILE_APPLY_COOLDOWN_MS,
{
}

// ---------------------------------------------------------------------------
// Device health
// ---------------------------------------------------------------------------

/// Counts consecutive device failures and reports the moment the device becomes
/// unhealthy, once per unhealthy spell.
#[derive(Debug)]
pub struct DeviceHealthMonitor {
    consecutive_failures: u8,
    unhealthy: bool,
}

impl Default for DeviceHealthMonitor {
    fn default() -> (monitor: Self)
        ensures
            monitor.failures() == 0,
            !monitor.is_unhealthy(),
    {
        DeviceHealthMonitor { consecutive_failures: 0, unhealthy: false }
    }
}

/// The state after one more failure, and whether that failure signals.
pub open spec fn after_failure(failures: u8, unhealthy: bool) -> (u8, bool, bool) {
    let count: u8 = if failures == u8::MAX {
        failures
    } else {
        (failures + 1) as u8
    };
    if !unhealthy && count >= DEVICE_FAILURE_THRESHOLD {
        (count, true, true)
    } else {
        (count, unhealthy, false)
    }
}

impl DeviceHealthMonitor {
    pub closed spec fn failures(&self) -> u8 {
        self.consecutive_failures
    }

    pub closed spec fn is_unhealthy(&self) -> bool {
        self.unhealthy
    }

    pub fn record_success(&mut self)
        ensures
            final(self).failures() == 0,
            !final(self).is_unhealthy(),
    {
        self.consecutive_failures = 0;
        self.unhealthy = false;
    }

    /// Counts a failure; true exactly when this failure makes the device unhealthy.
    pub fn record_failure(&mut self) -> (signal: bool)
        ensures
            (final(self).failures(), final(self).is_unhealthy(), signal) == after_failure(
                old(self).failures(),
                old(self).is_unhealthy(),
            ),
    {
        self.consecutive_failures = self.consecutive_failures.saturating_add(1);
        if !self.unhealthy && self.consecutive_failures >= DEVICE_FAILURE_THRESHOLD {
            self.unhealthy = true;
            return true;
        }
        false
    }
}

/// The health state after `n` consecutive failures from a healthy, zero state.
pub open spec fn after_failures(n: nat) -> (u8, bool, bool)
    decreases n,
{
    if n == 0 {
        (0, false, false)
    } else {
        let previous = after_failures((n - 1) as nat);
        after_failure(previous.0, previous.1)
    }
}

/// After a success, the device is reported unhealthy by the third consecutive
/// failure and by no other: transient failures are ignored and the signal comes
/// once per spell.
pub proof fn lemma_health_signals_once(n: nat)
    ensures
        after_failures(n).2 <==> n == DEVICE_FAILURE_THRESHOLD,
        after_failures(n).1 <==> n >= DEVICE_FAILURE_THRESHOLD,
        after_failures(n).0 == if n <= 255 {
            n
        } else {
            255
        },
    decreases n,
{
    if n > 0 {
        lemma_health_signals_once((n - 1) as nat);
    }
}

// ---------------------------------------------------------------------------
// Profiles to onboard button bindings
// ---------------------------------------------------------------------------

/// The binding that clicks mouse button `button` (1 = left).
pub open spec fn spec_mouse_button(button: u8) -> OnboardButtonAction {
    OnboardButtonAction::Mouse { button: Some(button), mask: (1u16 << ((button - 1) as u8)) }
}

pub fn mouse_button_action(button: u8) -> (action: OnboardButtonAction)
    requires
        1 <= button <= 16,
    ensures
        action == spec_mouse_button(button),
{
    OnboardButtonAction::Mouse { button: Some(button), mask: 1u16 << (button - 1) }
}

/// The onboard binding of a configured action, or why it has none.
pub open spec fn spec_onboard_action(action: ActionView) -> Result<OnboardButtonAction, Seq<char>> {
    match action {
        ActionView::LogicalControl { value } => if value == "mouse:left"@ {
            Ok(spec_mouse_button(1))
        } else if value == "mouse:right"@ {
            Ok(spec_mouse_button(2))
        } else if value == "mouse:middle"@ {
            Ok(spec_mouse_button(3))
        } else if value == "mouse:back"@ {
            Ok(spec_mouse_button(4))
        } else if value == "mouse:forward"@ {
            Ok(spec_mouse_button(5))
        } else if value == "mouse:dpi_cycle"@ {
            Ok(OnboardButtonAction::Special { code: 0x05, profile: 0 })
        } else {
            Err("不支持的板载逻辑动作："@ + value)
        },
        ActionView::OnboardKeyboard { usage_page, usage, modifiers } => if usage_page != 0x07 || usage > 0xff {
            Err(
                "G102 板载键盘动作不支持 usage_page=0x"@ + hex4(usage_page as int) + ", usage=0x"@ + hex4(
                    usage as int,
                ),
            )
        } else {
            Ok(OnboardButtonAction::Keyboard { modifiers, key: usage as u8 })
        },
        ActionView::OnboardConsumer { usage } => Ok(OnboardButtonAction::ConsumerControl { usage }),
        ActionView::Disabled => Ok(OnboardButtonAction::Disabled),
    }
}

/// Law: a shortcut on the keyboard usage page is stored as that key together with
/// the configured modifier byte, so the binding the mouse receives is
/// `[0x80, 0x02, modifiers, usage]`: the mouse sends exactly the configured
/// shortcut.
pub proof fn lemma_keyboard_binding_keeps_shortcut(usage: u16, modifiers: u8)
    requires
        usage <= 0xff,
    ensures
        spec_onboard_action(ActionView::OnboardKeyboard { usage_page: 0x07, usage, modifiers }) == Ok::<
            OnboardButtonAction,
            Seq<char>,
        >(OnboardButtonAction::Keyboard { modifiers, key: usage as u8 }),
        spec_encode_button(OnboardButtonAction::Keyboard { modifiers, key: usage as u8 }) == Some(
            seq![0x80u8, 0x02u8, modifiers, usage as u8],
        ),
{
}

/// The four binding bytes the mouse stores for a configured action, if it has any.
pub open spec fn stored_binding(action: ActionView) -> Option<Seq<u8>> {
    match spec_onboard_action(action) {
        Ok(binding) => spec_encode_button(binding),
        Err(_) => None,
    }
}

/// Law: each configured mouse action is stored as the binding that makes the mouse
/// perform it: left, right, middle, back and forward as HID mouse buttons 1 to 5
/// (masks 0x01, 0x02, 0x04, 0x08, 0x10), the DPI cycle as special function 5, a
/// consumer-control usage as that usage, and a disabled button as all ones.
pub proof fn lemma_actions_are_stored_as_configured(usage: u16)
    ensures
        stored_binding(ActionView::LogicalControl { value: "mouse:left"@ }) == Some(seq![0x80u8, 0x01u8, 0x00u8, 0x01u8]),
        stored_binding(ActionView::LogicalControl { value: "mouse:right"@ }) == Some(seq![0x80u8, 0x01u8, 0x00u8, 0x02u8]),
        stored_binding(ActionView::LogicalControl { value: "mouse:middle"@ }) == Some(
            seq![0x80u8, 0x01u8, 0x00u8, 0x04u8],
        ),
        stored_binding(ActionView::LogicalControl { value: "mouse:back"@ }) == Some(seq![0x80u8, 0x01u8, 0x00u8, 0x08u8]),
        stored_binding(ActionView::LogicalControl { value: "mouse:forward"@ }) == Some(
            seq![0x80u8, 0x01u8, 0x00u8, 0x10u8],
        ),
        stored_binding(ActionView::LogicalControl { value: "mouse:dpi_cycle"@ }) == Some(
            seq![0x90u8, 0x05u8, 0x00u8, 0x00u8],
        ),
        stored_binding(ActionView::OnboardConsumer { usage }) == Some(
            seq![0x80u8, 0x03u8, (usage / 256) as u8, (usage % 256) as u8],
        ),
        stored_binding(ActionView::Disabled) == Some(seq![0xffu8, 0xffu8, 0xffu8, 0xffu8]),
{
    reveal_strlit("mouse:left");
    reveal_strlit("mouse:right");
    reveal_strlit("mouse:middle");
    reveal_strlit("mouse:back");
    reveal_strlit("mouse:forward");
    reveal_strlit("mouse:dpi_cycle");
    assert(1u16 << 0u8 == 0x01u16) by (bit_vector);
    assert(1u16 << 1u8 == 0x02u16) by (bit_vector);
    assert(1u16 << 2u8 == 0x04u16) by (bit_vector);
    assert(1u16 << 3u8 == 0x08u16) by (bit_vector);
    assert(1u16 << 4u8 == 0x10u16) by (bit_vector);
    assert("mouse:right"@ != "mouse:left"@) by {
        assert("mouse:right"@[6] != "mouse:left"@[6]);
    }
    assert("mouse:middle"@ != "mouse:left"@ && "mouse:middle"@ != "mouse:right"@) by {
        assert("mouse:middle"@.len() != "mouse:left"@.len());
        assert("mouse:middle"@[6] != "mouse:right"@[6]);
    }
    assert("mouse:back"@ != "mouse:left"@ && "mouse:back"@ != "mouse:right"@ && "mouse:back"@ != "mouse:middle"@) by {
        assert("mouse:back"@[6] != "mouse:left"@[6]);
        assert("mouse:back"@[6] != "mouse:right"@[6]);
        assert("mouse:back"@[6] != "mouse:middle"@[6]);
    }
    assert("mouse:forward"@ != "mouse:left"@ && "mouse:forward"@ != "mouse:right"@ && "mouse:forward"@ != "mouse:middle"@
        && "mouse:forward"@ != "mouse:back"@) by {
        assert("mouse:forward"@[6] != "mouse:left"@[6]);
        assert("mouse:forward"@[6] != "mouse:right"@[6]);
        assert("mouse:forward"@[6] != "mouse:middle"@[6]);
        assert("mouse:forward"@[6] != "mouse:back"@[6]);
    }
    assert("mouse:dpi_cycle"@ != "mouse:left"@ && "mouse:dpi_cycle"@ != "mouse:right"@ && "mouse:dpi_cycle"@
        != "mouse:middle"@ && "mouse:dpi_cycle"@ != "mouse:back"@ && "mouse:dpi_cycle"@ != "mouse:forward"@) by {
        assert("mouse:dpi_cycle"@[6] != "mouse:left"@[6]);
        assert("mouse:dpi_cycle"@[6] != "mouse:right"@[6]);
        assert("mouse:dpi_cycle"@[6] != "mouse:middle"@[6]);
        assert("mouse:dpi_cycle"@[6] != "mouse:back"@[6]);
        assert("mouse:dpi_cycle"@[6] != "mouse:forward"@[6]);
    }
}

pub fn onboard_action_from_config(action: &ButtonActionConfig) -> (r: Result<OnboardButtonAction, String>)
    ensures
        match spec_onboard_action(action@) {
            Ok(binding) => r is Ok && r->Ok_0 == binding,
            Err(message) => r is Err && r->Err_0@ == message,
        },
        match action@ {
            ActionView::OnboardKeyboard { usage_page, usage, modifiers } => usage_page == 0x07 && usage <= 0xff ==> r
                == Ok::<OnboardButtonAction, String>(OnboardButtonAction::Keyboard { modifiers, key: usage as u8 }),
            _ => true,
        },
{
    match action {
        ButtonActionConfig::LogicalControl { value } => {
            let value = value.as_str();
            if str_equal(value, "mouse:left") {
                Ok(mouse_button_action(1))
            } else if str_equal(value, "mouse:right") {
                Ok(mouse_button_action(2))
            } else if str_equal(value, "mouse:middle") {
                Ok(mouse_button_action(3))
            } else if str_equal(value, "mouse:back") {
                Ok(mouse_button_action(4))
            } else if str_equal(value, "mouse:forward") {
                Ok(mouse_button_action(5))
            } else if str_equal(value, "mouse:dpi_cycle") {
                Ok(OnboardButtonAction::Special { code: 0x05, profile: 0 })
            } else {
                let mut m = text("不支持的板载逻辑动作：");
                m.append(value);
                Err(m)
            }
        },
        ButtonActionConfig::OnboardKeyboard { usage_page, usage, modifiers } => {
            if *usage_page != 0x07 || *usage > 0xff {
                let mut m = text("G102 板载键盘动作不支持 usage_page=0x");
                m.append(hex_text(*usage_page as u64, 4).as_str());
                m.append(", usage=0x");
                m.append(hex_text(*usage as u64, 4).as_str());
                return Err(m);
            }
            Ok(OnboardButtonAction::Keyboard { modifiers: *modifiers, key: *usage as u8 })
        },
        ButtonActionConfig::OnboardConsumer { usage } => Ok(OnboardButtonAction::ConsumerControl { usage: *usage }),
        ButtonActionConfig::Disabled => Ok(OnboardButtonAction::Disabled),
    }
}

/// The G102's controls in onboard slot order.
pub open spec fn control_names() -> Seq<Seq<char>> {
    seq!["g102:left"@, "g102:right"@, "g102:middle"@, "g102:side_back"@, "g102:side_forward"@, "g102:dpi"@]
}

/// The first slot, from `k` on, of the control called `control`.
pub open spec fn slot_from(control: Seq<char>, k: int) -> Option<int>
    decreases 6 - k,
{
    if k < 0 || k >= 6 {
        None
    } else if control_names()[k] == control {
        Some(k)
    } else {
        slot_from(control, k + 1)
    }
}

pub open spec fn unbound_slots() -> (Seq<OnboardButtonAction>, Seq<bool>) {
    (
        seq![
            OnboardButtonAction::Disabled,
            OnboardButtonAction::Disabled,
            OnboardButtonAction::Disabled,
            OnboardButtonAction::Disabled,
            OnboardButtonAction::Disabled,
            OnboardButtonAction::Disabled,
        ],
        seq![false, false, false, false, false, false],
    )
}

/// The slots after the first `n` mappings: each mapping's binding goes to its
/// control's slot, a later mapping of the same control winning.
pub open spec fn assign_slots(ms: Seq<MappingView>, n: int) -> Result<(Seq<OnboardButtonAction>, Seq<bool>), Seq<char>>
    decreases n,
{
    if n <= 0 {
        Ok(unbound_slots())
    } else {
        match assign_slots(ms, n - 1) {
            Err(e) => Err(e),
            Ok((actions, assigned)) => match slot_from(ms[n - 1].physical_control, 0) {
                None => Err("不支持的 G102 物理按键："@ + ms[n - 1].physical_control),
                Some(k) => match spec_onboard_action(ms[n - 1].action) {
                    Err(e) => Err(e),
                    Ok(binding) => Ok((actions.update(k, binding), assigned.update(k, true))),
                },
            },
        }
    }
}

pub open spec fn first_unassigned(assigned: Seq<bool>, k: int) -> Option<int>
    decreases 6 - k,
{
    if k < 0 || k >= 6 {
        None
    } else if !assigned[k] {
        Some(k)
    } else {
        first_unassigned(assigned, k + 1)
    }
}

/// The six onboard bindings of a profile, or why it cannot be written.
pub open spec fn spec_button_actions(p: ProfileView) -> Result<Seq<OnboardButtonAction>, Seq<char>> {
    match assign_slots(p.button_mappings, p.button_mappings.len() as int) {
        Err(e) => Err(e),
        Ok((actions, assigned)) => match first_unassigned(assigned, 0) {
            Some(k) => Err("配置缺少 G102 按键映射："@ + control_names()[k]),
            None => Ok(actions),
        },
    }
}

fn control_name(k: usize) -> (name: &'static str)
    requires
        k < 6,
    ensures
        name@ == control_names()[k as int],
{
    if k == 0 {
        "g102:left"
    } else if k == 1 {
        "g102:right"
    } else if k == 2 {
        "g102:middle"
    } else if k == 3 {
        "g102:side_back"
    } else if k == 4 {
        "g102:side_forward"
    } else {
        "g102:dpi"
    }
}

fn control_slot(control: &str) -> (r: Option<usize>)
    ensures
        match slot_from(control@, 0) {
            Some(k) => r == Some(k as usize),
            None => r is None,
        },
        r matches Some(k) ==> k < 6 && slot_from(control@, 0) == Some(k as int),
{
    let mut k: usize = 0;
    while k < 6
        invariant
            k <= 6,
            slot_from(control@, 0) == slot_from(control@, k as int),
        decreases 6 - k,
    {
        if str_equal(control_name(k), control) {
            return Some(k);
        }
        k = k + 1;
    }
    None
}

/// The six onboard bindings (left, right, middle, back, forward, DPI) of a
/// profile; every control must be mapped and every action representable.
pub fn button_actions_for_profile(profile: &ProfileConfig) -> (r: Result<[OnboardButtonAction; 6], String>)
    ensures
        match spec_button_actions(profile@) {
            Ok(actions) => r is Ok && r->Ok_0@ == actions,
            Err(message) => r is Err && r->Err_0@ == message,
        },
{
    let ghost ms = profile@.button_mappings;
    let mut actions: [OnboardButtonAction; 6] = [
        OnboardButtonAction::Disabled,
        OnboardButtonAction::Disabled,
        OnboardButtonAction::Disabled,
        OnboardButtonAction::Disabled,
        OnboardButtonAction::Disabled,
        OnboardButtonAction::Disabled,
    ];
    let mut assigned: [bool; 6] = [false, false, false, false, false, false];
    assert(actions@ =~= unbound_slots().0);
    assert(assigned@ =~= unbound_slots().1);
    let mut i: usize = 0;
    while i < profile.button_mappings.len()
        invariant
            i <= profile.button_mappings@.len(),
            ms == profile@.button_mappings,
            ms.len() == profile.button_mappings@.len(),
            assign_slots(ms, i as int) == Ok::<(Seq<OnboardButtonAction>, Seq<bool>), Seq<char>>(
                (actions@, assigned@),
            ),
        decreases profile.button_mappings.len() - i,
    {
        let mapping = &profile.button_mappings[i];
        assert(ms[i as int] == mapping@);
        let slot = match control_slot(mapping.physical_control.as_str()) {
            Some(slot) => slot,
            None => {
                let mut m = text("不支持的 G102 物理按键：");
                m.append(mapping.physical_control.as_str());
                assert(assign_slots(ms, i + 1) is Err);
                proof {
                    lemma_assign_error_persists(ms, i as int + 1, ms.len() as int);
                }
                return Err(m);
            },
        };
        let binding = match onboard_action_from_config(&mapping.action) {
            Ok(binding) => binding,
            Err(message) => {
                proof {
                    lemma_assign_error_persists(ms, i as int + 1, ms.len() as int);
                }
                return Err(message);
            },
        };
        let ghost before_actions = actions@;
        let ghost before_assigned = assigned@;
        actions[slot] = binding;
        assigned[slot] = true;
        proof {
            assert(actions@ =~= before_actions.update(slot as int, binding));
            assert(assigned@ =~= before_assigned.update(slot as int, true));
            assert(slot_from(ms[i as int].physical_control, 0) == Some(slot as int));
            assert(spec_onboard_action(ms[i as int].action) == Ok::<OnboardButtonAction, Seq<char>>(binding));
            assert(assign_slots(ms, i + 1) == Ok::<(Seq<OnboardButtonAction>, Seq<bool>), Seq<char>>(
                (before_actions.update(slot as int, binding), before_assigned.update(slot as int, true)),
            ));
        }
        i = i + 1;
    }
    let mut k: usize = 0;
    while k < 6
        invariant
            k <= 6,
            assigned@.len() == 6,
            ms == profile@.button_mappings,
            assign_slots(ms, ms.len() as int) == Ok::<(Seq<OnboardButtonAction>, Seq<bool>), Seq<char>>(
                (actions@, assigned@),
            ),
            first_unassigned(assigned@, 0) == first_unassigned(assigned@, k as int),
        decreases 6 - k,
    {
        if !assigned[k] {
            let mut m = text("配置缺少 G102 按键映射：");
            m.append(control_name(k));
            return Err(m);
        }
        k = k + 1;
    }
    Ok(actions)
}

/// Once the mappings up to `i` fail, the mappings up to any later `n` fail the same way.
proof fn lemma_assign_error_persists(ms: Seq<MappingView>, i: int, n: int)
    requires
        0 < i <= n,
        assign_slots(ms, i) is Err,
    ensures
        assign_slots(ms, n) == assign_slots(ms, i),
    decreases n - i,
{
    if n > i {
        lemma_assign_error_persists(ms, i, n - 1);
    }
}

// ---------------------------------------------------------------------------
// Choosing the target profile
// ---------------------------------------------------------------------------

/// What the agent applies for a foreground process.
#[derive(Debug)]
pub struct EnvironmentTarget {
    pub executable_name: String,
    pub process_id: u64,
    pub environment: Environment,
    pub profile_key: String,
    pub profile_name: String,
    pub dpi: u16,
    pub report_rate_hz: u16,
    pub button_actions: [OnboardButtonAction; 6],
    pub dpi_levels: [u16; 4],
}

pub open spec fn policy_of(mode: SelectionMode) -> SelectionPolicy {
    match mode {
        SelectionMode::Auto => SelectionPolicy::Auto,
        SelectionMode::Office => SelectionPolicy::Fixed(Environment::Office),
        SelectionMode::Cs2 => SelectionPolicy::Fixed(Environment::Cs2),
        SelectionMode::Application => SelectionPolicy::Fixed(Environment::Office),
    }
}

pub open spec fn environment_of(name: ProfileName) -> Environment {
    match name {
        ProfileName::Office => Environment::Office,
        ProfileName::Cs2 => Environment::Cs2,
    }
}

/// Some process name of the rule equals `name`, ignoring ASCII case.
pub open spec fn rule_view_matches(rule: RuleView, name: Seq<char>) -> bool {
    exists|k: int|
        0 <= k < rule.process_names.len() && eq_ignore_ascii_case(utf8(#[trigger] rule.process_names[k]), utf8(name))
}

pub open spec fn first_rule_from(rules: Seq<RuleView>, name: Seq<char>, i: int) -> Option<Environment>
    decreases rules.len() - i,
{
    if i < 0 || i >= rules.len() {
        None
    } else if rule_view_matches(rules[i], name) {
        Some(environment_of(rules[i].environment))
    } else {
        first_rule_from(rules, name, i + 1)
    }
}

/// The built-in environment for an executable under the selection settings.
pub open spec fn spec_selected_environment(selection: SelectionView, executable_name: Option<Seq<char>>) -> Environment {
    match policy_of(selection.mode) {
        SelectionPolicy::Fixed(environment) => environment,
        SelectionPolicy::Auto => match executable_name {
            Some(name) => match first_rule_from(selection.rules, name, 0) {
                Some(environment) => environment,
                None => Environment::Office,
            },
            None => Environment::Office,
        },
    }
}

proof fn lemma_rules_agree(rules: Seq<ProcessRule>, views: Seq<RuleView>, name: Seq<char>, i: int)
    requires
        rules.len() == views.len(),
        forall|j: int|
            0 <= j < rules.len() ==> (#[trigger] rules[j]).environment == environment_of(views[j].environment)
                && names_view(rules[j].process_names@) == views[j].process_names,
    ensures
        first_match_from(rules, name, i) == first_rule_from(views, name, i),
    decreases rules.len() - i,
{
    if 0 <= i < rules.len() {
        let names = rules[i].process_names@;
        let shown = views[i].process_names;
        assert(names_view(names) == shown);
        if rule_matches(rules[i], name) {
            let k = choose|k: int| 0 <= k < names.len() && eq_ignore_ascii_case(utf8(#[trigger] names[k]@), utf8(name));
            assert(shown[k] == names[k]@);
            assert(rule_view_matches(views[i], name));
        }
        if rule_view_matches(views[i], name) {
            let k = choose|k: int| 0 <= k < shown.len() && eq_ignore_ascii_case(utf8(#[trigger] shown[k]), utf8(name));
            assert(shown[k] == names[k]@);
            assert(rule_matches(rules[i], name));
        }
        lemma_rules_agree(rules, views, name, i + 1);
    }
}

/// The built-in environment for the executable: a fixed selection mode wins
/// (fixed application mode falls back to Office), otherwise the first process rule
/// naming the executable, otherwise Office.
pub fn selected_environment(config: &ConfigDocument, executable_name: Option<&str>) -> (environment: Environment)
    ensures
        environment == spec_selected_environment(config@.selection, opt_view(executable_name)),
{
    let policy = match config.selection.mode {
        SelectionMode::Auto => SelectionPolicy::Auto,
        SelectionMode::Office => SelectionPolicy::Fixed(Environment::Office),
        SelectionMode::Cs2 => SelectionPolicy::Fixed(Environment::Cs2),
        SelectionMode::Application => SelectionPolicy::Fixed(Environment::Office),
    };
    let ghost views = config@.selection.rules;
    let mut rules: Vec<ProcessRule> = Vec::new();
    let mut i: usize = 0;
    while i < config.selection.rules.len()
        invariant
            i <= config.selection.rules@.len(),
            views == config@.selection.rules,
            views.len() == config.selection.rules@.len(),
            rules@.len() == i,
            forall|j: int|
                0 <= j < i ==> (#[trigger] rules@[j]).environment == environment_of(views[j].environment)
                    && names_view(rules@[j].process_names@) == views[j].process_names,
        decreases config.selection.rules.len() - i,
    {
        let rule = &config.selection.rules[i];
        assert(views[i as int] == rule@);
        let environment = match rule.environment {
            ProfileName::Office => Environment::Office,
            ProfileName::Cs2 => Environment::Cs2,
        };
        rules.push(ProcessRule { environment, process_names: crate::config::copy_names(&rule.process_names) });
        i = i + 1;
    }
    proof {
        if let Some(name) = executable_name {
            lemma_rules_agree(rules@, views, name@, 0);
        }
    }
    select_environment_with_rules(policy, executable_name, rules.as_slice())
}

/// The first application, from index `i` on, whose process name is `name` ignoring ASCII case.
pub open spec fn first_app_by_process(apps: Seq<ApplicationView>, name: Seq<char>, i: int) -> Option<int>
    decreases apps.len() - i,
{
    if i < 0 || i >= apps.len() {
        None
    } else if same_text(apps[i].process_name, name) {
        Some(i)
    } else {
        first_app_by_process(apps, name, i + 1)
    }
}

/// The first application, from index `i` on, with exactly the id `id`.
pub open spec fn first_app_by_id(apps: Seq<ApplicationView>, id: Seq<char>, i: int) -> Option<int>
    decreases apps.len() - i,
{
    if i < 0 || i >= apps.len() {
        None
    } else if apps[i].id == id {
        Some(i)
    } else {
        first_app_by_id(apps, id, i + 1)
    }
}

/// The imported application environment that applies, if any: in automatic mode
/// the one whose process name matches, in fixed application mode the chosen one.
pub open spec fn spec_custom_application(doc: DocumentView, executable_name: Seq<char>) -> Option<int> {
    match doc.selection.mode {
        SelectionMode::Auto => first_app_by_process(doc.applications, executable_name, 0),
        SelectionMode::Application => match doc.selection.fixed_application_id {
            Some(id) => first_app_by_id(doc.applications, id, 0),
            None => None,
        },
        _ => None,
    }
}

pub fn custom_application_for_process<'a>(config: &'a ConfigDocument, executable_name: &str) -> (r: Option<
    &'a ApplicationProfileConfig,
>)
    ensures
        match spec_custom_application(config@, executable_name@) {
            Some(k) => r is Some && 0 <= k < config@.applications.len() && r->Some_0@ == config@.applications[k],
            None => r is None,
        },
{
    let ghost apps = config@.applications;
    match config.selection.mode {
        SelectionMode::Auto => {
            let mut i: usize = 0;
            while i < config.applications.len()
                invariant
                    i <= config.applications@.len(),
                    apps == config@.applications,
                    apps.len() == config.applications@.len(),
                    config.selection.mode == SelectionMode::Auto,
                    first_app_by_process(apps, executable_name@, 0) == first_app_by_process(
                        apps,
                        executable_name@,
                        i as int,
                    ),
                decreases config.applications.len() - i,
            {
                assert(apps[i as int] == config.applications@[i as int]@);
                if str_eq_ignore_ascii_case(config.applications[i].process_name.as_str(), executable_name) {
                    return Some(&config.applications[i]);
                }
                i = i + 1;
            }
            None
        },
        SelectionMode::Application => match &config.selection.fixed_application_id {
            Some(id) => {
                let mut i: usize = 0;
                while i < config.applications.len()
                    invariant
                        i <= config.applications@.len(),
                        apps == config@.applications,
                        apps.len() == config.applications@.len(),
                        config.selection.mode == SelectionMode::Application,
                        config@.selection.fixed_application_id == Some(id@),
                        first_app_by_id(apps, id@, 0) == first_app_by_id(apps, id@, i as int),
                    decreases config.applications.len() - i,
                {
                    assert(apps[i as int] == config.applications@[i as int]@);
                    if str_equal(config.applications[i].id.as_str(), id.as_str()) {
                        return Some(&config.applications[i]);
                    }
                    i = i + 1;
                }
                None
            },
            None => None,
        },
        _ => None,
    }
}

/// The environment, profile key, profile name and profile chosen for an executable.
pub open spec fn spec_target_choice(doc: DocumentView, executable_name: Seq<char>) -> (
    Environment,
    Seq<char>,
    Seq<char>,
    ProfileView,
) {
    match spec_custom_application(doc, executable_name) {
        Some(k) => (
            Environment::Custom,
            "application:"@ + doc.applications[k].id,
            doc.applications[k].name,
            doc.applications[k].profile,
        ),
        None => if spec_selected_environment(doc.selection, Some(executable_name)) == Environment::Office {
            (Environment::Office, "office"@, "办公环境"@, doc.profiles.office)
        } else {
            (Environment::Cs2, "cs2"@, "CS 环境"@, doc.profiles.cs2)
        },
    }
}

/// The target built from a choice and the profile's bindings.
pub open spec fn target_is(
    target: EnvironmentTarget,
    executable_name: Seq<char>,
    process_id: u64,
    choice: (Environment, Seq<char>, Seq<char>, ProfileView),
    actions: Seq<OnboardButtonAction>,
) -> bool {
    &&& target.executable_name@ == executable_name
    &&& target.process_id == process_id
    &&& target.environment == choice.0
    &&& target.profile_key@ == choice.1
    &&& target.profile_name@ == choice.2
    &&& target.dpi == choice.3.dpi
    &&& target.report_rate_hz == choice.3.report_rate_hz
    &&& target.button_actions@ == actions
    &&& target.dpi_levels@ == choice.3.dpi_levels
}

fn levels_array(levels: &Vec<u16>) -> (array: [u16; 4])
    requires
        levels@.len() == 4,
    ensures
        array@ == levels@,
{
    let array = [levels[0], levels[1], levels[2], levels[3]];
    assert(array@ =~= levels@);
    array
}

/// Why no target can be built for the foreground executable, if none can: the
/// chosen profile's bindings are refused, or it does not have four DPI levels.
pub open spec fn target_error(doc: DocumentView, executable_name: Seq<char>) -> Option<Seq<char>> {
    match spec_button_actions(spec_target_choice(doc, executable_name).3) {
        Err(message) => Some(message),
        Ok(_) => if spec_target_choice(doc, executable_name).3.dpi_levels.len() != 4 {
            Some("DPI 档位必须正好包含四项"@)
        } else {
            None
        },
    }
}

/// The process that owns the foreground window.
#[derive(Debug, Clone, PartialEq, Eq)]
pub struct ForegroundProcess {
    pub executable_name: String,
    pub process_id: u64,
}

/// The target for the foreground process: an imported application environment
/// when one applies, else the Office or CS2 profile the selection picks.
pub fn target_for_process(config: &ConfigDocument, foreground: &ForegroundProcess) -> (r: Result<
    EnvironmentTarget,
    String,
>)
    ensures
        match spec_button_actions(spec_target_choice(config@, foreground.executable_name@).3) {
            Err(message) => r is Err && r->Err_0@ == message,
            Ok(actions) => if spec_target_choice(config@, foreground.executable_name@).3.dpi_levels.len() != 4 {
                r is Err && r->Err_0@ == "DPI 档位必须正好包含四项"@
            } else {
                r is Ok && target_is(
                    r->Ok_0,
                    foreground.executable_name@,
                    foreground.process_id,
                    spec_target_choice(config@, foreground.executable_name@),
                    actions,
                )
            },
        },
{
    let executable_name = foreground.executable_name.as_str();
    let process_id = foreground.process_id;
    let custom = custom_application_for_process(config, executable_name);
    let (environment, profile_key, profile_name, profile) = match custom {
        Some(application) => {
            let mut key = text("application:");
            key.append(application.id.as_str());
            (Environment::Custom, key, application.name.clone(), &application.profile)
        },
        None => {
            let environment = selected_environment(config, Some(executable_name));
            match environment {
                Environment::Office => (Environment::Office, text("office"), text("办公环境"), &config.profiles.office),
                _ => (Environment::Cs2, text("cs2"), text("CS 环境"), &config.profiles.cs2),
            }
        },
    };
    let dpi = profile.dpi;
    let button_actions = button_actions_for_profile(profile)?;
    if profile.dpi_levels.len() != 4 {
        return Err(text("DPI 档位必须正好包含四项"));
    }
    let dpi_levels = levels_array(&profile.dpi_levels);
    Ok(
        EnvironmentTarget {
            executable_name: text(executable_name),
            process_id,
            environment,
            profile_key,
            profile_name,
            dpi,
            report_rate_hz: profile.report_rate_hz,
            button_actions,
            dpi_levels,
        },
    )
}

/// The target that restores the shutdown profile when the agent exits.
pub fn safe_shutdown_target(profile: &ProfileConfig) -> (r: Result<EnvironmentTarget, String>)
    ensures
        profile@.dpi_levels.len() != 4 ==> r is Err && r->Err_0@ == "退出配置的 DPI 档位必须正好包含四项"@,
        profile@.dpi_levels.len() == 4 ==> match spec_button_actions(profile@) {
            Err(message) => r is Err && r->Err_0@ == message,
            Ok(actions) => r is Ok && target_is(
                r->Ok_0,
                "PulseHub shutdown"@,
                0,
                (Environment::Office, "shutdown"@, "安全退出"@, profile@),
                actions,
            ),
        },
{
    if profile.dpi_levels.len() != 4 {
        return Err(text("退出配置的 DPI 档位必须正好包含四项"));
    }
    let dpi_levels = levels_array(&profile.dpi_levels);
    let button_actions = button_actions_for_profile(profile)?;
    Ok(
        EnvironmentTarget {
            executable_name: text("PulseHub shutdown"),
            process_id: 0,
            environment: Environment::Office,
            profile_key: text("shutdown"),
            profile_name: text("安全退出"),
            dpi: profile.dpi,
            report_rate_hz: profile.report_rate_hz,
            button_actions,
            dpi_levels,
        },
    )
}

pub open spec fn ipc_environment(environment: Environment) -> crate::ipc::Environment {
    match environment {
        Environment::Office => crate::ipc::Environment::Office,
        Environment::Cs2 => crate::ipc::Environment::Cs2,
        Environment::Custom => crate::ipc::Environment::Custom,
    }
}

/// The snapshot the agent publishes for a target: no process name or id leaves
/// the agent.
pub fn snapshot_for_target(
    target: &EnvironmentTarget,
    config_revision: u64,
    device_status: DeviceStatus,
    current_dpi: Option<u16>,
) -> (snapshot: AgentSnapshot)
    ensures
        snapshot == (AgentSnapshot {
            device_status,
            active_environment: ipc_environment(target.environment),
            config_revision,
            current_dpi,
            desired_dpi: target.dpi,
        }),
{
    AgentSnapshot {
        device_status,
        active_environment: match target.environment {
            Environment::Office => crate::ipc::Environment::Office,
            Environment::Cs2 => crate::ipc::Environment::Cs2,
            Environment::Custom => crate::ipc::Environment::Custom,
        },
        config_revision,
        current_dpi,
        desired_dpi: target.dpi,
    }
}

// ---------------------------------------------------------------------------
// DPI shortcuts, start-up command, failures, log names
// ---------------------------------------------------------------------------

/// The DPI shortcuts offered in the interface.
pub open spec fn dpi_shortcuts() -> Seq<u16> {
    seq![100u16, 400u16, 800u16, 1600u16, 1800u16, 3200u16]
}

/// Whether the sensor accepts a shortcut: among the listed values when it has a
/// list and no step, otherwise inside the range and on the step grid.
pub open spec fn shortcut_accepted(value: u16, minimum: u16, maximum: u16, step: Option<u16>, listed: Seq<u16>) -> bool {
    if listed.len() > 0 && step is None {
        listed.contains(value)
    } else {
        &&& minimum <= value <= maximum
        &&& match step {
            None => true,
            Some(s) => if s == 0 {
                value == minimum
            } else {
                (value - minimum) % (s as int) == 0
            },
        }
    }
}

/// The accepted shortcuts among the first `k`, in order.
pub open spec fn accepted_shortcuts(minimum: u16, maximum: u16, step: Option<u16>, listed: Seq<u16>, k: int) -> Seq<u16>
    decreases k,
{
    if k <= 0 {
        Seq::empty()
    } else {
        let before = accepted_shortcuts(minimum, maximum, step, listed, k - 1);
        if shortcut_accepted(dpi_shortcuts()[k - 1], minimum, maximum, step, listed) {
            before.push(dpi_shortcuts()[k - 1])
        } else {
            before
        }
    }
}

fn listed_contains(values: &[u16], value: u16) -> (r: bool)
    ensures
        r == values@.contains(value),
{
    let mut i: usize = 0;
    while i < values.len()
        invariant
            i <= values@.len(),
            forall|j: int| 0 <= j < i ==> values@[j] != value,
        decreases values.len() - i,
    {
        if values[i] == value {
            assert(values@[i as int] == value);
            return true;
        }
        i = i + 1;
    }
    false
}

/// The DPI shortcuts (100, 400, 800, 1600, 1800, 3200) the sensor accepts.
pub fn suggested_dpi_values(minimum: u16, maximum: u16, step: Option<u16>, discrete_values: &[u16]) -> (values: Vec<
    u16,
>)
    ensures
        values@ == accepted_shortcuts(minimum, maximum, step, discrete_values@, 6),
{
    let shortcuts: [u16; 6] = [100, 400, 800, 1600, 1800, 3200];
    assert(shortcuts@ =~= dpi_shortcuts());
    let mut values: Vec<u16> = Vec::new();
    let mut k: usize = 0;
    while k < 6
        invariant
            k <= 6,
            shortcuts@ == dpi_shortcuts(),
            values@ == accepted_shortcuts(minimum, maximum, step, discrete_values@, k as int),
        decreases 6 - k,
    {
        let value = shortcuts[k];
        let accepted = if discrete_values.len() > 0 && step.is_none() {
            listed_contains(discrete_values, value)
        } else {
            minimum <= value && value <= maximum && match step {
                None => true,
                Some(s) => if s == 0 {
                    value == minimum
                } else {
                    (value - minimum) % s == 0
                },
            }
        };
        if accepted {
            values.push(value);
        }
        k = k + 1;
    }
    values
}

/// The command line registered to start the agent at logon.
pub fn startup_command(executable: &str) -> (command: String)
    ensures
        command@ == "\""@ + executable@ + "\" --run-agent --confirm-device-write"@,
{
    let mut command = text("\"");
    command.append(executable);
    command.append("\" --run-agent --confirm-device-write");
    command
}

/// A failed device operation as the agent reports it.
#[derive(Debug, Clone, PartialEq, Eq)]
pub struct ApplyFailure {
    pub message: String,
    pub retryable: bool,
    pub device_disconnected: bool,
}

/// A failed IPC command as the agent answers it.
#[derive(Debug, Clone, PartialEq, Eq)]
pub struct CommandFailure {
    pub code: ErrorCode,
    pub message: String,
    pub retryable: bool,
}

/// The IPC error code for a configuration error.
pub open spec fn config_error_code(e: ConfigErrorView) -> ErrorCode {
    match e {
        ConfigErrorView::RevisionConflict { .. } => ErrorCode::Conflict,
        ConfigErrorView::Validation(_) => ErrorCode::InvalidRequest,
        ConfigErrorView::UnsupportedSchema { .. } => ErrorCode::InvalidRequest,
        ConfigErrorView::Parse { .. } => ErrorCode::InvalidRequest,
        _ => ErrorCode::Internal,
    }
}

pub fn config_command_failure(error: ConfigError) -> (failure: CommandFailure)
    ensures
        failure.code == config_error_code(error@),
        failure.message@ == spec_config_message(error@),
        !failure.retryable,
{
    let code = match &error {
        ConfigError::RevisionConflict { .. } => ErrorCode::Conflict,
        ConfigError::Validation(_) | ConfigError::UnsupportedSchema { .. } | ConfigError::Parse { .. } => {
            ErrorCode::InvalidRequest
        },
        _ => ErrorCode::Internal,
    };
    CommandFailure { code, message: error.message(), retryable: false }
}

/// Whether a failed device operation may succeed when tried again.
pub open spec fn hidpp_retryable(e: HidppErrorView) -> bool {
    !(e is PlatformUnsupported || e is InvalidDpi || e is InvalidResponse)
}

pub fn hidpp_apply_failure(context: &str, error: HidppError) -> (failure: ApplyFailure)
    ensures
        failure.message@ == context@ + "："@ + spec_error_message(error@),
        failure.retryable == hidpp_retryable(error@),
        failure.device_disconnected == (error@ is InterfaceNotFound),
{
    let device_disconnected = match &error {
        HidppError::InterfaceNotFound => true,
        _ => false,
    };
    let retryable = match &error {
        HidppError::PlatformUnsupported | HidppError::InvalidDpi { .. } | HidppError::InvalidResponse(_) => false,
        _ => true,
    };
    let mut message = text(context);
    message.append("：");
    message.append(error.message().as_str());
    ApplyFailure { message, retryable, device_disconnected }
}

// ---------------------------------------------------------------------------
// Applying a target to the mouse
// ---------------------------------------------------------------------------

/// Whether a failed runtime DPI write may succeed when tried again.
pub open spec fn dpi_write_retryable(e: HidppErrorView) -> bool {
    !(e is PlatformUnsupported || e is InvalidDpi)
}

/// Sets the runtime DPI of the target and confirms it by reading it back.
pub fn apply_target_dpi<T: Transport>(transport: &mut HidppLink<T>, target: &EnvironmentTarget) -> (r: Result<
    DpiWriteResult,
    ApplyFailure,
>)
    ensures
        r matches Ok(result) ==> result.requested == target.dpi && result.after == target.dpi,
        r matches Err(failure) ==> exists|e: HidppErrorView| #[trigger] dpi_failure(failure, e),
        memory_untouched(old(transport).log(), final(transport).log()),
{
    match set_first_g102_dpi(transport, target.dpi) {
        Ok(result) => Ok(result),
        Err(error) => {
            let retryable = match &error {
                HidppError::PlatformUnsupported | HidppError::InvalidDpi { .. } => false,
                _ => true,
            };
            let device_disconnected = match &error {
                HidppError::InterfaceNotFound => true,
                _ => false,
            };
            let mut message = text("运行态 DPI 应用失败：");
            message.append(error.message().as_str());
            let failure = ApplyFailure { message, retryable, device_disconnected };
            let r = Err(failure);
            assert(r matches Err(f) && dpi_failure(f, error@));
            r
        },
    }
}

/// A failure reported for step `context` of a full application, caused by `e`.
pub open spec fn step_failure(failure: ApplyFailure, context: Seq<char>, e: HidppErrorView) -> bool {
    &&& failure.message@ == context + "："@ + spec_error_message(e)
    &&& failure.retryable == hidpp_retryable(e)
    &&& failure.device_disconnected == (e is InterfaceNotFound)
}

/// A failure of the runtime DPI write, caused by `e`.
pub open spec fn dpi_failure(failure: ApplyFailure, e: HidppErrorView) -> bool {
    &&& failure.message@ == "运行态 DPI 应用失败："@ + spec_error_message(e)
    &&& failure.retryable == dpi_write_retryable(e)
    &&& failure.device_disconnected == (e is InterfaceNotFound)
}

/// The DPI levels written with a target's profile: its four levels when its DPI
/// button cycles them.
pub open spec fn cycle_levels(target: EnvironmentTarget) -> Option<[u16; 4]> {
    match target.button_actions@[5] {
        OnboardButtonAction::Special { code, .. } => if code == 0x05 {
            Some(target.dpi_levels)
        } else {
            None
        },
        _ => None,
    }
}

/// Applies a target completely: runtime DPI first (which also checks the DPI),
/// then the onboard profile (with the DPI levels when the DPI button cycles them),
/// then onboard mode, and the runtime DPI once more, since entering onboard mode
/// activates the profile's first slot.
pub fn apply_target_full<T: Transport>(
    transport: &mut HidppLink<T>,
    product_id: u16,
    release_number: u16,
    target: &EnvironmentTarget,
) -> (r: Result<DpiWriteResult, ApplyFailure>)
    ensures
        r matches Ok(result) ==> result.requested == target.dpi && result.after == target.dpi && identity_verified(
            product_id,
            release_number,
        ),
        r matches Err(failure) ==> {
            ||| exists|e: HidppErrorView| #[trigger] dpi_failure(failure, e)
            ||| exists|e: HidppErrorView| #[trigger] step_failure(failure, "板载配置写入失败"@, e)
            ||| exists|e: HidppErrorView| #[trigger] step_failure(failure, "板载模式启用失败"@, e)
        },
        extends(old(transport).log(), final(transport).log()),
        write_guarded(
            added(old(transport).log(), final(transport).log()),
            target.button_actions@,
            Some(profile_dpi(target.dpi, cycle_levels(*target))),
        ),
        !identity_verified(product_id, release_number) ==> (r matches Err(failure) && ((exists|e: HidppErrorView|
            #[trigger] dpi_failure(failure, e)) || step_failure(
            failure,
            "板载配置写入失败"@,
            HidppErrorView::InvalidResponse(identity_refusal("拒绝板载写入"@, product_id, release_number)),
        ))),
{
    let ghost start = transport.log();
    let first = apply_target_dpi(transport, target);
    let ghost l1 = transport.log();
    proof {
        lemma_memory_untouched_refl(start);
    }
    first?;
    let dpi_levels = match target.button_actions[5] {
        OnboardButtonAction::Special { code, .. } => if code == 0x05 {
            Some(target.dpi_levels)
        } else {
            None
        },
        _ => None,
    };
    match apply_first_g102_profile(
        transport,
        product_id,
        release_number,
        &target.button_actions,
        target.dpi,
        dpi_levels,
    ) {
        Ok(_) => {
            proof {
                lemma_write_guarded_after(start, l1, transport.log(), target.button_actions@, Some(profile_dpi(target.dpi, dpi_levels)));
            }
        },
        Err(error) => {
            proof {
                lemma_write_guarded_after(start, l1, transport.log(), target.button_actions@, Some(profile_dpi(target.dpi, dpi_levels)));
            }
            let ghost cause = error@;
            let failure = hidpp_apply_failure("板载配置写入失败", error);
            let r = Err(failure);
            assert(r matches Err(f) && step_failure(f, "板载配置写入失败"@, cause));
            return r;
        },
    }
    let ghost l2 = transport.log();
    let activated = activate_first_g102_onboard_mode(transport, product_id, release_number);
    let ghost l3 = transport.log();
    proof {
        lemma_write_guarded_before(start, l2, l3, target.button_actions@, Some(profile_dpi(target.dpi, dpi_levels)));
    }
    match activated {
        Ok(_) => {},
        Err(error) => {
            let ghost cause = error@;
            let failure = hidpp_apply_failure("板载模式启用失败", error);
            let r = Err(failure);
            assert(r matches Err(f) && step_failure(f, "板载模式启用失败"@, cause));
            return r;
        },
    }
    let last = apply_target_dpi(transport, target);
    proof {
        lemma_write_guarded_before(start, l3, transport.log(), target.button_actions@, Some(profile_dpi(target.dpi, dpi_levels)));
    }
    last
}

/// Whether restoring the shutdown profile is tried again after a failure: only
/// for a disconnected device or a retryable failure, within the attempt limit and
/// before the deadline.
pub fn retry_safe_shutdown(failure: &ApplyFailure, attempt: u8, before_deadline: bool) -> (retry: bool)
    ensures
        retry == ((failure.device_disconnected || failure.retryable) && attempt < SHUTDOWN_MAX_ATTEMPTS
            && before_deadline),
{
    (failure.device_disconnected || failure.retryable) && attempt < SHUTDOWN_MAX_ATTEMPTS && before_deadline
}

// ---------------------------------------------------------------------------
// The agent's live state
// ---------------------------------------------------------------------------

/// The device state a probe shows: ready at the first sensor's DPI, degraded
/// without a sensor, disconnected when no interface was found, busy when the
/// device did not answer in time, degraded on any other failure.
pub open spec fn probe_state(probe: Result<HidppProbeResult, HidppError>) -> (DeviceStatus, Option<u16>) {
    match probe {
        Ok(result) => if result.dpi_sensors@.len() > 0 {
            (DeviceStatus::Ready, Some(result.dpi_sensors@[0].current))
        } else {
            (DeviceStatus::Degraded, None)
        },
        Err(HidppError::InterfaceNotFound) => (DeviceStatus::Disconnected, None),
        Err(HidppError::Timeout) => (DeviceStatus::Busy, None),
        Err(_) => (DeviceStatus::Degraded, None),
    }
}

pub fn device_state_from_probe(probe: &Result<HidppProbeResult, HidppError>) -> (state: (DeviceStatus, Option<u16>))
    ensures
        state == probe_state(*probe),
{
    match probe {
        Ok(result) => if result.dpi_sensors.len() > 0 {
            (DeviceStatus::Ready, Some(result.dpi_sensors[0].current))
        } else {
            (DeviceStatus::Degraded, None)
        },
        Err(HidppError::InterfaceNotFound) => (DeviceStatus::Disconnected, None),
        Err(HidppError::Timeout) => (DeviceStatus::Busy, None),
        Err(_) => (DeviceStatus::Degraded, None),
    }
}

/// The snapshot the agent starts serving: the foreground target, at revision 0,
/// with the device state the probe shows. Whatever the device answers, the
/// snapshot carries a current DPI exactly when the device is ready.
pub fn live_snapshot<T: Transport>(config: &ConfigDocument, foreground: &ForegroundProcess, transport: &mut HidppLink<T>) -> (r:
    Result<AgentSnapshot, String>)
    ensures
        target_error(config@, foreground.executable_name@) matches Some(message) ==> r is Err && r->Err_0@
            == message,
        target_error(config@, foreground.executable_name@) is None ==> (r matches Ok(snapshot)
            && snapshot.active_environment == ipc_environment(
            spec_target_choice(config@, foreground.executable_name@).0,
        ) && snapshot.desired_dpi == spec_target_choice(config@, foreground.executable_name@).3.dpi
            && snapshot.config_revision == 0 && (snapshot.device_status == DeviceStatus::Ready
            <==> snapshot.current_dpi is Some)),
{
    let target = target_for_process(config, foreground)?;
    let probe = probe_first_g102(transport);
    let (device_status, current_dpi) = device_state_from_probe(&probe);
    Ok(snapshot_for_target(&target, 0, device_status, current_dpi))
}

/// Why the session refuses a request, if it does.
pub open spec fn refusal(negotiated: bool, request: &Request) -> Option<ProtocolErrorView> {
    if request_error(request) is Some {
        request_error(request)
    } else if !negotiated && !(request is Hello) {
        Some(ProtocolErrorView::NotNegotiated)
    } else if negotiated && request is Hello {
        Some(ProtocolErrorView::AlreadyNegotiated)
    } else {
        None
    }
}

/// A failed response to `request` with the given error.
pub open spec fn fails_with(
    response: &Response,
    request: &Request,
    code: ErrorCode,
    message: Seq<char>,
    retryable: bool,
) -> bool {
    &&& !response.ok
    &&& response.request_id@ == request_id_of(request)
    &&& response.data is None
    &&& response.error matches Some(error) && error.code == code && error.message@ == message
        && error.retryable == retryable
}

/// How an apply session answers `apply_now` once the foreground process is
/// known (or could not be read): the foreground target is applied and published,
/// or the failure is reported (a foreground or target problem as a retryable
/// internal error, a device failure as busy when it may pass, else internal).
pub open spec fn apply_now_answer(
    config: DocumentView,
    foreground: Result<ForegroundProcess, String>,
    request: &Request,
    before: AgentSnapshot,
    response: &Response,
    after: AgentSnapshot,
) -> bool {
    match foreground {
        Err(message) => fails_with(response, request, ErrorCode::Internal, message@, true) && after == before,
        Ok(process) => match target_error(config, process.executable_name@) {
            Some(message) => fails_with(response, request, ErrorCode::Internal, message, true) && after == before,
            None => {
                let choice = spec_target_choice(config, process.executable_name@);
                ||| {
                    &&& after == (AgentSnapshot {
                        device_status: DeviceStatus::Ready,
                        active_environment: ipc_environment(choice.0),
                        config_revision: before.config_revision,
                        current_dpi: Some(choice.3.dpi),
                        desired_dpi: choice.3.dpi,
                    })
                    &&& response.ok && response.request_id@ == request_id_of(request)
                    &&& response.data == Some(ResponseData::Snapshot(after)) && response.error is None
                }
                ||| {
                    &&& after == before
                    &&& !response.ok && response.request_id@ == request_id_of(request) && response.data is None
                    &&& response.error matches Some(error) && error.code == (if error.retryable {
                        ErrorCode::Busy
                    } else {
                        ErrorCode::Internal
                    })
                }
            },
        },
    }
}

/// Answers one request of a session that may apply profiles: refused requests
/// are answered as invalid, `apply_now` applies the foreground target's DPI and
/// publishes the new snapshot, everything else is answered as usual. The
/// foreground process is read only for an admitted `apply_now`.
pub fn serve_apply_request<T: Transport, F: FnOnce() -> Result<ForegroundProcess, String>>(
    session: &mut Session,
    request: &Request,
    snapshot: &mut AgentSnapshot,
    config: &ConfigDocument,
    foreground: F,
    transport: &mut HidppLink<T>,
) -> (response: Response)
    requires
        foreground.requires(()),
    ensures
        refusal(old(session).spec_negotiated(), request) matches Some(e) ==> (fails_with(
            &response,
            request,
            ErrorCode::InvalidRequest,
            spec_protocol_message(e),
            false,
        ) && *final(snapshot) == *old(snapshot)),
        refusal(old(session).spec_negotiated(), request) is None && request is ApplyNow ==> exists|
            process: Result<ForegroundProcess, String>,
        |
            #![trigger foreground.ensures((), process)]
            foreground.ensures((), process) && apply_now_answer(
                config@,
                process,
                request,
                *old(snapshot),
                &response,
                *final(snapshot),
            ),
        refusal(old(session).spec_negotiated(), request) is None && !(request is ApplyNow) ==> answers_accepted(
            request,
            *old(snapshot),
            &response,
        ) && *final(snapshot) == *old(snapshot),
        final(session).spec_negotiated() == (old(session).spec_negotiated() || refusal(
            old(session).spec_negotiated(),
            request,
        ) is None),
{
    let request_id = text(request.request_id());
    if let Err(error) = session.accept(request) {
        let message = error.message();
        return Response::failure(request_id, ErrorBody { code: ErrorCode::InvalidRequest, message, retryable: false });
    }
    match request {
        Request::ApplyNow { .. } => {
            let process = foreground();
            let target = match process {
                Err(message) => {
                    return Response::failure(
                        request_id,
                        ErrorBody { code: ErrorCode::Internal, message, retryable: true },
                    );
                },
                Ok(process) => match target_for_process(config, &process) {
                    Ok(target) => target,
                    Err(message) => {
                        return Response::failure(
                            request_id,
                            ErrorBody { code: ErrorCode::Internal, message, retryable: true },
                        );
                    },
                },
            };
            match apply_target_dpi(transport, &target) {
                Ok(applied) => {
                    *snapshot = snapshot_for_target(
                        &target,
                        snapshot.config_revision,
                        DeviceStatus::Ready,
                        Some(applied.after),
                    );
                    Response::success(request_id, ResponseData::Snapshot(*snapshot))
                },
                Err(failure) => {
                    let code = if failure.retryable {
                        ErrorCode::Busy
                    } else {
                        ErrorCode::Internal
                    };
                    Response::failure(
                        request_id,
                        ErrorBody { code, message: failure.message, retryable: failure.retryable },
                    )
                },
            }
        },
        _ => dispatch_accepted_request(request, snapshot),
    }
}

} // verus!
