//! The agent's developer log: which file an entry goes to, what a line looks like,
//! which files the retention cleanup removes, and when the logger writes and
//! cleans up. The files themselves are written and removed by the program.

use vstd::prelude::*;
use crate::fmt::{decimal_text, lemma_decimal_digits, spec_decimal};
use crate::hidpp::text;
use crate::text::str_equal;

verus! {

/// How long a daily log is kept: thirty days, in seconds.
pub const RETENTION_SECS: u64 = 2592000;

/// How often a running agent repeats the cleanup: ten days, in milliseconds.
pub const CLEANUP_INTERVAL_MS: u64 = 864000000;

pub const SECONDS_PER_DAY: u64 = 86400;

/// Whether a file name is one of the agent's daily logs:
/// `pulsehub-agent-<digits>.log`.
pub open spec fn spec_is_managed_log_name(name: Seq<char>) -> bool {
    &&& name.len() > 19
    &&& name.subrange(0, 15) == "pulsehub-agent-"@
    &&& name.subrange(name.len() - 4, name.len() as int) == ".log"@
    &&& forall|k: int| 15 <= k < name.len() - 4 ==> '0' <= #[trigger] name[k] <= '9'
}

pub fn is_managed_log_name(file_name: &str) -> (r: bool)
    ensures
        r == spec_is_managed_log_name(file_name@),
{
    let n = file_name.unicode_len();
    if n <= 19 {
        return false;
    }
    if !str_equal(file_name.substring_char(0, 15), "pulsehub-agent-") {
        return false;
    }
    if !str_equal(file_name.substring_char(n - 4, n), ".log") {
        return false;
    }
    let mut k: usize = 15;
    while k < n - 4
        invariant
            n == file_name@.len(),
            n > 19,
            15 <= k <= n - 4,
            forall|m: int| 15 <= m < k ==> '0' <= #[trigger] file_name@[m] <= '9',
        decreases n - 4 - k,
    {
        let c = file_name.get_char(k);
        if c < '0' || c > '9' {
            return false;
        }
        k = k + 1;
    }
    true
}

/// The file an entry written at `timestamp_secs` (seconds since the Unix epoch)
/// goes to: one file per UTC day, named by the day's number.
pub open spec fn spec_log_file_name(timestamp_secs: nat) -> Seq<char> {
    "pulsehub-agent-"@ + spec_decimal(timestamp_secs / 86400) + ".log"@
}

pub fn log_file_name(timestamp_secs: u64) -> (name: String)
    ensures
        name@ == spec_log_file_name(timestamp_secs as nat),
{
    let mut name = text("pulsehub-agent-");
    name.append(decimal_text(timestamp_secs / SECONDS_PER_DAY).as_str());
    name.append(".log");
    name
}

/// Every file the logger writes is one that the retention cleanup manages.
pub proof fn lemma_written_logs_are_managed(timestamp_secs: nat)
    ensures
        spec_is_managed_log_name(spec_log_file_name(timestamp_secs)),
{
    let day = spec_decimal(timestamp_secs / 86400);
    let name = spec_log_file_name(timestamp_secs);
    reveal_strlit("pulsehub-agent-");
    reveal_strlit(".log");
    lemma_decimal_digits(timestamp_secs / 86400);
    assert(name.subrange(0, 15) =~= "pulsehub-agent-"@);
    assert(name.subrange(name.len() - 4, name.len() as int) =~= ".log"@);
    assert forall|k: int| 15 <= k < name.len() - 4 implies '0' <= #[trigger] name[k] <= '9' by {
        assert(name[k] == day[k - 15]);
    }
}

/// One line of the log: `[<timestamp>] [<level>] <message>`.
pub open spec fn spec_entry_line(timestamp_secs: nat, level: Seq<char>, message: Seq<char>) -> Seq<char> {
    "["@ + spec_decimal(timestamp_secs) + "] ["@ + level + "] "@ + message
}

pub fn entry_line(timestamp_secs: u64, level: &str, message: &str) -> (line: String)
    ensures
        line@ == spec_entry_line(timestamp_secs as nat, level@, message@),
{
    let mut line = text("[");
    line.append(decimal_text(timestamp_secs).as_str());
    line.append("] [");
    line.append(level);
    line.append("] ");
    line.append(message);
    line
}

/// Whether a log last modified `age_secs` seconds and `age_nanos` nanoseconds ago
/// is past the retention period (strictly longer than thirty days).
pub open spec fn spec_is_expired(age_secs: u64, age_nanos: u32) -> bool {
    age_secs > RETENTION_SECS || (age_secs == RETENTION_SECS && age_nanos > 0)
}

pub fn is_expired(age_secs: u64, age_nanos: u32) -> (r: bool)
    ensures
        r == spec_is_expired(age_secs, age_nanos),
{
    age_secs > RETENTION_SECS || (age_secs == RETENTION_SECS && age_nanos > 0)
}

/// Whether the cleanup removes a directory entry: a regular file with a managed
/// name that is past the retention period.
pub open spec fn spec_should_remove(file_name: Seq<char>, is_file: bool, age_secs: u64, age_nanos: u32) -> bool {
    spec_is_managed_log_name(file_name) && is_file && spec_is_expired(age_secs, age_nanos)
}

pub fn should_remove(file_name: &str, is_file: bool, age_secs: u64, age_nanos: u32) -> (r: bool)
    ensures
        r == spec_should_remove(file_name@, is_file, age_secs, age_nanos),
{
    is_managed_log_name(file_name) && is_file && is_expired(age_secs, age_nanos)
}

/// The logger's state: whether developer logging is on, and, once the log
/// directory is set up, when the last cleanup ran (milliseconds on a monotonic
/// clock).
#[derive(Debug)]
pub struct LogState {
    enabled: bool,
    last_cleanup_ms: Option<u64>,
}

impl LogState {
    pub closed spec fn spec_enabled(&self) -> bool {
        self.enabled
    }

    pub closed spec fn spec_last_cleanup(&self) -> Option<u64> {
        self.last_cleanup_ms
    }

    /// A logger that is off and has no directory yet.
    pub fn new() -> (state: Self)
        ensures
            !state.spec_enabled(),
            state.spec_last_cleanup() is None,
    {
        LogState { enabled: false, last_cleanup_ms: None }
    }

    /// The directory is ready and was just cleaned up at `now_ms`. The logger is
    /// set up once: a second call changes nothing.
    pub fn initialize(&mut self, now_ms: u64)
        ensures
            final(self).spec_enabled() == old(self).spec_enabled(),
            final(self).spec_last_cleanup() == match old(self).spec_last_cleanup() {
                None => Some(now_ms),
                Some(t) => Some(t),
            },
    {
        if self.last_cleanup_ms.is_none() {
            self.last_cleanup_ms = Some(now_ms);
        }
    }

    /// Turns developer logging on or off; the result says whether the switch-on
    /// is to be announced in the log, which is when logging was off before.
    pub fn set_enabled(&mut self, enabled: bool) -> (announce: bool)
        ensures
            final(self).spec_enabled() == enabled,
            final(self).spec_last_cleanup() == old(self).spec_last_cleanup(),
            announce == (enabled && !old(self).spec_enabled()),
    {
        let changed = self.enabled != enabled;
        self.enabled = enabled;
        enabled && changed
    }

    /// Whether an entry is written now: logging is on and the directory is set up.
    pub fn writes_entries(&self) -> (r: bool)
        ensures
            r == (self.spec_enabled() && self.spec_last_cleanup() is Some),
    {
        self.enabled && self.last_cleanup_ms.is_some()
    }

    /// Whether the periodic cleanup is due at `now_ms`: the logger is set up and
    /// the last cleanup is at least ten days ago. When it is due, `now_ms` becomes
    /// the time of the last cleanup.
    pub fn run_periodic_maintenance(&mut self, now_ms: u64) -> (due: bool)
        ensures
            final(self).spec_enabled() == old(self).spec_enabled(),
            due == match old(self).spec_last_cleanup() {
                None => false,
                Some(t) => now_ms >= t && now_ms - t >= CLEANUP_INTERVAL_MS,
            },
            final(self).spec_last_cleanup() == if due {
                Some(now_ms)
            } else {
                old(self).spec_last_cleanup()
            },
    {
        match self.last_cleanup_ms {
            None => false,
            Some(t) => {
                if now_ms >= t && now_ms - t >= CLEANUP_INTERVAL_MS {
                    self.last_cleanup_ms = Some(now_ms);
                    true
                } else {
                    false
                }
            },
        }
    }
}

} // verus!
