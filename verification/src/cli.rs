//! The agent's command line: which mode it runs in, and the rules that keep
//! device writes explicit.

use vstd::prelude::*;

use crate::gui::{parse_unsigned, spec_parse_unsigned};
use crate::hidpp::text;
use crate::text::str_equal;

verus! {

/// The switches the agent was started with.
#[derive(Debug, Clone, Copy, PartialEq, Eq, Structural)]
pub struct Arguments {
    pub inspect_foreground: bool,
    pub apply_current_environment: bool,
    pub watch_foreground: bool,
    pub serve_ipc_once: bool,
    pub serve_ipc_apply_once: bool,
    pub serve_ipc: bool,
    pub run_agent: bool,
    pub confirm_device_write: bool,
    pub exit_after_seconds: Option<u64>,
}

/// What the command line asks for: the usage text, or a run with these switches.
#[derive(Debug, Clone, Copy, PartialEq, Eq, Structural)]
pub enum Invocation {
    Help,
    Run(Arguments),
}

pub open spec fn no_switches() -> Arguments {
    Arguments {
        inspect_foreground: false,
        apply_current_environment: false,
        watch_foreground: false,
        serve_ipc_once: false,
        serve_ipc_apply_once: false,
        serve_ipc: false,
        run_agent: false,
        confirm_device_write: false,
        exit_after_seconds: None,
    }
}

/// The switch a word sets, applied to `a`; `None` for a word that is no plain switch.
pub open spec fn with_switch(a: Arguments, word: Seq<char>) -> Option<Arguments> {
    if word == "--inspect-foreground"@ {
        Some(Arguments { inspect_foreground: true, ..a })
    } else if word == "--apply-current-environment"@ {
        Some(Arguments { apply_current_environment: true, ..a })
    } else if word == "--watch-foreground"@ {
        Some(Arguments { watch_foreground: true, ..a })
    } else if word == "--serve-ipc-once"@ {
        Some(Arguments { serve_ipc_once: true, ..a })
    } else if word == "--serve-ipc-apply-once"@ {
        Some(Arguments { serve_ipc_apply_once: true, ..a })
    } else if word == "--serve-ipc"@ {
        Some(Arguments { serve_ipc: true, ..a })
    } else if word == "--run-agent"@ {
        Some(Arguments { run_agent: true, ..a })
    } else if word == "--confirm-device-write"@ {
        Some(Arguments { confirm_device_write: true, ..a })
    } else {
        None
    }
}

/// Reads the words from `i` on into `a`, left to right: `Ok(None)` when a help
/// switch comes before any problem.
pub open spec fn scan(words: Seq<Seq<char>>, i: int, a: Arguments) -> Result<Option<Arguments>, Seq<char>>
    decreases words.len() - i,
{
    if i < 0 || i >= words.len() {
        Ok(Some(a))
    } else {
        let word = words[i];
        match with_switch(a, word) {
            Some(next) => scan(words, i + 1, next),
            None => if word == "--exit-after-seconds"@ {
                if i + 1 >= words.len() {
                    Err("--exit-after-seconds 后必须提供秒数"@)
                } else {
                    match spec_parse_unsigned(words[i + 1], u64::MAX as int) {
                        None => Err("无效秒数："@ + words[i + 1]),
                        Some(seconds) => if seconds < 1 || seconds > 3600 {
                            Err("--exit-after-seconds 必须为 1–3600"@)
                        } else {
                            scan(words, i + 2, Arguments { exit_after_seconds: Some(seconds as u64), ..a })
                        },
                    }
                }
            } else if word == "-h"@ || word == "--help"@ {
                Ok(None)
            } else {
                Err("未知参数："@ + word)
            },
        }
    }
}

pub open spec fn count(b: bool) -> int {
    if b {
        1
    } else {
        0
    }
}

/// What is wrong with a combination of switches, if anything: at most one mode,
/// device writes exactly when confirmed, and a time limit only for the long-running
/// modes.
pub open spec fn combination_error(a: Arguments) -> Option<Seq<char>> {
    let modes = count(a.inspect_foreground) + count(a.apply_current_environment) + count(a.watch_foreground) + count(
        a.serve_ipc_once,
    ) + count(a.serve_ipc_apply_once) + count(a.serve_ipc) + count(a.run_agent);
    let writing = a.apply_current_environment || a.watch_foreground || a.run_agent || a.serve_ipc_apply_once;
    if modes > 1 {
        Some("前台检查、单次应用和自动监听模式不能同时使用"@)
    } else if writing != a.confirm_device_write {
        Some("设备应用或自动监听必须与 --confirm-device-write 同时提供"@)
    } else if a.exit_after_seconds is Some && !(a.watch_foreground || a.serve_ipc || a.run_agent) {
        Some("--exit-after-seconds 只能与 --watch-foreground、--serve-ipc 或 --run-agent 一起使用"@)
    } else {
        None
    }
}

/// The invocation the words after the program name stand for, or why they are refused.
pub open spec fn spec_parse_arguments(words: Seq<Seq<char>>) -> Result<Invocation, Seq<char>> {
    match scan(words, 0, no_switches()) {
        Err(message) => Err(message),
        Ok(None) => Ok(Invocation::Help),
        Ok(Some(a)) => match combination_error(a) {
            Some(message) => Err(message),
            None => Ok(Invocation::Run(a)),
        },
    }
}

fn switch_from(a: Arguments, word: &str) -> (r: Option<Arguments>)
    ensures
        r == with_switch(a, word@),
{
    if str_equal(word, "--inspect-foreground") {
        Some(Arguments { inspect_foreground: true, ..a })
    } else if str_equal(word, "--apply-current-environment") {
        Some(Arguments { apply_current_environment: true, ..a })
    } else if str_equal(word, "--watch-foreground") {
        Some(Arguments { watch_foreground: true, ..a })
    } else if str_equal(word, "--serve-ipc-once") {
        Some(Arguments { serve_ipc_once: true, ..a })
    } else if str_equal(word, "--serve-ipc-apply-once") {
        Some(Arguments { serve_ipc_apply_once: true, ..a })
    } else if str_equal(word, "--serve-ipc") {
        Some(Arguments { serve_ipc: true, ..a })
    } else if str_equal(word, "--run-agent") {
        Some(Arguments { run_agent: true, ..a })
    } else if str_equal(word, "--confirm-device-write") {
        Some(Arguments { confirm_device_write: true, ..a })
    } else {
        None
    }
}

fn flag(b: bool) -> (n: u8)
    ensures
        n == count(b),
{
    if b {
        1
    } else {
        0
    }
}

/// Parses the words after the program name.
pub fn parse_arguments(words: &Vec<String>) -> (r: Result<Invocation, String>)
    ensures
        match spec_parse_arguments(words@.map_values(|w: String| w@)) {
            Ok(invocation) => r == Ok::<Invocation, String>(invocation),
            Err(message) => r is Err && r->Err_0@ == message,
        },
{
    let ghost all = words@.map_values(|w: String| w@);
    let mut a = Arguments {
        inspect_foreground: false,
        apply_current_environment: false,
        watch_foreground: false,
        serve_ipc_once: false,
        serve_ipc_apply_once: false,
        serve_ipc: false,
        run_agent: false,
        confirm_device_write: false,
        exit_after_seconds: None,
    };
    let mut i: usize = 0;
    while i < words.len()
        invariant
            all == words@.map_values(|w: String| w@),
            i <= words@.len(),
            scan(all, 0, no_switches()) == scan(all, i as int, a),
        decreases words.len() - i,
    {
        let word = words[i].as_str();
        assert(all[i as int] == word@);
        match switch_from(a, word) {
            Some(next) => {
                a = next;
                i = i + 1;
            },
            None => {
                if str_equal(word, "--exit-after-seconds") {
                    if i + 1 >= words.len() {
                        return Err(text("--exit-after-seconds 后必须提供秒数"));
                    }
                    let value = words[i + 1].as_str();
                    assert(all[i + 1] == value@);
                    let seconds = match parse_unsigned(value, u64::MAX) {
                        Some(seconds) => seconds,
                        None => {
                            let mut m = text("无效秒数：");
                            m.append(value);
                            return Err(m);
                        },
                    };
                    if seconds < 1 || seconds > 3600 {
                        return Err(text("--exit-after-seconds 必须为 1–3600"));
                    }
                    a = Arguments { exit_after_seconds: Some(seconds), ..a };
                    i = i + 2;
                } else if str_equal(word, "-h") || str_equal(word, "--help") {
                    return Ok(Invocation::Help);
                } else {
                    let mut m = text("未知参数：");
                    m.append(word);
                    return Err(m);
                }
            },
        }
    }
    let modes = flag(a.inspect_foreground) + flag(a.apply_current_environment) + flag(a.watch_foreground) + flag(
        a.serve_ipc_once,
    ) + flag(a.serve_ipc_apply_once) + flag(a.serve_ipc) + flag(a.run_agent);
    if modes > 1 {
        return Err(text("前台检查、单次应用和自动监听模式不能同时使用"));
    }
    let writing = a.apply_current_environment || a.watch_foreground || a.run_agent || a.serve_ipc_apply_once;
    if writing != a.confirm_device_write {
        return Err(text("设备应用或自动监听必须与 --confirm-device-write 同时提供"));
    }
    if a.exit_after_seconds.is_some() && !(a.watch_foreground || a.serve_ipc || a.run_agent) {
        return Err(text("--exit-after-seconds 只能与 --watch-foreground、--serve-ipc 或 --run-agent 一起使用"));
    }
    Ok(Invocation::Run(a))
}

/// The switches that write to the device.
pub open spec fn writes_device(a: Arguments) -> bool {
    a.apply_current_environment || a.watch_foreground || a.run_agent || a.serve_ipc_apply_once
}

/// Every accepted command line runs at most one mode, writes to the device only
/// when the write is confirmed (and is confirmed only when it writes), and has a
/// time limit only for a long-running mode.
pub proof fn lemma_accepted_command_lines_are_safe(words: Seq<Seq<char>>)
    ensures
        spec_parse_arguments(words) matches Ok(Invocation::Run(a)) ==> {
            &&& count(a.inspect_foreground) + count(a.apply_current_environment) + count(a.watch_foreground) + count(
                a.serve_ipc_once,
            ) + count(a.serve_ipc_apply_once) + count(a.serve_ipc) + count(a.run_agent) <= 1
            &&& writes_device(a) == a.confirm_device_write
            &&& a.exit_after_seconds is Some ==> (a.watch_foreground || a.serve_ipc || a.run_agent)
        },
{
}

} // verus!
