//! What the configuration window shows: the device and language labels, the
//! revision it edits against, the DPI levels it loads into its editors, the
//! selection-mode choices, and the overview of the agent's state.

use vstd::prelude::*;

use crate::config::{applications_view, ApplicationProfileConfig, ApplicationView, UiLanguage};
use crate::draft::{spec_language_from_label, Notice};
use crate::fmt::{decimal_text, spec_decimal};
use crate::gui::{localize_profile_name, spec_localize_profile_name};
use crate::hidpp::text;
use crate::ipc::{AgentSnapshot, DeviceStatus, Environment};

verus! {

// ---------------------------------------------------------------------------
// Labels
// ---------------------------------------------------------------------------

/// The device line of the window (distinct from the shorter connection label).
pub open spec fn spec_device_status_label(status: DeviceStatus, english: bool) -> &'static str {
    match status {
        DeviceStatus::Ready => if english {
            "Device connected"
        } else {
            "设备已连接"
        },
        DeviceStatus::Disconnected => if english {
            "Device disconnected"
        } else {
            "未检测到设备"
        },
        DeviceStatus::Busy => if english {
            "Device is busy"
        } else {
            "设备正被其他程序占用"
        },
        DeviceStatus::Degraded => if english {
            "Device status is incomplete"
        } else {
            "设备状态不完整"
        },
        DeviceStatus::Unknown => if english {
            "Reading device status"
        } else {
            "正在读取设备状态"
        },
    }
}

pub fn device_status_label(status: DeviceStatus, english: bool) -> (label: &'static str)
    ensures
        label == spec_device_status_label(status, english),
{
    match status {
        DeviceStatus::Ready => if english {
            "Device connected"
        } else {
            "设备已连接"
        },
        DeviceStatus::Disconnected => if english {
            "Device disconnected"
        } else {
            "未检测到设备"
        },
        DeviceStatus::Busy => if english {
            "Device is busy"
        } else {
            "设备正被其他程序占用"
        },
        DeviceStatus::Degraded => if english {
            "Device status is incomplete"
        } else {
            "设备状态不完整"
        },
        DeviceStatus::Unknown => if english {
            "Reading device status"
        } else {
            "正在读取设备状态"
        },
    }
}

/// The label the window shows for an interface language.
pub open spec fn spec_language_label(language: UiLanguage) -> &'static str {
    match language {
        UiLanguage::En => "English",
        UiLanguage::ZhCn => "简体中文",
    }
}

pub fn language_label(language: UiLanguage) -> (label: &'static str)
    ensures
        label == spec_language_label(language),
{
    match language {
        UiLanguage::En => "English",
        UiLanguage::ZhCn => "简体中文",
    }
}

/// The label the window shows for a language reads back, when the form is
/// saved, as that language.
pub proof fn lemma_language_labels_round_trip(language: UiLanguage)
    ensures
        spec_language_from_label(spec_language_label(language)@) == Ok::<UiLanguage, Seq<char>>(language),
{
    reveal_strlit("English");
    reveal_strlit("简体中文");
    assert("English"@[0] != "简体中文"@[0]);
}

// ---------------------------------------------------------------------------
// Revision and DPI levels
// ---------------------------------------------------------------------------

/// The revision the window edits against, as the window's integer holds it
/// (revisions beyond its range are shown as its largest value).
pub fn base_revision(revision: u64) -> (r: i32)
    ensures
        r == if revision <= i32::MAX {
            revision as i32
        } else {
            i32::MAX
        },
{
    if revision <= i32::MAX as u64 {
        revision as i32
    } else {
        i32::MAX
    }
}

/// The four levels an editor loads, when the profile has exactly four.
pub fn editor_levels(levels: &Vec<u16>) -> (r: Option<[u16; 4]>)
    ensures
        levels@.len() == 4 ==> r is Some && r->Some_0@ == levels@,
        levels@.len() != 4 ==> r is None,
{
    if levels.len() == 4 {
        let array = [levels[0], levels[1], levels[2], levels[3]];
        assert(array@ =~= levels@);
        Some(array)
    } else {
        None
    }
}

/// The four levels the shutdown editor loads: the profile's, or 800, 1600,
/// 2400 and 3200 when it does not have exactly four.
pub fn shutdown_editor_levels(levels: &Vec<u16>) -> (r: [u16; 4])
    ensures
        levels@.len() == 4 ==> r@ == levels@,
        levels@.len() != 4 ==> r@ == seq![800u16, 1600u16, 2400u16, 3200u16],
{
    match editor_levels(levels) {
        Some(array) => array,
        None => {
            let array = [800u16, 1600u16, 2400u16, 3200u16];
            assert(array@ =~= seq![800u16, 1600u16, 2400u16, 3200u16]);
            array
        },
    }
}

// ---------------------------------------------------------------------------
// Selection-mode choices
// ---------------------------------------------------------------------------

/// The built-in choices, in the window's language.
pub open spec fn builtin_mode_options(english: bool) -> Seq<Seq<char>> {
    if english {
        seq!["Auto mode"@, "Fixed Office"@, "Fixed CS2"@]
    } else {
        seq!["自动模式"@, "固定 Office"@, "固定 CS2"@]
    }
}

/// The choice that fixes the selection on an application.
pub open spec fn application_mode_option(app: ApplicationView, english: bool) -> Seq<char> {
    if english {
        "Fixed "@ + spec_localize_profile_name(app.name, true)
    } else {
        "固定 "@ + app.name
    }
}

/// All selection-mode choices: the built-in ones, then one per application.
pub open spec fn spec_mode_options(apps: Seq<ApplicationView>, english: bool) -> Seq<Seq<char>> {
    builtin_mode_options(english) + Seq::new(apps.len(), |i: int| application_mode_option(apps[i], english))
}

pub fn mode_options(applications: &Vec<ApplicationProfileConfig>, english: bool) -> (options: Vec<String>)
    ensures
        options@.map_values(|o: String| o@) == spec_mode_options(applications_view(applications@), english),
{
    let ghost apps = applications_view(applications@);
    let mut options: Vec<String> = Vec::new();
    if english {
        options.push(text("Auto mode"));
        options.push(text("Fixed Office"));
        options.push(text("Fixed CS2"));
    } else {
        options.push(text("自动模式"));
        options.push(text("固定 Office"));
        options.push(text("固定 CS2"));
    }
    assert(options@.map_values(|o: String| o@) =~= builtin_mode_options(english));
    let mut i: usize = 0;
    while i < applications.len()
        invariant
            i <= applications@.len(),
            apps == applications_view(applications@),
            options@.map_values(|o: String| o@) =~= builtin_mode_options(english) + Seq::new(
                i as nat,
                |k: int| application_mode_option(apps[k], english),
            ),
        decreases applications.len() - i,
    {
        let name = applications[i].name.as_str();
        let option = if english {
            let mut option = text("Fixed ");
            option.append(localize_profile_name(name, true).as_str());
            option
        } else {
            let mut option = text("固定 ");
            option.append(name);
            option
        };
        assert(option@ == application_mode_option(apps[i as int], english));
        let ghost before = options@;
        options.push(option);
        assert(options@.map_values(|o: String| o@) =~= before.map_values(|o: String| o@).push(
            application_mode_option(apps[i as int], english),
        ));
        assert(Seq::new((i + 1) as nat, |k: int| application_mode_option(apps[k], english)) =~= Seq::new(
            i as nat,
            |k: int| application_mode_option(apps[k], english),
        ).push(application_mode_option(apps[i as int], english)));
        i = i + 1;
    }
    options
}

// ---------------------------------------------------------------------------
// Overview of the agent's state
// ---------------------------------------------------------------------------

/// The overview lines: connection, environment, device DPI and target DPI.
#[derive(Debug)]
pub struct Overview {
    pub connection: &'static str,
    pub environment: String,
    pub current_dpi: String,
    pub desired_dpi: String,
}

/// The name of the active environment in the window's language.
pub open spec fn spec_environment_label(environment: Environment, english: bool) -> Seq<char> {
    match environment {
        Environment::Office => if english {
            "Office"@
        } else {
            "办公环境"@
        },
        Environment::Cs2 => if english {
            "CS2"@
        } else {
            "CS 环境"@
        },
        Environment::Custom => if english {
            "App profile"@
        } else {
            "应用环境"@
        },
    }
}

pub open spec fn spec_overview_dpi(dpi: Option<u16>) -> Seq<char> {
    match dpi {
        Some(d) => spec_decimal(d as nat),
        None => "—"@,
    }
}

pub fn overview(snapshot: &AgentSnapshot, english: bool) -> (view: Overview)
    ensures
        view.connection == crate::gui::spec_connection_label(snapshot.device_status, english),
        view.environment@ == spec_environment_label(snapshot.active_environment, english),
        view.current_dpi@ == spec_overview_dpi(snapshot.current_dpi),
        view.desired_dpi@ == spec_decimal(snapshot.desired_dpi as nat),
{
    let environment = match snapshot.active_environment {
        Environment::Office => if english {
            text("Office")
        } else {
            text("办公环境")
        },
        Environment::Cs2 => if english {
            text("CS2")
        } else {
            text("CS 环境")
        },
        Environment::Custom => if english {
            text("App profile")
        } else {
            text("应用环境")
        },
    };
    let current_dpi = match snapshot.current_dpi {
        Some(d) => decimal_text(d as u64),
        None => text("—"),
    };
    Overview {
        connection: crate::gui::connection_label(snapshot.device_status, english),
        environment,
        current_dpi,
        desired_dpi: decimal_text(snapshot.desired_dpi as u64),
    }
}

/// The banner after the state is refreshed: applied when the device runs at the
/// target DPI, else saved and waiting to apply.
pub open spec fn spec_overview_banner(
    current_dpi: Option<u16>,
    desired_dpi: u16,
    environment: Seq<char>,
    mode: Seq<char>,
    english: bool,
) -> (Seq<char>, Seq<char>) {
    let desired = spec_decimal(desired_dpi as nat);
    if current_dpi == Some(desired_dpi) {
        if english {
            ("Current mode: "@ + mode, "Active profile: "@ + environment + "; applied. Current DPI: "@ + desired + "."@)
        } else {
            ("当前模式："@ + mode, "当前环境："@ + environment + "；配置已应用，当前 DPI 为 "@ + desired + "。"@)
        }
    } else {
        let current = match current_dpi {
            Some(d) => spec_decimal(d as nat),
            None => if english {
                "Unknown"@
            } else {
                "未知"@
            },
        };
        if english {
            (
                "Current mode: "@ + mode + " (waiting to apply)"@,
                "Active profile: "@ + environment + "; saved. Device DPI: "@ + current + "; target DPI: "@ + desired
                    + "."@,
            )
        } else {
            (
                "当前模式："@ + mode + "（等待应用）"@,
                "当前环境："@ + environment + "；配置已保存，设备当前 DPI 为 "@ + current + "，目标 DPI 为 "@
                    + desired + "。"@,
            )
        }
    }
}

pub fn overview_banner(snapshot: &AgentSnapshot, environment: &str, mode: &str, english: bool) -> (notice: Notice)
    ensures
        (notice.title@, notice.detail@) == spec_overview_banner(
            snapshot.current_dpi,
            snapshot.desired_dpi,
            environment@,
            mode@,
            english,
        ),
{
    let desired = decimal_text(snapshot.desired_dpi as u64);
    let applied = match snapshot.current_dpi {
        Some(d) => d == snapshot.desired_dpi,
        None => false,
    };
    if applied {
        if english {
            let mut title = text("Current mode: ");
            title.append(mode);
            let mut detail = text("Active profile: ");
            detail.append(environment);
            detail.append("; applied. Current DPI: ");
            detail.append(desired.as_str());
            detail.append(".");
            Notice { title, detail }
        } else {
            let mut title = text("当前模式：");
            title.append(mode);
            let mut detail = text("当前环境：");
            detail.append(environment);
            detail.append("；配置已应用，当前 DPI 为 ");
            detail.append(desired.as_str());
            detail.append("。");
            Notice { title, detail }
        }
    } else {
        let current = match snapshot.current_dpi {
            Some(d) => decimal_text(d as u64),
            None => if english {
                text("Unknown")
            } else {
                text("未知")
            },
        };
        if english {
            let mut title = text("Current mode: ");
            title.append(mode);
            title.append(" (waiting to apply)");
            let mut detail = text("Active profile: ");
            detail.append(environment);
            detail.append("; saved. Device DPI: ");
            detail.append(current.as_str());
            detail.append("; target DPI: ");
            detail.append(desired.as_str());
            detail.append(".");
            Notice { title, detail }
        } else {
            let mut title = text("当前模式：");
            title.append(mode);
            title.append("（等待应用）");
            let mut detail = text("当前环境：");
            detail.append(environment);
            detail.append("；配置已保存，设备当前 DPI 为 ");
            detail.append(current.as_str());
            detail.append("，目标 DPI 为 ");
            detail.append(desired.as_str());
            detail.append("。");
            Notice { title, detail }
        }
    }
}

} // verus!
