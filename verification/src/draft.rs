//! Editing the configuration draft in the configuration window: importing an
//! executable as an application environment, typed DPI values, the rows of the
//! mapping editor and the ids they carry, and turning the window's form into the
//! draft that is validated and committed.

use vstd::prelude::*;
use vstd::relations::injective_on;
use vstd::set_lib::{lemma_int_range, lemma_len_subset, lemma_map_size, set_int_range};

use crate::config::{
    applications_view, default_shutdown_profile, logical_view, same_text, spec_default_profile,
    spec_office_button_mappings, ActionView, AgentConfig, ApplicationProfileConfig, ApplicationView,
    ButtonMappingConfig, ConfigDocument, DocumentView, ProfileConfig, ProfileView, ProfilesView, SelectionView,
    UiLanguage,
};
use crate::fmt::{decimal_text, digit_char, lemma_decimal_digits, spec_decimal};
use crate::gui::{
    action_identity, all_digits, apply_mapping_selections, char_text, colon_from, control_label, digits_value,
    i32_text, int_text, key_action, keyboard_view, selection_mode_from_gui, selections_view, spec_action_from_id,
    spec_action_identity, spec_apply_selections, spec_control_label, spec_custom_dpi, spec_mode_from_gui,
    spec_original_action, spec_parse_unsigned, unsigned_value, validate_custom_dpi,
};
use crate::hidpp::text;
use crate::text::{ends_with_ignore_ascii_case, str_ends_with_ignore_ascii_case, str_eq_ignore_ascii_case, str_equal, utf8};

verus! {

// ---------------------------------------------------------------------------
// Ids for imported applications
// ---------------------------------------------------------------------------

/// One character of an id made from a file name: ASCII letters lower-cased,
/// ASCII digits kept, anything else replaced by `_`.
pub open spec fn id_char(c: char) -> char {
    if 'A' <= c <= 'Z' {
        ((c as u32) + 32) as char
    } else if ('a' <= c <= 'z') || ('0' <= c <= '9') {
        c
    } else {
        '_'
    }
}

/// The id an executable's file stem suggests.
pub open spec fn spec_base_id(stem: Seq<char>) -> Seq<char> {
    Seq::new(stem.len(), |k: int| id_char(stem[k]))
}

/// The id with a numeric suffix: `<base>_<k>`.
pub open spec fn numbered_id(base: Seq<char>, k: nat) -> Seq<char> {
    base + "_"@ + spec_decimal(k)
}

/// Some application already has this id.
pub open spec fn id_in_use(apps: Seq<ApplicationView>, id: Seq<char>) -> bool {
    exists|i: int| 0 <= i < apps.len() && (#[trigger] apps[i]).id == id
}

/// `k` is the first suffix, counting from 2, whose numbered id is free.
pub open spec fn first_free_suffix(apps: Seq<ApplicationView>, base: Seq<char>, k: nat) -> bool {
    &&& k >= 2
    &&& !id_in_use(apps, numbered_id(base, k))
    &&& forall|j: nat| 2 <= j < k ==> id_in_use(apps, #[trigger] numbered_id(base, j))
}

/// The id a new application gets: the suggested id when it is free, else the
/// suggested id with the first free suffix from 2 on.
pub open spec fn spec_unique_id(apps: Seq<ApplicationView>, base: Seq<char>) -> Seq<char> {
    if !id_in_use(apps, base) {
        base
    } else {
        numbered_id(base, choose|k: nat| first_free_suffix(apps, base, k))
    }
}

/// Different numbers have different decimal renderings.
proof fn lemma_decimal_injective(a: nat, b: nat)
    requires
        spec_decimal(a) == spec_decimal(b),
    ensures
        a == b,
    decreases a + b,
{
    if a < 10 && b < 10 {
        assert(spec_decimal(a)[0] == digit_char(a));
        assert(spec_decimal(b)[0] == digit_char(b));
    } else if a < 10 {
        lemma_decimal_digits(b / 10);
        assert(spec_decimal(b).len() == spec_decimal(b / 10).len() + 1);
    } else if b < 10 {
        lemma_decimal_digits(a / 10);
        assert(spec_decimal(a).len() == spec_decimal(a / 10).len() + 1);
    } else {
        let da = spec_decimal(a);
        let db = spec_decimal(b);
        assert(da.last() == digit_char(a % 10));
        assert(db.last() == digit_char(b % 10));
        assert(a % 10 == b % 10);
        assert(da.drop_last() =~= spec_decimal(a / 10));
        assert(db.drop_last() =~= spec_decimal(b / 10));
        lemma_decimal_injective(a / 10, b / 10);
    }
}

/// The ids `base`, `<base>_2`, ..., `<base>_<m>` are pairwise different.
proof fn lemma_candidates_differ(base: Seq<char>, a: int, b: int)
    requires
        1 <= a,
        1 <= b,
        candidate(base, a) == candidate(base, b),
    ensures
        a == b,
{
    reveal_strlit("_");
    if a != 1 && b != 1 {
        let sa = numbered_id(base, a as nat);
        let sb = numbered_id(base, b as nat);
        let start: int = base.len() as int + 1;
        assert(sa.subrange(start, sa.len() as int) =~= spec_decimal(a as nat));
        assert(sb.subrange(start, sb.len() as int) =~= spec_decimal(b as nat));
        lemma_decimal_injective(a as nat, b as nat);
    } else if a == 1 && b != 1 {
        lemma_decimal_digits(b as nat);
        assert(numbered_id(base, b as nat).len() > base.len());
    } else if a != 1 && b == 1 {
        lemma_decimal_digits(a as nat);
        assert(numbered_id(base, a as nat).len() > base.len());
    }
}

/// The `j`-th id tried: the suggested id for 1, the numbered id from 2 on.
pub open spec fn candidate(base: Seq<char>, j: int) -> Seq<char> {
    if j <= 1 {
        base
    } else {
        numbered_id(base, j as nat)
    }
}

/// When the suggested id and the numbered ids up to `m` are all taken, there are
/// at least `m` applications.
proof fn lemma_taken_ids_bound(apps: Seq<ApplicationView>, base: Seq<char>, m: int)
    requires
        1 <= m,
        forall|j: int| 1 <= j <= m ==> id_in_use(apps, #[trigger] candidate(base, j)),
    ensures
        m <= apps.len(),
{
    let ids = apps.map_values(|a: ApplicationView| a.id);
    let in_use = ids.to_set();
    ids.lemma_cardinality_of_set();
    let f = |j: int| candidate(base, j);
    let range = set_int_range(1, m + 1);
    lemma_int_range(1, m + 1);
    assert(injective_on(f, range)) by {
        assert forall|a: int, b: int| range.contains(a) && range.contains(b) && #[trigger] f(a) == #[trigger] f(
            b,
        ) implies a == b by {
            lemma_candidates_differ(base, a, b);
        }
    }
    let tried = range.map(f);
    lemma_map_size(range, tried, f);
    assert(tried.subset_of(in_use)) by {
        assert forall|x: Seq<char>| tried.contains(x) implies in_use.contains(x) by {
            let j = choose|j: int| range.contains(j) && x == f(j);
            assert(id_in_use(apps, candidate(base, j)));
            let i = choose|i: int| 0 <= i < apps.len() && (#[trigger] apps[i]).id == candidate(base, j);
            assert(ids[i] == x);
        }
    }
    vstd::seq_lib::seq_to_set_is_finite(ids);
    lemma_len_subset(tried, in_use);
}

fn id_used(applications: &Vec<ApplicationProfileConfig>, id: &str) -> (used: bool)
    ensures
        used == id_in_use(applications_view(applications@), id@),
{
    let ghost apps = applications_view(applications@);
    let mut i: usize = 0;
    while i < applications.len()
        invariant
            i <= applications@.len(),
            apps == applications_view(applications@),
            forall|k: int| 0 <= k < i ==> (#[trigger] apps[k]).id != id@,
        decreases applications.len() - i,
    {
        if str_equal(applications[i].id.as_str(), id) {
            assert(apps[i as int].id == id@);
            return true;
        }
        i = i + 1;
    }
    false
}

fn numbered(base: &str, k: u64) -> (id: String)
    ensures
        id@ == numbered_id(base@, k as nat),
{
    let mut id = text(base);
    id.append("_");
    id.append(decimal_text(k).as_str());
    id
}

/// The id for a new application: `base` when no application has it, else
/// `<base>_<k>` for the first free `k` from 2 on.
pub fn unique_id(applications: &Vec<ApplicationProfileConfig>, base: &str) -> (id: String)
    requires
        applications@.len() < 0x7fff_ffff,
    ensures
        id@ == spec_unique_id(applications_view(applications@), base@),
{
    let ghost apps = applications_view(applications@);
    if !id_used(applications, base) {
        return text(base);
    }
    let mut suffix: u64 = 2;
    let mut id = numbered(base, 2);
    assert(candidate(base@, 1) == base@);
    while id_used(applications, id.as_str())
        invariant
            apps == applications_view(applications@),
            apps.len() < 0x7fff_ffff,
            2 <= suffix <= apps.len() + 1,
            id@ == numbered_id(base@, suffix as nat),
            id_in_use(apps, base@),
            forall|j: nat| 2 <= j < suffix ==> id_in_use(apps, #[trigger] numbered_id(base@, j)),
        decreases apps.len() + 1 - suffix,
    {
        proof {
            assert forall|j: int| 1 <= j <= suffix implies id_in_use(apps, #[trigger] candidate(base@, j)) by {
                if j >= 2 {
                    assert(candidate(base@, j) == numbered_id(base@, j as nat));
                }
            }
            lemma_taken_ids_bound(apps, base@, suffix as int);
        }
        suffix = suffix + 1;
        id = numbered(base, suffix);
    }
    proof {
        assert(first_free_suffix(apps, base@, suffix as nat));
        let k = choose|k: nat| first_free_suffix(apps, base@, k);
        if k < suffix {
            assert(id_in_use(apps, numbered_id(base@, k)));
        } else if k > suffix {
            assert(id_in_use(apps, numbered_id(base@, suffix as nat)));
        }
        assert(k == suffix);
    }
    id
}

/// A free numbered id below `j` leads to the first free one.
proof fn lemma_first_free_exists(apps: Seq<ApplicationView>, base: Seq<char>, j: nat)
    requires
        j >= 2,
        !id_in_use(apps, numbered_id(base, j)),
    ensures
        exists|k: nat| first_free_suffix(apps, base, k),
    decreases j,
{
    if forall|i: nat| 2 <= i < j ==> id_in_use(apps, #[trigger] numbered_id(base, i)) {
        assert(first_free_suffix(apps, base, j));
    } else {
        let i = choose|i: nat| 2 <= i < j && !id_in_use(apps, #[trigger] numbered_id(base, i));
        lemma_first_free_exists(apps, base, i);
    }
}

/// An imported application never gets an id that an application already has.
pub proof fn lemma_imported_id_is_new(apps: Seq<ApplicationView>, base: Seq<char>)
    ensures
        !id_in_use(apps, spec_unique_id(apps, base)),
{
    if id_in_use(apps, base) {
        let m = apps.len() + 1;
        if forall|j: int| 2 <= j <= m ==> id_in_use(apps, #[trigger] numbered_id(base, j as nat)) {
            assert forall|j: int| 1 <= j <= m implies id_in_use(apps, #[trigger] candidate(base, j)) by {
                if j >= 2 {
                    assert(id_in_use(apps, numbered_id(base, j as nat)));
                }
            }
            lemma_taken_ids_bound(apps, base, m as int);
        }
        let j = choose|j: int| 2 <= j <= m && !id_in_use(apps, #[trigger] numbered_id(base, j as nat));
        lemma_first_free_exists(apps, base, j as nat);
    }
}

/// The id a file stem suggests.
pub fn base_id(stem: &str) -> (id: String)
    ensures
        id@ == spec_base_id(stem@),
{
    let n = stem.unicode_len();
    let mut id = text("");
    proof {
        reveal_strlit("");
    }
    let mut k: usize = 0;
    while k < n
        invariant
            n == stem@.len(),
            k <= n,
            id@ =~= Seq::new(k as nat, |j: int| id_char(stem@[j])),
        decreases n - k,
    {
        let c = stem.get_char(k);
        let mapped = if 'A' <= c && c <= 'Z' {
            ((c as u32) + 32) as u8 as char
        } else if ('a' <= c && c <= 'z') || ('0' <= c && c <= '9') {
            c
        } else {
            '_'
        };
        assert(mapped == id_char(c)) by {
            if 'A' <= c <= 'Z' {
                assert((((c as u32) + 32) as u8) as char == ((c as u32) + 32) as char);
            }
        }
        id.append(char_text(mapped).as_str());
        k = k + 1;
    }
    id
}

// ---------------------------------------------------------------------------
// Importing an executable
// ---------------------------------------------------------------------------

/// Some application is already bound to this executable name (ignoring ASCII case).
pub open spec fn process_imported(apps: Seq<ApplicationView>, process_name: Seq<char>) -> bool {
    exists|i: int| 0 <= i < apps.len() && same_text((#[trigger] apps[i]).process_name, process_name)
}

/// The display name of an imported executable: `Word 环境` for Word, else
/// `<stem> 环境`.
pub open spec fn spec_display_name(stem: Seq<char>) -> Seq<char> {
    if same_text(stem, "winword"@) {
        "Word 环境"@
    } else {
        stem + " 环境"@
    }
}

/// The DPI taken over from the CS2 editor: its value when it fits, else 800.
pub open spec fn imported_dpi(dpi: i32) -> u16 {
    if 0 <= dpi <= 65535 {
        dpi as u16
    } else {
        800
    }
}

/// The application an import adds: its id, name and executable, and a profile
/// that starts from the default CS2 profile with the CS2 editor's DPI, DPI levels
/// and button choices (choices that cannot be applied stop where they fail).
pub open spec fn spec_imported_application(
    apps: Seq<ApplicationView>,
    executable_path: Seq<char>,
    process_name: Seq<char>,
    stem: Seq<char>,
    cs2_dpi: i32,
    cs2_dpi_levels: Seq<u16>,
    cs2_selections: Seq<(Seq<char>, Seq<char>)>,
) -> ApplicationView {
    ApplicationView {
        id: spec_unique_id(apps, spec_base_id(stem)),
        name: spec_display_name(stem),
        executable_path,
        process_name,
        profile: ProfileView {
            dpi: imported_dpi(cs2_dpi),
            report_rate_hz: spec_default_profile().report_rate_hz,
            dpi_levels: cs2_dpi_levels,
            button_mappings: spec_apply_selections(
                spec_office_button_mappings(),
                cs2_selections,
                cs2_selections.len() as int,
            ).0,
        },
    }
}

/// The stem used when the executable has none: `应用`.
pub open spec fn stem_or_default(stem: Option<Seq<char>>) -> Seq<char> {
    match stem {
        Some(s) => s,
        None => "应用"@,
    }
}

fn any_process_imported(applications: &Vec<ApplicationProfileConfig>, process_name: &str) -> (found: bool)
    ensures
        found == process_imported(applications_view(applications@), process_name@),
{
    let ghost apps = applications_view(applications@);
    let mut i: usize = 0;
    while i < applications.len()
        invariant
            i <= applications@.len(),
            apps == applications_view(applications@),
            forall|k: int| 0 <= k < i ==> !same_text((#[trigger] apps[k]).process_name, process_name@),
        decreases applications.len() - i,
    {
        if str_eq_ignore_ascii_case(applications[i].process_name.as_str(), process_name) {
            assert(same_text(apps[i as int].process_name, process_name@));
            return true;
        }
        i = i + 1;
    }
    false
}

/// A file name with the extension `exe` in any case: it ends with `.exe` after a
/// non-empty stem.
pub open spec fn exe_file_name(name: Seq<char>) -> bool {
    utf8(name).len() > 4 && ends_with_ignore_ascii_case(utf8(name), utf8(".exe"@))
}

pub open spec fn not_an_executable_message() -> Seq<char> {
    "请输入存在的 .exe 程序完整路径。"@
}

/// Imports an executable as a new application environment. A file that is not an
/// `.exe` program, or an executable whose name is already imported, is refused
/// with the message shown to the user.
pub fn import_application(
    applications: &Vec<ApplicationProfileConfig>,
    executable_path: &str,
    process_name: &str,
    executable_stem: Option<&str>,
    cs2_dpi: i32,
    cs2_dpi_levels: [u16; 4],
    cs2_selections: &[(String, String)],
) -> (r: Result<ApplicationProfileConfig, String>)
    requires
        applications@.len() < 0x7fff_ffff,
    ensures
        !exe_file_name(process_name@) ==> r is Err && r->Err_0@ == not_an_executable_message(),
        exe_file_name(process_name@) && process_imported(applications_view(applications@), process_name@) ==> r is Err
            && r->Err_0@ == process_name@ + " 已经有独立环境配置。 "@,
        exe_file_name(process_name@) && !process_imported(applications_view(applications@), process_name@) ==> r is Ok
            && r->Ok_0@
            == spec_imported_application(
            applications_view(applications@),
            executable_path@,
            process_name@,
            stem_or_default(
                match executable_stem {
                    Some(s) => Some(s@),
                    None => None,
                },
            ),
            cs2_dpi,
            cs2_dpi_levels@,
            selections_view(cs2_selections@),
        ),
{
    if process_name.as_bytes().len() <= 4 || !str_ends_with_ignore_ascii_case(process_name, ".exe") {
        return Err(text("请输入存在的 .exe 程序完整路径。"));
    }
    if any_process_imported(applications, process_name) {
        let mut message = text(process_name);
        message.append(" 已经有独立环境配置。 ");
        return Err(message);
    }
    let stem = match executable_stem {
        Some(s) => s,
        None => "应用",
    };
    let name = if str_eq_ignore_ascii_case(stem, "winword") {
        text("Word 环境")
    } else {
        let mut name = text(stem);
        name.append(" 环境");
        name
    };
    let base = base_id(stem);
    let id = unique_id(applications, base.as_str());
    let mut profile = default_shutdown_profile();
    profile.dpi = if 0 <= cs2_dpi && cs2_dpi <= 65535 {
        cs2_dpi as u16
    } else {
        800
    };
    let mut levels: Vec<u16> = Vec::new();
    levels.push(cs2_dpi_levels[0]);
    levels.push(cs2_dpi_levels[1]);
    levels.push(cs2_dpi_levels[2]);
    levels.push(cs2_dpi_levels[3]);
    assert(levels@ =~= cs2_dpi_levels@);
    profile.dpi_levels = levels;
    let _ = apply_mapping_selections(&mut profile.button_mappings, cs2_selections);
    Ok(
        ApplicationProfileConfig {
            id,
            name,
            executable_path: text(executable_path),
            process_name: text(process_name),
            profile,
        },
    )
}

// ---------------------------------------------------------------------------
// The window's form
// ---------------------------------------------------------------------------

/// What the window holds for one environment: DPI, report rate, the four DPI
/// levels and the action chosen for each control (control id, action id).
#[derive(Debug)]
pub struct EnvironmentForm {
    pub dpi: u16,
    pub report_rate_hz: u16,
    pub dpi_levels: [u16; 4],
    pub mappings: Vec<(String, String)>,
}

/// Everything the window saves.
#[derive(Debug)]
pub struct GuiForm {
    pub office: EnvironmentForm,
    pub cs2: EnvironmentForm,
    pub shutdown: EnvironmentForm,
    pub applications: Vec<ApplicationProfileConfig>,
    pub selection_mode: String,
    pub start_with_windows: bool,
    pub developer_logging: bool,
    pub language: String,
}

/// A profile edited by the form, and the first action choice that failed, if any.
pub open spec fn form_profile(p: ProfileView, form: &EnvironmentForm) -> (ProfileView, Option<Seq<char>>) {
    let chosen = spec_apply_selections(
        p.button_mappings,
        selections_view(form.mappings@),
        form.mappings@.len() as int,
    );
    (
        ProfileView {
            dpi: form.dpi,
            report_rate_hz: form.report_rate_hz,
            dpi_levels: form.dpi_levels@,
            button_mappings: chosen.0,
        },
        chosen.1,
    )
}

/// The interface language a language label stands for.
pub open spec fn spec_language_from_label(label: Seq<char>) -> Result<UiLanguage, Seq<char>> {
    if label == "简体中文"@ {
        Ok(UiLanguage::ZhCn)
    } else if label == "English"@ {
        Ok(UiLanguage::En)
    } else {
        Err("不支持的界面语言："@ + label)
    }
}

pub fn language_from_label(label: &str) -> (r: Result<UiLanguage, String>)
    ensures
        match spec_language_from_label(label@) {
            Ok(language) => r == Ok::<UiLanguage, String>(language),
            Err(message) => r is Err && r->Err_0@ == message,
        },
{
    if str_equal(label, "简体中文") {
        Ok(UiLanguage::ZhCn)
    } else if str_equal(label, "English") {
        Ok(UiLanguage::En)
    } else {
        let mut message = text("不支持的界面语言：");
        message.append(label);
        Err(message)
    }
}

/// The draft a saved form makes of the stored configuration: the three
/// profiles, the applications, the selection and the agent preferences as the
/// form has them, everything else as stored. The first problem found, in that
/// order, refuses the form.
pub open spec fn spec_apply_gui_form(doc: DocumentView, form: &GuiForm) -> Result<DocumentView, Seq<char>> {
    let (office, office_error) = form_profile(doc.profiles.office, &form.office);
    let (cs2, cs2_error) = form_profile(doc.profiles.cs2, &form.cs2);
    let (shutdown, shutdown_error) = form_profile(doc.shutdown_profile, &form.shutdown);
    let applications = applications_view(form.applications@);
    if office_error is Some {
        Err(office_error->Some_0)
    } else if cs2_error is Some {
        Err(cs2_error->Some_0)
    } else if shutdown_error is Some {
        Err(shutdown_error->Some_0)
    } else {
        match spec_mode_from_gui(form.selection_mode@, applications) {
            Err(message) => Err(message),
            Ok((mode, fixed_application_id)) => match spec_language_from_label(form.language@) {
                Err(message) => Err(message),
                Ok(language) => Ok(
                    DocumentView {
                        agent: AgentConfig {
                            start_with_windows: form.start_with_windows,
                            developer_logging: form.developer_logging,
                            language,
                        },
                        selection: SelectionView { mode, fixed_application_id, ..doc.selection },
                        profiles: ProfilesView { office, cs2 },
                        applications,
                        shutdown_profile: shutdown,
                        ..doc
                    },
                ),
            },
        }
    }
}

fn levels_vec(levels: [u16; 4]) -> (v: Vec<u16>)
    ensures
        v@ == levels@,
{
    let mut v: Vec<u16> = Vec::new();
    v.push(levels[0]);
    v.push(levels[1]);
    v.push(levels[2]);
    v.push(levels[3]);
    assert(v@ =~= levels@);
    v
}

fn apply_environment_form(profile: &mut ProfileConfig, form: &EnvironmentForm) -> (r: Result<(), String>)
    ensures
        final(profile)@ == form_profile(old(profile)@, form).0,
        match form_profile(old(profile)@, form).1 {
            None => r is Ok,
            Some(message) => r is Err && r->Err_0@ == message,
        },
{
    profile.dpi = form.dpi;
    profile.report_rate_hz = form.report_rate_hz;
    profile.dpi_levels = levels_vec(form.dpi_levels);
    apply_mapping_selections(&mut profile.button_mappings, form.mappings.as_slice())
}

/// Turns the saved form into the draft of the stored configuration `config`.
pub fn apply_gui_form(config: ConfigDocument, form: GuiForm) -> (r: Result<ConfigDocument, String>)
    ensures
        match spec_apply_gui_form(config@, &form) {
            Ok(draft) => r is Ok && r->Ok_0@ == draft,
            Err(message) => r is Err && r->Err_0@ == message,
        },
{
    let ghost before = config@;
    let mut config = config;
    apply_environment_form(&mut config.profiles.office, &form.office)?;
    apply_environment_form(&mut config.profiles.cs2, &form.cs2)?;
    apply_environment_form(&mut config.shutdown_profile, &form.shutdown)?;
    let (mode, fixed_application_id) = selection_mode_from_gui(
        form.selection_mode.as_str(),
        form.applications.as_slice(),
    )?;
    let language = language_from_label(form.language.as_str())?;
    let GuiForm { applications, start_with_windows, developer_logging, .. } = form;
    config.applications = applications;
    config.selection.mode = mode;
    config.selection.fixed_application_id = fixed_application_id;
    config.agent = AgentConfig { start_with_windows, developer_logging, language };
    Ok(config)
}

// ---------------------------------------------------------------------------
// Typed DPI values
// ---------------------------------------------------------------------------

/// What the window tells the user after an edit: a title and a detail line.
#[derive(Debug)]
pub struct Notice {
    pub title: String,
    pub detail: String,
}

/// A typed custom DPI: accepted with the value and the notice, or refused with
/// the notice. A step below 1 counts as 1.
pub fn set_custom_dpi(typed: &str, minimum: i32, maximum: i32, step: i32) -> (r: Result<(i32, Notice), Notice>)
    ensures
        match spec_custom_dpi(typed@, minimum, maximum, step) {
            Ok(value) => r is Ok && r->Ok_0.0 == value && r->Ok_0.1.title@ == "自定义 DPI 已加入草稿"@
                && r->Ok_0.1.detail@ == int_text(value as int) + " DPI 将在保存配置后生效。"@,
            Err(message) => r is Err && r->Err_0.title@ == "DPI 输入无效"@ && r->Err_0.detail@ == message,
        },
{
    let grid = if step < 1 {
        1
    } else {
        step
    };
    match validate_custom_dpi(typed, minimum, maximum, grid) {
        Ok(value) => {
            let mut detail = i32_text(value);
            detail.append(" DPI 将在保存配置后生效。");
            Ok((value, Notice { title: text("自定义 DPI 已加入草稿"), detail }))
        },
        Err(message) => Err(Notice { title: text("DPI 输入无效"), detail: message }),
    }
}

/// Four DPI levels from lowest to highest, none repeated.
pub open spec fn strictly_increasing(levels: Seq<i32>) -> bool {
    levels[0] < levels[1] && levels[1] < levels[2] && levels[2] < levels[3]
}

/// The levels with level `index` set to `value`.
pub open spec fn with_level(levels: Seq<u16>, index: int, value: i32) -> Seq<i32> {
    Seq::new(4, |k: int| if k == index { value } else { levels[k] as i32 })
}

/// A value typed for DPI level `index` (0 to 3) of `levels`: `None` when the
/// index is no level (after the value itself was accepted), else the new levels
/// with the notice, or the refusal.
pub fn set_dpi_level(levels: [u16; 4], index: i32, typed: &str, minimum: i32, maximum: i32, step: i32) -> (r: Option<
    Result<([i32; 4], Notice), Notice>,
>)
    ensures
        match spec_custom_dpi(typed@, minimum, maximum, step) {
            Err(message) => r matches Some(Err(notice)) && notice.title@ == "DPI 档位无效"@ && notice.detail@
                == message,
            Ok(value) => if index < 0 || index >= 4 {
                r is None
            } else if !strictly_increasing(with_level(levels@, index as int, value)) {
                r matches Some(Err(notice)) && notice.title@ == "DPI 档位顺序无效"@ && notice.detail@
                    == "四个 DPI 档位必须从低到高排列且不能重复。"@
            } else {
                r matches Some(Ok((updated, notice))) && updated@ == with_level(levels@, index as int, value)
                    && notice.title@ == "DPI 档位已加入草稿"@ && notice.detail@ == "档位 "@ + spec_decimal(
                    (index + 1) as nat,
                ) + " 已设置为 "@ + int_text(value as int) + " DPI。"@
            },
        },
{
    let value = match validate_custom_dpi(typed, minimum, maximum, step) {
        Ok(value) => value,
        Err(message) => {
            return Some(Err(Notice { title: text("DPI 档位无效"), detail: message }));
        },
    };
    if index < 0 || index >= 4 {
        return None;
    }
    let mut updated = [levels[0] as i32, levels[1] as i32, levels[2] as i32, levels[3] as i32];
    updated.set(index as usize, value);
    assert(updated@ =~= with_level(levels@, index as int, value));
    if !(updated[0] < updated[1] && updated[1] < updated[2] && updated[2] < updated[3]) {
        return Some(
            Err(
                Notice {
                    title: text("DPI 档位顺序无效"),
                    detail: text("四个 DPI 档位必须从低到高排列且不能重复。"),
                },
            ),
        );
    }
    let mut detail = text("档位 ");
    detail.append(decimal_text((index + 1) as u64).as_str());
    detail.append(" 已设置为 ");
    detail.append(i32_text(value).as_str());
    detail.append(" DPI。");
    Some(Ok((updated, Notice { title: text("DPI 档位已加入草稿"), detail })))
}

// ---------------------------------------------------------------------------
// Rows of the mapping editor
// ---------------------------------------------------------------------------

/// One row of the mapping editor.
#[derive(Debug)]
pub struct MappingRow {
    pub control_id: String,
    pub label: String,
    pub action_id: String,
    pub action_label: String,
    pub locked: bool,
}

/// The primary and secondary buttons cannot be remapped in the editor.
pub open spec fn protected_control(control: Seq<char>) -> bool {
    control == "g102:left"@ || control == "g102:right"@
}

/// The row for a configured mapping: the control's label and the action's editor
/// id and label; locked for the primary buttons and for actions the editor does
/// not offer.
pub fn mapping_row(mapping: &ButtonMappingConfig, english: bool) -> (row: MappingRow)
    ensures
        row.control_id@ == mapping.physical_control@,
        row.label@ == spec_control_label(mapping.physical_control@, english)@,
        row.action_id@ == spec_action_identity(mapping.action@, english).0,
        row.action_label@ == spec_action_identity(mapping.action@, english).1,
        row.locked == (protected_control(mapping.physical_control@) || !spec_action_identity(
            mapping.action@,
            english,
        ).2),
{
    let (action_id, action_label, known) = action_identity(&mapping.action, english);
    let control = mapping.physical_control.as_str();
    let protected = str_equal(control, "g102:left") || str_equal(control, "g102:right");
    MappingRow {
        control_id: text(control),
        label: text(control_label(control, english)),
        action_id,
        action_label,
        locked: protected || !known,
    }
}

/// What an edit of a row did: nothing on a locked row; else the action changed,
/// and for the DPI button whether the native DPI cycle is now chosen.
#[derive(Debug)]
pub enum RowEdit {
    Locked,
    Updated { dpi_cycle: Option<bool> },
}

/// Puts an action (editor id and label) on a row unless the row is locked.
pub fn edit_mapping_row(row: &mut MappingRow, action_id: &str, action_label: &str) -> (edit: RowEdit)
    ensures
        old(row).locked ==> edit is Locked && final(row).action_id@ == old(row).action_id@
            && final(row).action_label@ == old(row).action_label@,
        !old(row).locked ==> final(row).action_id@ == action_id@ && final(row).action_label@ == action_label@
            && edit == (RowEdit::Updated {
            dpi_cycle: if old(row).control_id@ == "g102:dpi"@ {
                Some(action_id@ == "dpi_cycle"@)
            } else {
                None
            },
        }),
        final(row).control_id@ == old(row).control_id@,
        final(row).label@ == old(row).label@,
        final(row).locked == old(row).locked,
{
    if row.locked {
        return RowEdit::Locked;
    }
    row.action_id = text(action_id);
    row.action_label = text(action_label);
    let dpi_cycle = if str_equal(row.control_id.as_str(), "g102:dpi") {
        Some(str_equal(action_id, "dpi_cycle"))
    } else {
        None
    };
    RowEdit::Updated { dpi_cycle }
}

/// The editor id of a captured key chord: `key:<usage>:<modifiers>`.
pub open spec fn spec_captured_action_id(usage: u8, modifiers: u8) -> Seq<char> {
    "key:"@ + spec_decimal(usage as nat) + ":"@ + spec_decimal(modifiers as nat)
}

pub fn captured_action_id(usage: u8, modifiers: u8) -> (id: String)
    ensures
        id@ == spec_captured_action_id(usage, modifiers),
{
    let mut id = text("key:");
    id.append(decimal_text(usage as u64).as_str());
    id.append(":");
    id.append(decimal_text(modifiers as u64).as_str());
    id
}

// ---------------------------------------------------------------------------
// Editor ids read back
// ---------------------------------------------------------------------------

/// A decimal rendering reads back as its number.
proof fn lemma_decimal_reads_back(n: nat)
    ensures
        all_digits(spec_decimal(n)),
        digits_value(spec_decimal(n)) == n,
    decreases n,
{
    let d = spec_decimal(n);
    lemma_decimal_digits(n);
    if n < 10 {
        assert(d.drop_last() =~= Seq::<char>::empty());
        assert(digits_value(d.drop_last()) == 0);
    } else {
        lemma_decimal_reads_back(n / 10);
        assert(d.drop_last() =~= spec_decimal(n / 10));
        assert(d.last() == digit_char(n % 10));
        assert((n / 10) * 10 + n % 10 == n) by (nonlinear_arith);
    }
}

/// A run of digits holds no `:` from `i` on.
proof fn lemma_no_colon_in_digits(d: Seq<char>, i: int)
    requires
        all_digits(d),
        0 <= i,
    ensures
        colon_from(d, i) is None,
    decreases d.len() - i,
{
    if i < d.len() {
        lemma_no_colon_in_digits(d, i + 1);
    }
}

/// In `<digits>:<rest>`, the first `:` from any `i` within the digits is the one
/// after them.
proof fn lemma_colon_after_digits(d: Seq<char>, rest: Seq<char>, i: int)
    requires
        all_digits(d),
        0 <= i <= d.len(),
    ensures
        colon_from(d + ":"@ + rest, i) == Some(d.len() as int),
    decreases d.len() - i,
{
    reveal_strlit(":");
    let s = d + ":"@ + rest;
    if i < d.len() {
        assert(s[i] == d[i]);
        lemma_colon_after_digits(d, rest, i + 1);
    } else {
        assert(s[i] == ':');
    }
}

/// `<usage>:<modifiers>` in decimal reads back as that keyboard action when the
/// usage is one a key can have.
proof fn lemma_key_text_reads_back(usage: u8, modifiers: u8)
    requires
        1 <= usage <= 0xe7,
    ensures
        key_action(spec_decimal(usage as nat) + ":"@ + spec_decimal(modifiers as nat)) == Some(
            keyboard_view(usage as u16, modifiers),
        ),
{
    reveal_strlit(":");
    let du = spec_decimal(usage as nat);
    let dm = spec_decimal(modifiers as nat);
    let rest = du + ":"@ + dm;
    lemma_decimal_reads_back(usage as nat);
    lemma_decimal_reads_back(modifiers as nat);
    lemma_colon_after_digits(du, dm, 0);
    assert(rest.subrange(0, du.len() as int) =~= du);
    assert(rest.subrange(du.len() as int + 1, rest.len() as int) =~= dm);
    assert(du.len() <= 1 || du[0] != '+');
    assert(dm.len() <= 1 || dm[0] != '+');
    assert(unsigned_value(du) == Some(usage as int));
    assert(unsigned_value(dm) == Some(modifiers as int));
    lemma_no_colon_in_digits(dm, 0);
}

/// A captured key chord reads back from its editor id as that keyboard action.
pub proof fn lemma_captured_id_round_trip(usage: u8, modifiers: u8)
    requires
        1 <= usage <= 0xe7,
    ensures
        spec_action_from_id(spec_captured_action_id(usage, modifiers)) == Ok::<ActionView, Seq<char>>(
            keyboard_view(usage as u16, modifiers),
        ),
{
    reveal_strlit("key:");
    reveal_strlit("left");
    reveal_strlit("right");
    reveal_strlit("middle");
    reveal_strlit("side_back");
    reveal_strlit("side_forward");
    reveal_strlit("dpi_cycle");
    reveal_strlit("disabled");
    let id = spec_captured_action_id(usage, modifiers);
    let rest = spec_decimal(usage as nat) + ":"@ + spec_decimal(modifiers as nat);
    assert(id =~= "key:"@ + rest);
    assert(id.subrange(0, 4) =~= "key:"@);
    assert(id.subrange(4, id.len() as int) =~= rest);
    assert(id[0] == 'k');
    lemma_key_text_reads_back(usage, modifiers);
}

/// Every action the mapping editor offers reads back from the editor id it
/// shows as the same action. (Keyboard usages 0 and above 0xe7 are shown but
/// are no key the editor can store; they are left out.)
pub proof fn lemma_editor_ids_round_trip(action: ActionView, english: bool)
    requires
        spec_action_identity(action, english).2,
        action matches ActionView::OnboardKeyboard { usage, .. } ==> 1 <= usage <= 0xe7,
    ensures
        spec_action_from_id(spec_action_identity(action, english).0) == Ok::<ActionView, Seq<char>>(action),
{
    reveal_strlit("key:");
    reveal_strlit("left");
    reveal_strlit("right");
    reveal_strlit("middle");
    reveal_strlit("side_back");
    reveal_strlit("side_forward");
    reveal_strlit("dpi_cycle");
    reveal_strlit("disabled");
    reveal_strlit("mouse:left");
    reveal_strlit("mouse:right");
    reveal_strlit("mouse:middle");
    reveal_strlit("mouse:back");
    reveal_strlit("mouse:forward");
    reveal_strlit("mouse:dpi_cycle");
    reveal_strlit("key:42:0");
    match action {
        ActionView::OnboardKeyboard { usage_page, usage, modifiers } => {
            if usage == 0x2a && modifiers == 0 {
                reveal_strlit("42");
                reveal_strlit("0");
                assert(spec_decimal(42) =~= "42"@) by {
                    reveal_with_fuel(spec_decimal, 3);
                }
                assert(spec_decimal(0) =~= "0"@);
                reveal_strlit(":");
                let built = "key:"@ + "42"@ + ":"@ + "0"@;
                assert(built =~= "key:42:0"@);
                assert(spec_captured_action_id(42, 0) == built);
            }
            lemma_captured_id_round_trip(usage as u8, modifiers);
            assert(spec_action_identity(action, english).0 == spec_captured_action_id(usage as u8, modifiers));
        },
        ActionView::LogicalControl { value } => {},
        ActionView::Disabled => {},
        ActionView::OnboardConsumer { .. } => {},
    }
}

/// Restoring a remappable control in the editor puts back its out-of-box
/// action, shown with the label the editor gives that action.
pub proof fn lemma_restore_gives_original_action(k: int, english: bool)
    requires
        2 <= k < 6,
    ensures
        spec_action_from_id(spec_original_action(spec_office_button_mappings()[k].physical_control, english).0@)
            == Ok::<ActionView, Seq<char>>(spec_office_button_mappings()[k].action),
        spec_original_action(spec_office_button_mappings()[k].physical_control, english).1@ == spec_action_identity(
            spec_office_button_mappings()[k].action,
            english,
        ).1,
{
    reveal_strlit("g102:middle");
    reveal_strlit("g102:side_back");
    reveal_strlit("g102:side_forward");
    reveal_strlit("g102:dpi");
    reveal_strlit("left");
    reveal_strlit("right");
    reveal_strlit("middle");
    reveal_strlit("side_back");
    reveal_strlit("side_forward");
    reveal_strlit("dpi_cycle");
    reveal_strlit("mouse:left");
    reveal_strlit("mouse:right");
    reveal_strlit("mouse:middle");
    reveal_strlit("mouse:back");
    reveal_strlit("mouse:forward");
    reveal_strlit("mouse:dpi_cycle");
    let ms = spec_office_button_mappings();
    assert("g102:middle"@[5] == 'm' && "g102:side_back"@[5] == 's' && "g102:dpi"@[5] == 'd');
    assert("g102:side_forward"@[5] == 's' && "g102:side_back"@[10] == 'b' && "g102:side_forward"@[10] == 'f');
    assert("mouse:left"@[6] == 'l' && "mouse:right"@[6] == 'r' && "mouse:middle"@[6] == 'm');
    assert("mouse:back"@[6] == 'b' && "mouse:forward"@[6] == 'f' && "mouse:dpi_cycle"@[6] == 'd');
    if k == 2 {
        assert(ms[2].physical_control == "g102:middle"@);
    } else if k == 3 {
        assert(ms[3].physical_control == "g102:side_back"@);
    } else if k == 4 {
        assert(ms[4].physical_control == "g102:side_forward"@);
    } else {
        assert(ms[5].physical_control == "g102:dpi"@);
    }
}

} // verus!
