//! The configuration document: its schema, defaults, validation rules, transfer
//! between installations, migration of older files, and the revisioned repository
//! that commits drafts. Reading and writing files is the store's business.

use vstd::prelude::*;

use crate::fmt::{decimal_text, spec_decimal};
use crate::hidpp::text;
use crate::text::{
    is_whitespace,
    ascii_lower, ends_with_ignore_ascii_case, eq_ignore_ascii_case, is_blank, str_ends_with_ignore_ascii_case,
    str_eq_ignore_ascii_case, str_equal, str_is_blank, utf8,
};

verus! {

pub const CONFIG_SCHEMA_VERSION: u32 = 1;
pub const CONFIG_TRANSFER_SCHEMA_VERSION: u32 = 1;
pub const PRODUCTION_DEFAULTS_REVISION: u32 = 1;
pub const CONFIG_FILE_NAME: &'static str = "config.toml";

// ---------------------------------------------------------------------------
// The document
// ---------------------------------------------------------------------------

#[derive(Debug, Clone, PartialEq, Eq)]
pub struct ConfigDocument {
    pub schema_version: u32,
    pub production_defaults_revision: u32,
    pub agent: AgentConfig,
    pub selection: SelectionConfig,
    pub profiles: ProfilesConfig,
    pub applications: Vec<ApplicationProfileConfig>,
    pub shutdown_profile: ProfileConfig,
}

#[derive(Debug, Clone, Copy, PartialEq, Eq, Structural)]
pub struct AgentConfig {
    pub start_with_windows: bool,
    pub developer_logging: bool,
    pub language: UiLanguage,
}

#[derive(Debug, Clone, Copy, PartialEq, Eq, Structural)]
pub enum UiLanguage {
    ZhCn,
    En,
}

impl Default for UiLanguage {
    fn default() -> (language: Self)
        ensures
            language == UiLanguage::ZhCn,
    {
        UiLanguage::ZhCn
    }
}

impl Default for AgentConfig {
    fn default() -> (agent: Self)
        ensures
            agent == (AgentConfig { start_with_windows: true, developer_logging: false, language: UiLanguage::ZhCn }),
    {
        AgentConfig { start_with_windows: true, developer_logging: false, language: UiLanguage::ZhCn }
    }
}

#[derive(Debug, Clone, PartialEq, Eq)]
pub struct SelectionConfig {
    pub mode: SelectionMode,
    pub fixed_application_id: Option<String>,
    pub rules: Vec<SelectionRule>,
}

#[derive(Debug, Clone, Copy, PartialEq, Eq, Structural)]
pub enum SelectionMode {
    Auto,
    Office,
    Cs2,
    Application,
}

#[derive(Debug, Clone, PartialEq, Eq)]
pub struct SelectionRule {
    pub environment: ProfileName,
    pub process_names: Vec<String>,
}

#[derive(Debug, Clone, PartialEq, Eq)]
pub struct ProfilesConfig {
    pub office: ProfileConfig,
    pub cs2: ProfileConfig,
}

#[derive(Debug, Clone, PartialEq, Eq)]
pub struct ProfileConfig {
    pub dpi: u16,
    pub report_rate_hz: u16,
    pub dpi_levels: Vec<u16>,
    pub button_mappings: Vec<ButtonMappingConfig>,
}

#[derive(Debug, Clone, PartialEq, Eq)]
pub struct ApplicationProfileConfig {
    pub id: String,
    pub name: String,
    pub executable_path: String,
    pub process_name: String,
    pub profile: ProfileConfig,
}

/// The part of a configuration that moves between Windows installations.
///
/// How the agent runs, the interface language and starting at logon are
/// preferences of one machine and are deliberately left out.
#[derive(Debug, Clone, PartialEq, Eq)]
pub struct ConfigTransfer {
    pub transfer_schema_version: u32,
    pub selection: SelectionConfig,
    pub profiles: ProfilesConfig,
    pub applications: Vec<ApplicationProfileConfig>,
    pub shutdown_profile: ProfileConfig,
}

#[derive(Debug, Clone, PartialEq, Eq)]
pub struct ButtonMappingConfig {
    pub physical_control: String,
    pub action: ButtonActionConfig,
}

#[derive(Debug, Clone, PartialEq, Eq)]
pub enum ButtonActionConfig {
    LogicalControl { value: String },
    OnboardKeyboard { usage_page: u16, usage: u16, modifiers: u8 },
    OnboardConsumer { usage: u16 },
    Disabled,
}

#[derive(Debug, Clone, Copy, PartialEq, Eq, Structural)]
pub enum ProfileName {
    Office,
    Cs2,
}

// ---------------------------------------------------------------------------
// Views: the same data with texts as character sequences and vectors as sequences
// ---------------------------------------------------------------------------

pub enum ActionView {
    LogicalControl { value: Seq<char> },
    OnboardKeyboard { usage_page: u16, usage: u16, modifiers: u8 },
    OnboardConsumer { usage: u16 },
    Disabled,
}

pub struct MappingView {
    pub physical_control: Seq<char>,
    pub action: ActionView,
}

pub struct ProfileView {
    pub dpi: u16,
    pub report_rate_hz: u16,
    pub dpi_levels: Seq<u16>,
    pub button_mappings: Seq<MappingView>,
}

pub struct ApplicationView {
    pub id: Seq<char>,
    pub name: Seq<char>,
    pub executable_path: Seq<char>,
    pub process_name: Seq<char>,
    pub profile: ProfileView,
}

pub struct RuleView {
    pub environment: ProfileName,
    pub process_names: Seq<Seq<char>>,
}

pub struct SelectionView {
    pub mode: SelectionMode,
    pub fixed_application_id: Option<Seq<char>>,
    pub rules: Seq<RuleView>,
}

pub struct ProfilesView {
    pub office: ProfileView,
    pub cs2: ProfileView,
}

pub struct DocumentView {
    pub schema_version: u32,
    pub production_defaults_revision: u32,
    pub agent: AgentConfig,
    pub selection: SelectionView,
    pub profiles: ProfilesView,
    pub applications: Seq<ApplicationView>,
    pub shutdown_profile: ProfileView,
}

pub struct TransferView {
    pub transfer_schema_version: u32,
    pub selection: SelectionView,
    pub profiles: ProfilesView,
    pub applications: Seq<ApplicationView>,
    pub shutdown_profile: ProfileView,
}

impl View for ButtonActionConfig {
    type V = ActionView;

    open spec fn view(&self) -> ActionView {
        match self {
            ButtonActionConfig::LogicalControl { value } => ActionView::LogicalControl { value: value@ },
            ButtonActionConfig::OnboardKeyboard { usage_page, usage, modifiers } => ActionView::OnboardKeyboard {
                usage_page: *usage_page,
                usage: *usage,
                modifiers: *modifiers,
            },
            ButtonActionConfig::OnboardConsumer { usage } => ActionView::OnboardConsumer { usage: *usage },
            ButtonActionConfig::Disabled => ActionView::Disabled,
        }
    }
}

impl View for ButtonMappingConfig {
    type V = MappingView;

    open spec fn view(&self) -> MappingView {
        MappingView { physical_control: self.physical_control@, action: self.action@ }
    }
}

pub open spec fn mappings_view(mappings: Seq<ButtonMappingConfig>) -> Seq<MappingView> {
    mappings.map_values(|m: ButtonMappingConfig| m@)
}

impl View for ProfileConfig {
    type V = ProfileView;

    open spec fn view(&self) -> ProfileView {
        ProfileView {
            dpi: self.dpi,
            report_rate_hz: self.report_rate_hz,
            dpi_levels: self.dpi_levels@,
            button_mappings: mappings_view(self.button_mappings@),
        }
    }
}

impl View for ApplicationProfileConfig {
    type V = ApplicationView;

    open spec fn view(&self) -> ApplicationView {
        ApplicationView {
            id: self.id@,
            name: self.name@,
            executable_path: self.executable_path@,
            process_name: self.process_name@,
            profile: self.profile@,
        }
    }
}

pub open spec fn applications_view(applications: Seq<ApplicationProfileConfig>) -> Seq<ApplicationView> {
    applications.map_values(|a: ApplicationProfileConfig| a@)
}

pub open spec fn names_view(names: Seq<String>) -> Seq<Seq<char>> {
    names.map_values(|n: String| n@)
}

impl View for SelectionRule {
    type V = RuleView;

    open spec fn view(&self) -> RuleView {
        RuleView { environment: self.environment, process_names: names_view(self.process_names@) }
    }
}

pub open spec fn option_text_view(text: Option<String>) -> Option<Seq<char>> {
    match text {
        Some(t) => Some(t@),
        None => None,
    }
}

impl View for SelectionConfig {
    type V = SelectionView;

    open spec fn view(&self) -> SelectionView {
        SelectionView {
            mode: self.mode,
            fixed_application_id: option_text_view(self.fixed_application_id),
            rules: self.rules@.map_values(|r: SelectionRule| r@),
        }
    }
}

impl View for ProfilesConfig {
    type V = ProfilesView;

    open spec fn view(&self) -> ProfilesView {
        ProfilesView { office: self.office@, cs2: self.cs2@ }
    }
}

impl View for ConfigDocument {
    type V = DocumentView;

    open spec fn view(&self) -> DocumentView {
        DocumentView {
            schema_version: self.schema_version,
            production_defaults_revision: self.production_defaults_revision,
            agent: self.agent,
            selection: self.selection@,
            profiles: self.profiles@,
            applications: applications_view(self.applications@),
            shutdown_profile: self.shutdown_profile@,
        }
    }
}

impl View for ConfigTransfer {
    type V = TransferView;

    open spec fn view(&self) -> TransferView {
        TransferView {
            transfer_schema_version: self.transfer_schema_version,
            selection: self.selection@,
            profiles: self.profiles@,
            applications: applications_view(self.applications@),
            shutdown_profile: self.shutdown_profile@,
        }
    }
}

// ---------------------------------------------------------------------------
// Errors
// ---------------------------------------------------------------------------

/// A configuration failure. File-system failures carry the path and the system's
/// message as text.
#[derive(Debug, Clone, PartialEq, Eq)]
pub enum ConfigError {
    MissingAppData,
    UnsupportedSchema { found: u32 },
    Validation(String),
    Io { path: String, message: String },
    Parse { path: String, message: String },
    Serialize(String),
    RevisionConflict { expected: u64, actual: u64 },
}

pub enum ConfigErrorView {
    MissingAppData,
    UnsupportedSchema { found: u32 },
    Validation(Seq<char>),
    Io { path: Seq<char>, message: Seq<char> },
    Parse { path: Seq<char>, message: Seq<char> },
    Serialize(Seq<char>),
    RevisionConflict { expected: u64, actual: u64 },
}

impl View for ConfigError {
    type V = ConfigErrorView;

    open spec fn view(&self) -> ConfigErrorView {
        match self {
            ConfigError::MissingAppData => ConfigErrorView::MissingAppData,
            ConfigError::UnsupportedSchema { found } => ConfigErrorView::UnsupportedSchema { found: *found },
            ConfigError::Validation(message) => ConfigErrorView::Validation(message@),
            ConfigError::Io { path, message } => ConfigErrorView::Io { path: path@, message: message@ },
            ConfigError::Parse { path, message } => ConfigErrorView::Parse { path: path@, message: message@ },
            ConfigError::Serialize(message) => ConfigErrorView::Serialize(message@),
            ConfigError::RevisionConflict { expected, actual } => ConfigErrorView::RevisionConflict {
                expected: *expected,
                actual: *actual,
            },
        }
    }
}

pub open spec fn dec(n: int) -> Seq<char> {
    spec_decimal(n as nat)
}

/// The user-facing text of a configuration error (its `Display` rendering).
pub open spec fn spec_config_message(e: ConfigErrorView) -> Seq<char> {
    match e {
        ConfigErrorView::MissingAppData => "环境变量 APPDATA 不可用"@,
        ConfigErrorView::UnsupportedSchema { found } => "不支持配置 schema "@ + dec(found as int),
        ConfigErrorView::Validation(message) => "配置校验失败："@ + message,
        ConfigErrorView::Io { path, message } => "配置 I/O 失败 "@ + path + "："@ + message,
        ConfigErrorView::Parse { path, message } => "配置解析失败 "@ + path + "："@ + message,
        ConfigErrorView::Serialize(message) => "配置序列化失败："@ + message,
        ConfigErrorView::RevisionConflict { expected, actual } => "配置修订冲突：提交基于 "@ + dec(expected as int)
            + "，当前修订为 "@ + dec(actual as int),
    }
}

impl ConfigError {
    /// The user-facing rendering of the error.
    pub fn message(&self) -> (m: String)
        ensures
            m@ == spec_config_message(self@),
    {
        match self {
            ConfigError::MissingAppData => text("环境变量 APPDATA 不可用"),
            ConfigError::UnsupportedSchema { found } => {
                let mut m = text("不支持配置 schema ");
                m.append(decimal_text(*found as u64).as_str());
                m
            },
            ConfigError::Validation(message) => {
                let mut m = text("配置校验失败：");
                m.append(message.as_str());
                m
            },
            ConfigError::Io { path, message } => {
                let mut m = text("配置 I/O 失败 ");
                m.append(path.as_str());
                m.append("：");
                m.append(message.as_str());
                m
            },
            ConfigError::Parse { path, message } => {
                let mut m = text("配置解析失败 ");
                m.append(path.as_str());
                m.append("：");
                m.append(message.as_str());
                m
            },
            ConfigError::Serialize(message) => {
                let mut m = text("配置序列化失败：");
                m.append(message.as_str());
                m
            },
            ConfigError::RevisionConflict { expected, actual } => {
                let mut m = text("配置修订冲突：提交基于 ");
                m.append(decimal_text(*expected).as_str());
                m.append("，当前修订为 ");
                m.append(decimal_text(*actual).as_str());
                m
            },
        }
    }
}

fn validation(message: String) -> (e: ConfigError)
    ensures
        e@ == ConfigErrorView::Validation(message@),
{
    ConfigError::Validation(message)
}

// ---------------------------------------------------------------------------
// Copies
// ---------------------------------------------------------------------------

impl ButtonActionConfig {
    pub fn copy(&self) -> (r: Self)
        ensures
            r@ == self@,
    {
        match self {
            ButtonActionConfig::LogicalControl { value } => ButtonActionConfig::LogicalControl { value: value.clone() },
            ButtonActionConfig::OnboardKeyboard { usage_page, usage, modifiers } => ButtonActionConfig::OnboardKeyboard {
                usage_page: *usage_page,
                usage: *usage,
                modifiers: *modifiers,
            },
            ButtonActionConfig::OnboardConsumer { usage } => ButtonActionConfig::OnboardConsumer { usage: *usage },
            ButtonActionConfig::Disabled => ButtonActionConfig::Disabled,
        }
    }
}

impl ButtonMappingConfig {
    pub fn copy(&self) -> (r: Self)
        ensures
            r@ == self@,
    {
        ButtonMappingConfig { physical_control: self.physical_control.clone(), action: self.action.copy() }
    }
}

fn copy_levels(levels: &Vec<u16>) -> (r: Vec<u16>)
    ensures
        r@ == levels@,
{
    let mut r: Vec<u16> = Vec::new();
    let mut i: usize = 0;
    while i < levels.len()
        invariant
            i <= levels@.len(),
            r@ == levels@.subrange(0, i as int),
        decreases levels.len() - i,
    {
        r.push(levels[i]);
        i = i + 1;
        assert(r@ =~= levels@.subrange(0, i as int));
    }
    assert(levels@.subrange(0, levels@.len() as int) =~= levels@);
    r
}

fn copy_mappings(mappings: &Vec<ButtonMappingConfig>) -> (r: Vec<ButtonMappingConfig>)
    ensures
        mappings_view(r@) == mappings_view(mappings@),
{
    let mut r: Vec<ButtonMappingConfig> = Vec::new();
    let mut i: usize = 0;
    while i < mappings.len()
        invariant
            i <= mappings@.len(),
            r@.len() == i,
            forall|j: int| 0 <= j < i ==> (#[trigger] r@[j])@ == mappings@[j]@,
        decreases mappings.len() - i,
    {
        r.push(mappings[i].copy());
        i = i + 1;
    }
    assert(mappings_view(r@) =~= mappings_view(mappings@));
    r
}

impl ProfileConfig {
    pub fn copy(&self) -> (r: Self)
        ensures
            r@ == self@,
    {
        ProfileConfig {
            dpi: self.dpi,
            report_rate_hz: self.report_rate_hz,
            dpi_levels: copy_levels(&self.dpi_levels),
            button_mappings: copy_mappings(&self.button_mappings),
        }
    }
}

impl ApplicationProfileConfig {
    pub fn copy(&self) -> (r: Self)
        ensures
            r@ == self@,
    {
        ApplicationProfileConfig {
            id: self.id.clone(),
            name: self.name.clone(),
            executable_path: self.executable_path.clone(),
            process_name: self.process_name.clone(),
            profile: self.profile.copy(),
        }
    }
}

fn copy_applications(applications: &Vec<ApplicationProfileConfig>) -> (r: Vec<ApplicationProfileConfig>)
    ensures
        applications_view(r@) == applications_view(applications@),
{
    let mut r: Vec<ApplicationProfileConfig> = Vec::new();
    let mut i: usize = 0;
    while i < applications.len()
        invariant
            i <= applications@.len(),
            r@.len() == i,
            forall|j: int| 0 <= j < i ==> (#[trigger] r@[j])@ == applications@[j]@,
        decreases applications.len() - i,
    {
        r.push(applications[i].copy());
        i = i + 1;
    }
    assert(applications_view(r@) =~= applications_view(applications@));
    r
}

pub(crate) fn copy_names(names: &Vec<String>) -> (r: Vec<String>)
    ensures
        names_view(r@) == names_view(names@),
{
    let mut r: Vec<String> = Vec::new();
    let mut i: usize = 0;
    while i < names.len()
        invariant
            i <= names@.len(),
            r@.len() == i,
            forall|j: int| 0 <= j < i ==> (#[trigger] r@[j])@ == names@[j]@,
        decreases names.len() - i,
    {
        r.push(names[i].clone());
        i = i + 1;
    }
    assert(names_view(r@) =~= names_view(names@));
    r
}

impl SelectionRule {
    pub fn copy(&self) -> (r: Self)
        ensures
            r@ == self@,
    {
        SelectionRule { environment: self.environment, process_names: copy_names(&self.process_names) }
    }
}

impl SelectionConfig {
    pub fn copy(&self) -> (r: Self)
        ensures
            r@ == self@,
    {
        let fixed_application_id = match &self.fixed_application_id {
            Some(id) => Some(id.clone()),
            None => None,
        };
        let mut rules: Vec<SelectionRule> = Vec::new();
        let mut i: usize = 0;
        while i < self.rules.len()
            invariant
                i <= self.rules@.len(),
                rules@.len() == i,
                forall|j: int| 0 <= j < i ==> (#[trigger] rules@[j])@ == self.rules@[j]@,
            decreases self.rules.len() - i,
        {
            rules.push(self.rules[i].copy());
            i = i + 1;
        }
        let r = SelectionConfig { mode: self.mode, fixed_application_id, rules };
        assert(r@.rules =~= self@.rules);
        r
    }
}

impl ConfigDocument {
    pub fn copy(&self) -> (r: Self)
        ensures
            r@ == self@,
    {
        ConfigDocument {
            schema_version: self.schema_version,
            production_defaults_revision: self.production_defaults_revision,
            agent: self.agent,
            selection: self.selection.copy(),
            profiles: self.profiles.copy(),
            applications: copy_applications(&self.applications),
            shutdown_profile: self.shutdown_profile.copy(),
        }
    }
}

impl ProfilesConfig {
    pub fn copy(&self) -> (r: Self)
        ensures
            r@ == self@,
    {
        ProfilesConfig { office: self.office.copy(), cs2: self.cs2.copy() }
    }
}

// ---------------------------------------------------------------------------
// Defaults
// ---------------------------------------------------------------------------

pub open spec fn logical_view(value: Seq<char>) -> ActionView {
    ActionView::LogicalControl { value }
}

pub open spec fn mapping_view(control: Seq<char>, action: Seq<char>) -> MappingView {
    MappingView { physical_control: control, action: logical_view(action) }
}

/// The six G102 controls bound to what they do out of the box.
pub open spec fn spec_office_button_mappings() -> Seq<MappingView> {
    seq![
        mapping_view("g102:left"@, "mouse:left"@),
        mapping_view("g102:right"@, "mouse:right"@),
        mapping_view("g102:middle"@, "mouse:middle"@),
        mapping_view("g102:side_back"@, "mouse:back"@),
        mapping_view("g102:side_forward"@, "mouse:forward"@),
        mapping_view("g102:dpi"@, "mouse:dpi_cycle"@),
    ]
}

pub open spec fn spec_default_dpi_levels() -> Seq<u16> {
    seq![800u16, 1600u16, 2400u16, 3200u16]
}

/// The profile every environment starts with: 1600 DPI, 1000 Hz, the default DPI
/// cycle and the original button functions.
pub open spec fn spec_default_profile() -> ProfileView {
    ProfileView {
        dpi: 1600,
        report_rate_hz: 1000,
        dpi_levels: spec_default_dpi_levels(),
        button_mappings: spec_office_button_mappings(),
    }
}

pub open spec fn spec_default_selection() -> SelectionView {
    SelectionView {
        mode: SelectionMode::Auto,
        fixed_application_id: None,
        rules: seq![RuleView { environment: ProfileName::Cs2, process_names: seq!["cs2.exe"@] }],
    }
}

pub open spec fn spec_default_document() -> DocumentView {
    DocumentView {
        schema_version: CONFIG_SCHEMA_VERSION,
        production_defaults_revision: PRODUCTION_DEFAULTS_REVISION,
        agent: AgentConfig { start_with_windows: true, developer_logging: false, language: UiLanguage::ZhCn },
        selection: spec_default_selection(),
        profiles: ProfilesView { office: spec_default_profile(), cs2: spec_default_profile() },
        applications: Seq::empty(),
        shutdown_profile: spec_default_profile(),
    }
}

pub fn logical(value: &str) -> (action: ButtonActionConfig)
    ensures
        action@ == logical_view(value@),
{
    ButtonActionConfig::LogicalControl { value: text(value) }
}

fn binding(control: &str, action: &str) -> (mapping: ButtonMappingConfig)
    ensures
        mapping@ == mapping_view(control@, action@),
{
    ButtonMappingConfig { physical_control: text(control), action: logical(action) }
}

pub fn office_button_mappings() -> (mappings: Vec<ButtonMappingConfig>)
    ensures
        mappings_view(mappings@) == spec_office_button_mappings(),
{
    let mut mappings: Vec<ButtonMappingConfig> = Vec::new();
    mappings.push(binding("g102:left", "mouse:left"));
    mappings.push(binding("g102:right", "mouse:right"));
    mappings.push(binding("g102:middle", "mouse:middle"));
    mappings.push(binding("g102:side_back", "mouse:back"));
    mappings.push(binding("g102:side_forward", "mouse:forward"));
    mappings.push(binding("g102:dpi", "mouse:dpi_cycle"));
    assert(mappings_view(mappings@) =~= spec_office_button_mappings());
    mappings
}

pub fn default_dpi_levels() -> (levels: Vec<u16>)
    ensures
        levels@ == spec_default_dpi_levels(),
{
    let mut levels: Vec<u16> = Vec::new();
    levels.push(800);
    levels.push(1600);
    levels.push(2400);
    levels.push(3200);
    assert(levels@ =~= spec_default_dpi_levels());
    levels
}

pub fn default_report_rate_hz() -> (rate: u16)
    ensures
        rate == 1000,
{
    1000
}

pub fn default_shutdown_profile() -> (profile: ProfileConfig)
    ensures
        profile@ == spec_default_profile(),
{
    ProfileConfig {
        dpi: 1600,
        report_rate_hz: default_report_rate_hz(),
        dpi_levels: default_dpi_levels(),
        button_mappings: office_button_mappings(),
    }
}

fn default_selection() -> (selection: SelectionConfig)
    ensures
        selection@ == spec_default_selection(),
{
    let mut process_names: Vec<String> = Vec::new();
    process_names.push(text("cs2.exe"));
    let mut rules: Vec<SelectionRule> = Vec::new();
    rules.push(SelectionRule { environment: ProfileName::Cs2, process_names });
    let selection = SelectionConfig { mode: SelectionMode::Auto, fixed_application_id: None, rules };
    assert(selection@.rules[0].process_names =~= seq!["cs2.exe"@]);
    assert(selection@.rules =~= spec_default_selection().rules);
    selection
}

proof fn lemma_default_profile_is_valid(name: Seq<char>)
    ensures
        profile_error(name, spec_default_profile()) is None,
{
    let p = spec_default_profile();
    let ms = p.button_mappings;
    reveal_strlit("g102:left");
    reveal_strlit("g102:right");
    reveal_strlit("g102:middle");
    reveal_strlit("g102:side_back");
    reveal_strlit("g102:side_forward");
    reveal_strlit("g102:dpi");
    reveal_strlit("mouse:left");
    reveal_strlit("mouse:right");
    reveal_strlit("mouse:middle");
    reveal_strlit("mouse:back");
    reveal_strlit("mouse:forward");
    reveal_strlit("mouse:dpi_cycle");
    assert(!p.dpi_levels.contains(0u16)) by {
        assert forall|i: int| 0 <= i < p.dpi_levels.len() implies p.dpi_levels[i] != 0u16 by {}
    }
    assert(levels_ok(p.dpi_levels));
    assert(binds_at(ms[5], "g102:dpi"@, "mouse:dpi_cycle"@));
    assert(p.dpi_levels[1] == p.dpi);
    assert(binds_at(ms[0], "g102:left"@, "mouse:left"@));
    assert(binds_at(ms[1], "g102:right"@, "mouse:right"@));
    assert forall|i: int| 0 <= i < 6 implies mapping_error(name, ms, i) is None by {
        assert(ms[i].physical_control[0] == 'g');
        assert(!is_whitespace(ms[i].physical_control[0]));
        assert(!is_blank(ms[i].physical_control));
        assert forall|j: int| 0 <= j < i implies (#[trigger] ms[j]).physical_control != ms[i].physical_control by {
            if ms[j].physical_control.len() == ms[i].physical_control.len() {
                assert(ms[j].physical_control[5] != ms[i].physical_control[5] || ms[j].physical_control[10]
                    != ms[i].physical_control[10]);
            }
        }
        assert(!control_taken(ms, i));
        match ms[i].action {
            ActionView::LogicalControl { value } => {
                assert(value[0] == 'm');
                assert(!is_whitespace(value[0]));
            },
            _ => {},
        }
    }
    assert(mappings_error(name, ms, 6) is None);
    assert(mappings_error(name, ms, 5) is None);
    assert(mappings_error(name, ms, 4) is None);
    assert(mappings_error(name, ms, 3) is None);
    assert(mappings_error(name, ms, 2) is None);
    assert(mappings_error(name, ms, 1) is None);
    assert(mappings_error(name, ms, 0) is None);
}

/// The configuration a first run starts with passes validation.
proof fn lemma_default_document_is_valid()
    ensures
        spec_validate(spec_default_document()) is Ok,
{
    let doc = spec_default_document();
    lemma_default_profile_is_valid("office"@);
    lemma_default_profile_is_valid("cs2"@);
    lemma_default_profile_is_valid("shutdown"@);
    reveal_strlit("cs2.exe");
    reveal_strlit(".exe");
    let name = "cs2.exe"@;
    assert(vstd::utf8::is_ascii_chars(name));
    assert(vstd::utf8::is_ascii_chars(".exe"@));
    vstd::utf8::is_ascii_chars_encode_utf8(name);
    vstd::utf8::is_ascii_chars_encode_utf8(".exe"@);
    assert(name[0] == 'c');
    assert(!is_blank(name)) by {
        assert(!is_whitespace(name[0]));
    }
    let bytes = utf8(name);
    let suffix = utf8(".exe"@);
    assert(bytes.subrange(3, 7) =~= suffix);
    assert(exe_name(name));
    assert(rule_ok(doc.selection.rules[0]));
    assert(rules_error(doc.selection) is None);
    assert(applications_error(doc.applications, 0) is None);
}

impl Default for ConfigDocument {
    fn default() -> (document: Self)
        ensures
            document@ == spec_default_document(),
            spec_validate(document@) is Ok,
    {
        proof {
            lemma_default_document_is_valid();
        }
        let document = ConfigDocument {
            schema_version: CONFIG_SCHEMA_VERSION,
            production_defaults_revision: PRODUCTION_DEFAULTS_REVISION,
            agent: AgentConfig { start_with_windows: true, developer_logging: false, language: UiLanguage::ZhCn },
            selection: default_selection(),
            profiles: ProfilesConfig { office: default_shutdown_profile(), cs2: default_shutdown_profile() },
            applications: Vec::new(),
            shutdown_profile: default_shutdown_profile(),
        };
        assert(document@.applications =~= Seq::<ApplicationView>::empty());
        document
    }
}

// ---------------------------------------------------------------------------
// Validation
// ---------------------------------------------------------------------------

/// The mapping binds `control` to the logical action `action`.
pub open spec fn binds_at(m: MappingView, control: Seq<char>, action: Seq<char>) -> bool {
    m.physical_control == control && match m.action {
        ActionView::LogicalControl { value } => value == action,
        _ => false,
    }
}

/// Some mapping of the profile binds `control` to `action`.
pub open spec fn binds(p: ProfileView, control: Seq<char>, action: Seq<char>) -> bool {
    exists|i: int| 0 <= i < p.button_mappings.len() && #[trigger] binds_at(p.button_mappings[i], control, action)
}

/// The DPI button still cycles through the DPI levels.
pub open spec fn uses_dpi_cycle(p: ProfileView) -> bool {
    binds(p, "g102:dpi"@, "mouse:dpi_cycle"@)
}

/// Four strictly increasing positive levels.
pub open spec fn levels_ok(levels: Seq<u16>) -> bool {
    &&& levels.len() == 4
    &&& !levels.contains(0u16)
    &&& levels[0] < levels[1]
    &&& levels[1] < levels[2]
    &&& levels[2] < levels[3]
}

/// The report rates the G102 offers.
pub open spec fn rate_ok(rate: u16) -> bool {
    rate == 1000 || rate == 500 || rate == 250 || rate == 125
}

/// An earlier mapping already uses mapping `i`'s physical control.
pub open spec fn control_taken(ms: Seq<MappingView>, i: int) -> bool {
    exists|j: int| 0 <= j < i && (#[trigger] ms[j]).physical_control == ms[i].physical_control
}

/// What is wrong with mapping `i` of profile `name`, if anything.
pub open spec fn mapping_error(name: Seq<char>, ms: Seq<MappingView>, i: int) -> Option<Seq<char>> {
    let m = ms[i];
    if is_blank(m.physical_control) || control_taken(ms, i) {
        Some(name + " 包含空或重复的 physical_control"@)
    } else {
        match m.action {
            ActionView::LogicalControl { value } => if is_blank(value) {
                Some(name + " 包含空 logical_control"@)
            } else {
                None
            },
            ActionView::OnboardKeyboard { usage_page, usage, .. } => if usage_page != 0x07 || usage == 0
                || usage > 0xe7 {
                Some(name + " 包含无效 Keyboard HID Usage"@)
            } else {
                None
            },
            _ => None,
        }
    }
}

/// The first problem among mappings `i..`.
pub open spec fn mappings_error(name: Seq<char>, ms: Seq<MappingView>, i: int) -> Option<Seq<char>>
    decreases ms.len() - i,
{
    if i >= ms.len() || i < 0 {
        None
    } else {
        match mapping_error(name, ms, i) {
            Some(e) => Some(e),
            None => mappings_error(name, ms, i + 1),
        }
    }
}

pub open spec fn or_else(first: Option<Seq<char>>, second: Option<Seq<char>>) -> Option<Seq<char>> {
    match first {
        Some(e) => Some(e),
        None => second,
    }
}

pub open spec fn primary_click_error(p: ProfileView, control: Seq<char>, action: Seq<char>, name: Seq<char>) -> Option<
    Seq<char>,
> {
    if binds(p, control, action) {
        None
    } else {
        Some(name + " 必须保留 "@ + control + " 的 "@ + action)
    }
}

/// What is wrong with the profile called `name`, if anything, in the order the
/// rules are checked.
pub open spec fn profile_error(name: Seq<char>, p: ProfileView) -> Option<Seq<char>> {
    if p.dpi == 0 {
        Some(name + " DPI 必须大于 0"@)
    } else if !rate_ok(p.report_rate_hz) {
        Some(name + " 回报率只能是 1000、500、250 或 125 Hz"@)
    } else if !levels_ok(p.dpi_levels) {
        Some(name + " DPI 档位必须包含四个严格递增的正整数"@)
    } else if uses_dpi_cycle(p) && !p.dpi_levels.contains(p.dpi) {
        Some(name + " 当前 DPI 必须属于四个 DPI 切换档位"@)
    } else {
        or_else(
            mappings_error(name, p.button_mappings, 0),
            or_else(
                primary_click_error(p, "g102:left"@, "mouse:left"@, name),
                primary_click_error(p, "g102:right"@, "mouse:right"@, name),
            ),
        )
    }
}

/// The profile keeps the native left and right clicks.
pub open spec fn keeps_primary_clicks(p: ProfileView) -> bool {
    binds(p, "g102:left"@, "mouse:left"@) && binds(p, "g102:right"@, "mouse:right"@)
}

proof fn lemma_valid_profile_keeps_primary_clicks(name: Seq<char>, p: ProfileView)
    requires
        profile_error(name, p) is None,
    ensures
        keeps_primary_clicks(p),
{
}

proof fn lemma_valid_applications_keep_primary_clicks(apps: Seq<ApplicationView>, i: int, k: int)
    requires
        0 <= i <= k < apps.len(),
        applications_error(apps, i) is None,
    ensures
        keeps_primary_clicks(apps[k].profile),
    decreases k - i,
{
    if i < k {
        lemma_valid_applications_keep_primary_clicks(apps, i + 1, k);
    } else {
        lemma_valid_profile_keeps_primary_clicks("application."@ + apps[k].id, apps[k].profile);
    }
}

/// Four positive levels, each below every later one.
pub open spec fn increasing_levels(levels: Seq<u16>) -> bool {
    &&& levels.len() == 4
    &&& forall|i: int, j: int| 0 <= i < j < 4 ==> 0 < #[trigger] levels[i] < #[trigger] levels[j]
}

/// Law: a profile that validates has a positive DPI, a report rate the G102
/// offers, and exactly four positive DPI levels in strictly increasing order; when
/// its DPI button cycles the levels, its DPI is one of them.
pub proof fn lemma_valid_profile_levels_increase(name: Seq<char>, p: ProfileView)
    requires
        profile_error(name, p) is None,
    ensures
        p.dpi > 0,
        p.report_rate_hz == 1000 || p.report_rate_hz == 500 || p.report_rate_hz == 250 || p.report_rate_hz == 125,
        increasing_levels(p.dpi_levels),
        uses_dpi_cycle(p) ==> p.dpi_levels.contains(p.dpi),
{
    assert forall|i: int, j: int| 0 <= i < j < 4 implies 0 < #[trigger] p.dpi_levels[i] < #[trigger] p.dpi_levels[j] by {
        if p.dpi_levels[i] == 0 {
            assert(p.dpi_levels.contains(0u16));
        }
    }
}

proof fn lemma_valid_application_profile(apps: Seq<ApplicationView>, i: int, k: int)
    requires
        0 <= i <= k < apps.len(),
        applications_error(apps, i) is None,
    ensures
        profile_error("application."@ + apps[k].id, apps[k].profile) is None,
    decreases k - i,
{
    if i < k {
        lemma_valid_application_profile(apps, i + 1, k);
    }
}

/// Law: in a valid configuration every profile (Office, CS2, the safe-exit profile
/// and each application profile) has four positive, strictly increasing DPI levels.
pub proof fn lemma_valid_documents_have_increasing_levels(doc: DocumentView)
    requires
        spec_validate(doc) is Ok,
    ensures
        increasing_levels(doc.profiles.office.dpi_levels),
        increasing_levels(doc.profiles.cs2.dpi_levels),
        increasing_levels(doc.shutdown_profile.dpi_levels),
        forall|k: int| 0 <= k < doc.applications.len() ==> increasing_levels(#[trigger] doc.applications[k].profile.dpi_levels),
{
    lemma_valid_profile_levels_increase("office"@, doc.profiles.office);
    lemma_valid_profile_levels_increase("cs2"@, doc.profiles.cs2);
    lemma_valid_profile_levels_increase("shutdown"@, doc.shutdown_profile);
    assert(applications_error(doc.applications, 0) is None);
    assert forall|k: int| 0 <= k < doc.applications.len() implies increasing_levels(
        #[trigger] doc.applications[k].profile.dpi_levels,
    ) by {
        lemma_valid_application_profile(doc.applications, 0, k);
        lemma_valid_profile_levels_increase("application."@ + doc.applications[k].id, doc.applications[k].profile);
    }
}

/// A valid configuration keeps the native left and right clicks on every
/// profile: Office, CS2, the safe-exit profile and every application profile.
pub proof fn lemma_valid_documents_keep_primary_clicks(doc: DocumentView)
    requires
        spec_validate(doc) is Ok,
    ensures
        keeps_primary_clicks(doc.profiles.office),
        keeps_primary_clicks(doc.profiles.cs2),
        keeps_primary_clicks(doc.shutdown_profile),
        forall|k: int| 0 <= k < doc.applications.len() ==> keeps_primary_clicks(#[trigger] doc.applications[k].profile),
{
    lemma_valid_profile_keeps_primary_clicks("office"@, doc.profiles.office);
    lemma_valid_profile_keeps_primary_clicks("cs2"@, doc.profiles.cs2);
    lemma_valid_profile_keeps_primary_clicks("shutdown"@, doc.shutdown_profile);
    assert forall|k: int| 0 <= k < doc.applications.len() implies keeps_primary_clicks(
        #[trigger] doc.applications[k].profile,
    ) by {
        lemma_valid_applications_keep_primary_clicks(doc.applications, 0, k);
    }
}

fn profile_binds(profile: &ProfileConfig, control: &str, action: &str) -> (r: bool)
    ensures
        r == binds(profile@, control@, action@),
{
    let ghost ms = mappings_view(profile.button_mappings@);
    let mut i: usize = 0;
    while i < profile.button_mappings.len()
        invariant
            i <= profile.button_mappings@.len(),
            ms == mappings_view(profile.button_mappings@),
            forall|j: int| 0 <= j < i ==> !#[trigger] binds_at(ms[j], control@, action@),
        decreases profile.button_mappings.len() - i,
    {
        let mapping = &profile.button_mappings[i];
        assert(ms[i as int] == mapping@);
        if str_equal(mapping.physical_control.as_str(), control) {
            match &mapping.action {
                ButtonActionConfig::LogicalControl { value } => {
                    if str_equal(value.as_str(), action) {
                        assert(profile@.button_mappings == ms);
                        assert(binds_at(profile@.button_mappings[i as int], control@, action@));
                        return true;
                    }
                },
                _ => {},
            }
        }
        i = i + 1;
    }
    false
}

/// Whether the profile's DPI button cycles through its DPI levels.
pub fn profile_uses_dpi_cycle(profile: &ProfileConfig) -> (r: bool)
    ensures
        r == uses_dpi_cycle(profile@),
{
    profile_binds(profile, "g102:dpi", "mouse:dpi_cycle")
}

/// Refuses a profile that lost the primary function of `control`.
pub fn require_primary_click(profile: &ProfileConfig, control: &str, action: &str, name: &str) -> (r: Result<
    (),
    ConfigError,
>)
    ensures
        match primary_click_error(profile@, control@, action@, name@) {
            None => r is Ok,
            Some(message) => r is Err && r->Err_0@ == ConfigErrorView::Validation(message),
        },
{
    if profile_binds(profile, control, action) {
        Ok(())
    } else {
        let mut m = text(name);
        m.append(" 必须保留 ");
        m.append(control);
        m.append(" 的 ");
        m.append(action);
        Err(validation(m))
    }
}

fn named(name: &str, message: &str) -> (e: ConfigError)
    ensures
        e@ == ConfigErrorView::Validation(name@ + message@),
{
    let mut m = text(name);
    m.append(message);
    validation(m)
}

fn contains_level(levels: &Vec<u16>, value: u16) -> (r: bool)
    ensures
        r == levels@.contains(value),
{
    let mut i: usize = 0;
    while i < levels.len()
        invariant
            i <= levels@.len(),
            forall|j: int| 0 <= j < i ==> levels@[j] != value,
        decreases levels.len() - i,
    {
        if levels[i] == value {
            assert(levels@[i as int] == value);
            return true;
        }
        i = i + 1;
    }
    false
}

/// Checks one profile: DPI, report rate, DPI levels, the current DPI against the
/// cycle, each button mapping, and that both primary clicks are kept.
#[verifier::loop_isolation(false)]
pub fn validate_profile(name: &str, profile: &ProfileConfig) -> (r: Result<(), ConfigError>)
    ensures
        match profile_error(name@, profile@) {
            None => r is Ok,
            Some(message) => r is Err && r->Err_0@ == ConfigErrorView::Validation(message),
        },
{
    if profile.dpi == 0 {
        return Err(named(name, " DPI 必须大于 0"));
    }
    let rate = profile.report_rate_hz;
    if !(rate == 1000 || rate == 500 || rate == 250 || rate == 125) {
        return Err(named(name, " 回报率只能是 1000、500、250 或 125 Hz"));
    }
    let levels = &profile.dpi_levels;
    if levels.len() != 4 || contains_level(levels, 0) || !(levels[0] < levels[1] && levels[1] < levels[2]
        && levels[2] < levels[3]) {
        return Err(named(name, " DPI 档位必须包含四个严格递增的正整数"));
    }
    if profile_uses_dpi_cycle(profile) && !contains_level(levels, profile.dpi) {
        return Err(named(name, " 当前 DPI 必须属于四个 DPI 切换档位"));
    }
    let ghost ms = mappings_view(profile.button_mappings@);
    let mut i: usize = 0;
    while i < profile.button_mappings.len()
        invariant
            i <= profile.button_mappings@.len(),
            ms == mappings_view(profile.button_mappings@),
            mappings_error(name@, ms, 0) == mappings_error(name@, ms, i as int),
        decreases profile.button_mappings.len() - i,
    {
        let mapping = &profile.button_mappings[i];
        assert(ms[i as int] == mapping@);
        let mut taken = false;
        let mut j: usize = 0;
        while j < i
            invariant
                j <= i < profile.button_mappings@.len(),
                ms == mappings_view(profile.button_mappings@),
                taken == exists|k: int| 0 <= k < j && (#[trigger] ms[k]).physical_control == ms[i as int].physical_control,
            decreases i - j,
        {
            assert(ms[j as int] == profile.button_mappings@[j as int]@);
            if profile.button_mappings[j].physical_control == mapping.physical_control {
                taken = true;
            }
            j = j + 1;
        }
        if str_is_blank(mapping.physical_control.as_str()) || taken {
            assert(mappings_error(name@, ms, i as int) == Some(name@ + " 包含空或重复的 physical_control"@));
            return Err(named(name, " 包含空或重复的 physical_control"));
        }
        match &mapping.action {
            ButtonActionConfig::LogicalControl { value } => {
                if str_is_blank(value.as_str()) {
                    assert(mappings_error(name@, ms, i as int) == Some(name@ + " 包含空 logical_control"@));
                    return Err(named(name, " 包含空 logical_control"));
                }
            },
            ButtonActionConfig::OnboardKeyboard { usage_page, usage, .. } => {
                if *usage_page != 0x07 || *usage == 0 || *usage > 0xe7 {
                    assert(mappings_error(name@, ms, i as int) == Some(name@ + " 包含无效 Keyboard HID Usage"@));
                    return Err(named(name, " 包含无效 Keyboard HID Usage"));
                }
            },
            _ => {},
        }
        assert(mapping_error(name@, ms, i as int) is None);
        i = i + 1;
    }
    require_primary_click(profile, "g102:left", "mouse:left", name)?;
    require_primary_click(profile, "g102:right", "mouse:right", name)?;
    Ok(())
}

/// Bytes an application id may contain: ASCII letters and digits, `-` and `_`.
pub open spec fn id_byte_ok(b: u8) -> bool {
    (0x30 <= b <= 0x39) || (0x41 <= b <= 0x5a) || (0x61 <= b <= 0x7a) || b == 0x2d || b == 0x5f
}

pub open spec fn id_ok(id: Seq<char>) -> bool {
    !is_blank(id) && forall|k: int| 0 <= k < utf8(id).len() ==> id_byte_ok(#[trigger] utf8(id)[k])
}

/// Two texts that are equal after ASCII lower-casing.
pub open spec fn same_text(a: Seq<char>, b: Seq<char>) -> bool {
    eq_ignore_ascii_case(utf8(a), utf8(b))
}

/// A file name that ends with `.exe`, in any ASCII case.
pub open spec fn exe_name(s: Seq<char>) -> bool {
    ends_with_ignore_ascii_case(utf8(s), utf8(".exe"@))
}

pub open spec fn id_taken(apps: Seq<ApplicationView>, i: int) -> bool {
    exists|j: int| 0 <= j < i && same_text((#[trigger] apps[j]).id, apps[i].id)
}

pub open spec fn name_taken(apps: Seq<ApplicationView>, i: int) -> bool {
    exists|j: int| 0 <= j < i && same_text((#[trigger] apps[j]).name, apps[i].name)
}

pub open spec fn process_taken(apps: Seq<ApplicationView>, i: int) -> bool {
    exists|j: int| 0 <= j < i && same_text((#[trigger] apps[j]).process_name, apps[i].process_name)
}

/// What is wrong with application `i`, given the applications before it.
pub open spec fn application_error(apps: Seq<ApplicationView>, i: int) -> Option<Seq<char>> {
    let a = apps[i];
    if !id_ok(a.id) {
        Some("应用环境 id 只能包含字母、数字、连字符和下划线"@)
    } else if id_taken(apps, i) {
        Some("应用环境 id 重复："@ + a.id)
    } else if is_blank(a.name) || is_blank(a.executable_path) {
        Some("应用环境名称和 EXE 路径不能为空"@)
    } else if name_taken(apps, i) {
        Some("应用环境名称重复："@ + a.name)
    } else if !exe_name(a.process_name) {
        Some("应用环境进程名必须以 .exe 结尾："@ + a.process_name)
    } else if process_taken(apps, i) {
        Some("应用环境进程名重复："@ + a.process_name)
    } else {
        profile_error("application."@ + a.id, a.profile)
    }
}

pub open spec fn applications_error(apps: Seq<ApplicationView>, i: int) -> Option<Seq<char>>
    decreases apps.len() - i,
{
    if i >= apps.len() || i < 0 {
        None
    } else {
        match application_error(apps, i) {
            Some(e) => Some(e),
            None => applications_error(apps, i + 1),
        }
    }
}

/// A process rule names at least one process, and each is a non-blank `.exe` name.
pub open spec fn rule_ok(rule: RuleView) -> bool {
    &&& rule.process_names.len() > 0
    &&& forall|k: int|
        0 <= k < rule.process_names.len() ==> !is_blank(#[trigger] rule.process_names[k]) && exe_name(
            rule.process_names[k],
        )
}

pub open spec fn rules_error(sel: SelectionView) -> Option<Seq<char>> {
    if sel.mode == SelectionMode::Auto && sel.rules.len() == 0 {
        Some("auto 模式至少需要一条进程规则"@)
    } else if exists|r: int| 0 <= r < sel.rules.len() && !rule_ok(#[trigger] sel.rules[r]) {
        Some("进程规则必须包含非空的 .exe 文件名"@)
    } else {
        None
    }
}

/// What is wrong with the selection settings, given the applications.
pub open spec fn selection_error(sel: SelectionView, apps: Seq<ApplicationView>) -> Option<Seq<char>> {
    if sel.mode == SelectionMode::Application {
        match sel.fixed_application_id {
            None => Some("固定应用模式缺少应用环境 id"@),
            Some(id) => if !(exists|j: int| 0 <= j < apps.len() && same_text((#[trigger] apps[j]).id, id)) {
                Some("固定应用环境不存在："@ + id)
            } else {
                rules_error(sel)
            },
        }
    } else if sel.fixed_application_id is Some {
        Some("非固定应用模式不能保存 fixed_application_id"@)
    } else {
        rules_error(sel)
    }
}

/// Whether a document is acceptable, and the first rule it breaks otherwise.
pub open spec fn spec_validate(doc: DocumentView) -> Result<(), ConfigErrorView> {
    if doc.schema_version != CONFIG_SCHEMA_VERSION {
        Err(ConfigErrorView::UnsupportedSchema { found: doc.schema_version })
    } else if doc.production_defaults_revision != PRODUCTION_DEFAULTS_REVISION {
        Err(ConfigErrorView::Validation("不支持生产默认配置修订 "@ + dec(doc.production_defaults_revision as int)))
    } else {
        match content_error(doc) {
            Some(message) => Err(ConfigErrorView::Validation(message)),
            None => Ok(()),
        }
    }
}

/// The first problem with the profiles, applications and selection.
pub open spec fn content_error(doc: DocumentView) -> Option<Seq<char>> {
    or_else(
        profile_error("office"@, doc.profiles.office),
        or_else(
            profile_error("cs2"@, doc.profiles.cs2),
            or_else(
                profile_error("shutdown"@, doc.shutdown_profile),
                or_else(applications_error(doc.applications, 0), selection_error(doc.selection, doc.applications)),
            ),
        ),
    )
}

fn id_chars_ok(id: &str) -> (r: bool)
    ensures
        r == forall|k: int| 0 <= k < utf8(id@).len() ==> id_byte_ok(#[trigger] utf8(id@)[k]),
{
    let bytes = id.as_bytes();
    let mut i: usize = 0;
    while i < bytes.len()
        invariant
            bytes@ == utf8(id@),
            i <= bytes@.len(),
            forall|k: int| 0 <= k < i ==> id_byte_ok(#[trigger] bytes@[k]),
        decreases bytes.len() - i,
    {
        let b = bytes[i];
        if !((b >= 0x30 && b <= 0x39) || (b >= 0x41 && b <= 0x5a) || (b >= 0x61 && b <= 0x7a) || b == 0x2d
            || b == 0x5f) {
            assert(!id_byte_ok(bytes@[i as int]));
            return false;
        }
        i = i + 1;
    }
    true
}

fn rule_is_ok(rule: &SelectionRule) -> (r: bool)
    ensures
        r == rule_ok(rule@),
{
    if rule.process_names.len() == 0 {
        return false;
    }
    let ghost names = names_view(rule.process_names@);
    let mut k: usize = 0;
    while k < rule.process_names.len()
        invariant
            k <= rule.process_names@.len(),
            names == names_view(rule.process_names@),
            forall|m: int| 0 <= m < k ==> !is_blank(#[trigger] names[m]) && exe_name(names[m]),
        decreases rule.process_names.len() - k,
    {
        let name = rule.process_names[k].as_str();
        assert(names[k as int] == name@);
        if str_is_blank(name) || !str_ends_with_ignore_ascii_case(name, ".exe") {
            assert(rule@.process_names == names);
            return false;
        }
        k = k + 1;
    }
    assert(rule@.process_names == names);
    true
}

impl ConfigDocument {
    /// Checks the whole document: schema and defaults revision, the three built-in
    /// profiles, every application environment (id, name, path and process name,
    /// each unique ignoring ASCII case, and its profile), the fixed application,
    /// and the process rules.
    #[verifier::loop_isolation(false)]
    pub fn validate(&self) -> (r: Result<(), ConfigError>)
        ensures
            match spec_validate(self@) {
                Ok(()) => r is Ok,
                Err(e) => r is Err && r->Err_0@ == e,
            },
    {
        if self.schema_version != CONFIG_SCHEMA_VERSION {
            return Err(ConfigError::UnsupportedSchema { found: self.schema_version });
        }
        if self.production_defaults_revision != PRODUCTION_DEFAULTS_REVISION {
            let mut m = text("不支持生产默认配置修订 ");
            m.append(decimal_text(self.production_defaults_revision as u64).as_str());
            return Err(validation(m));
        }
        validate_profile("office", &self.profiles.office)?;
        validate_profile("cs2", &self.profiles.cs2)?;
        validate_profile("shutdown", &self.shutdown_profile)?;
        let ghost apps = applications_view(self.applications@);
        assert(self@.applications == apps);
        let mut i: usize = 0;
        while i < self.applications.len()
            invariant
                i <= self.applications@.len(),
                apps == applications_view(self.applications@),
                applications_error(apps, 0) == applications_error(apps, i as int),
            decreases self.applications.len() - i,
        {
            let application = &self.applications[i];
            assert(apps[i as int] == application@);
            let mut id_seen = false;
            let mut name_seen = false;
            let mut process_seen = false;
            let mut j: usize = 0;
            while j < i
                invariant
                    j <= i < self.applications@.len(),
                    apps == applications_view(self.applications@),
                    id_seen == exists|k: int| 0 <= k < j && same_text((#[trigger] apps[k]).id, apps[i as int].id),
                    name_seen == exists|k: int|
                        0 <= k < j && same_text((#[trigger] apps[k]).name, apps[i as int].name),
                    process_seen == exists|k: int|
                        0 <= k < j && same_text((#[trigger] apps[k]).process_name, apps[i as int].process_name),
                decreases i - j,
            {
                let earlier = &self.applications[j];
                assert(apps[j as int] == earlier@);
                if str_eq_ignore_ascii_case(earlier.id.as_str(), application.id.as_str()) {
                    id_seen = true;
                }
                if str_eq_ignore_ascii_case(earlier.name.as_str(), application.name.as_str()) {
                    name_seen = true;
                }
                if str_eq_ignore_ascii_case(earlier.process_name.as_str(), application.process_name.as_str()) {
                    process_seen = true;
                }
                j = j + 1;
            }
            if str_is_blank(application.id.as_str()) || !id_chars_ok(application.id.as_str()) {
                return Err(validation(text("应用环境 id 只能包含字母、数字、连字符和下划线")));
            }
            if id_seen {
                let mut m = text("应用环境 id 重复：");
                m.append(application.id.as_str());
                return Err(validation(m));
            }
            if str_is_blank(application.name.as_str()) || str_is_blank(application.executable_path.as_str()) {
                return Err(validation(text("应用环境名称和 EXE 路径不能为空")));
            }
            if name_seen {
                let mut m = text("应用环境名称重复：");
                m.append(application.name.as_str());
                return Err(validation(m));
            }
            if !str_ends_with_ignore_ascii_case(application.process_name.as_str(), ".exe") {
                let mut m = text("应用环境进程名必须以 .exe 结尾：");
                m.append(application.process_name.as_str());
                return Err(validation(m));
            }
            if process_seen {
                let mut m = text("应用环境进程名重复：");
                m.append(application.process_name.as_str());
                return Err(validation(m));
            }
            let mut profile_name = text("application.");
            profile_name.append(application.id.as_str());
            validate_profile(profile_name.as_str(), &application.profile)?;
            assert(application_error(apps, i as int) is None);
            i = i + 1;
        }
        match self.selection.mode {
            SelectionMode::Application => {
                match &self.selection.fixed_application_id {
                    None => {
                        return Err(validation(text("固定应用模式缺少应用环境 id")));
                    },
                    Some(id) => {
                        let mut found = false;
                        let mut j: usize = 0;
                        while j < self.applications.len()
                            invariant
                                j <= self.applications@.len(),
                                apps == applications_view(self.applications@),
                                found == exists|k: int| 0 <= k < j && same_text((#[trigger] apps[k]).id, id@),
                            decreases self.applications.len() - j,
                        {
                            assert(apps[j as int] == self.applications@[j as int]@);
                            if str_eq_ignore_ascii_case(self.applications[j].id.as_str(), id.as_str()) {
                                found = true;
                            }
                            j = j + 1;
                        }
                        if !found {
                            let mut m = text("固定应用环境不存在：");
                            m.append(id.as_str());
                            return Err(validation(m));
                        }
                    },
                }
            },
            _ => {
                if self.selection.fixed_application_id.is_some() {
                    return Err(validation(text("非固定应用模式不能保存 fixed_application_id")));
                }
            },
        }
        if self.selection.mode == SelectionMode::Auto && self.selection.rules.len() == 0 {
            return Err(validation(text("auto 模式至少需要一条进程规则")));
        }
        let ghost rules = self@.selection.rules;
        let mut r: usize = 0;
        while r < self.selection.rules.len()
            invariant
                r <= self.selection.rules@.len(),
                rules == self@.selection.rules,
                forall|m: int| 0 <= m < r ==> rule_ok(#[trigger] rules[m]),
            decreases self.selection.rules.len() - r,
        {
            assert(rules[r as int] == self.selection.rules@[r as int]@);
            if !rule_is_ok(&self.selection.rules[r]) {
                return Err(validation(text("进程规则必须包含非空的 .exe 文件名")));
            }
            r = r + 1;
        }
        Ok(())
    }
}

// ---------------------------------------------------------------------------
// Transfer between installations
// ---------------------------------------------------------------------------

pub open spec fn spec_export_transfer(doc: DocumentView) -> TransferView {
    TransferView {
        transfer_schema_version: CONFIG_TRANSFER_SCHEMA_VERSION,
        selection: doc.selection,
        profiles: doc.profiles,
        applications: doc.applications,
        shutdown_profile: doc.shutdown_profile,
    }
}

/// The document with its transferable parts replaced; the machine preferences stay.
pub open spec fn with_transfer(doc: DocumentView, transfer: TransferView) -> DocumentView {
    DocumentView {
        schema_version: doc.schema_version,
        production_defaults_revision: doc.production_defaults_revision,
        agent: doc.agent,
        selection: transfer.selection,
        profiles: transfer.profiles,
        applications: transfer.applications,
        shutdown_profile: transfer.shutdown_profile,
    }
}

impl ConfigDocument {
    /// The transferable part of this configuration.
    pub fn export_transfer(&self) -> (transfer: ConfigTransfer)
        ensures
            transfer@ == spec_export_transfer(self@),
    {
        ConfigTransfer {
            transfer_schema_version: CONFIG_TRANSFER_SCHEMA_VERSION,
            selection: self.selection.copy(),
            profiles: self.profiles.copy(),
            applications: copy_applications(&self.applications),
            shutdown_profile: self.shutdown_profile.copy(),
        }
    }

    /// Takes over the transferred selection, profiles, applications and shutdown
    /// profile, keeping this machine's agent preferences, and checks the result. A
    /// transfer of another schema version changes nothing.
    pub fn apply_transfer(&mut self, transfer: ConfigTransfer) -> (r: Result<(), ConfigError>)
        ensures
            transfer.transfer_schema_version != CONFIG_TRANSFER_SCHEMA_VERSION ==> r is Err && r->Err_0@
                == (ConfigErrorView::UnsupportedSchema { found: transfer.transfer_schema_version }) && final(self)@
                == old(self)@,
            transfer.transfer_schema_version == CONFIG_TRANSFER_SCHEMA_VERSION ==> final(self)@ == with_transfer(
                old(self)@,
                transfer@,
            ) && match spec_validate(with_transfer(old(self)@, transfer@)) {
                Ok(()) => r is Ok,
                Err(e) => r is Err && r->Err_0@ == e,
            },
    {
        if transfer.transfer_schema_version != CONFIG_TRANSFER_SCHEMA_VERSION {
            return Err(ConfigError::UnsupportedSchema { found: transfer.transfer_schema_version });
        }
        self.selection = transfer.selection;
        self.profiles = transfer.profiles;
        self.applications = transfer.applications;
        self.shutdown_profile = transfer.shutdown_profile;
        self.validate()
    }
}

impl ConfigTransfer {
    /// Accepts a parsed transfer only when it would make a valid configuration on a
    /// fresh installation.
    pub fn from_parsed(transfer: ConfigTransfer) -> (r: Result<ConfigTransfer, ConfigError>)
        ensures
            transfer.transfer_schema_version != CONFIG_TRANSFER_SCHEMA_VERSION ==> r is Err && r->Err_0@
                == (ConfigErrorView::UnsupportedSchema { found: transfer.transfer_schema_version }),
            transfer.transfer_schema_version == CONFIG_TRANSFER_SCHEMA_VERSION ==> match spec_validate(
                with_transfer(spec_default_document(), transfer@),
            ) {
                Ok(()) => r is Ok && r->Ok_0@ == transfer@,
                Err(e) => r is Err && r->Err_0@ == e,
            },
    {
        if transfer.transfer_schema_version != CONFIG_TRANSFER_SCHEMA_VERSION {
            return Err(ConfigError::UnsupportedSchema { found: transfer.transfer_schema_version });
        }
        let defaults = ConfigDocument::default();
        let document = ConfigDocument {
            schema_version: defaults.schema_version,
            production_defaults_revision: defaults.production_defaults_revision,
            agent: defaults.agent,
            selection: transfer.selection,
            profiles: transfer.profiles,
            applications: transfer.applications,
            shutdown_profile: transfer.shutdown_profile,
        };
        document.validate()?;
        Ok(
            ConfigTransfer {
                transfer_schema_version: transfer.transfer_schema_version,
                selection: document.selection,
                profiles: document.profiles,
                applications: document.applications,
                shutdown_profile: document.shutdown_profile,
            },
        )
    }
}

/// Exporting a configuration and applying the transfer elsewhere reproduces its
/// selection, profiles, applications and shutdown profile on the destination,
/// keeps the destination's agent preferences, and is accepted exactly when the
/// source configuration is valid.
pub proof fn lemma_transfer_round_trip(source: DocumentView, destination: DocumentView)
    requires
        destination.schema_version == CONFIG_SCHEMA_VERSION,
        destination.production_defaults_revision == PRODUCTION_DEFAULTS_REVISION,
        source.schema_version == CONFIG_SCHEMA_VERSION,
        source.production_defaults_revision == PRODUCTION_DEFAULTS_REVISION,
    ensures
        with_transfer(destination, spec_export_transfer(source)).agent == destination.agent,
        with_transfer(destination, spec_export_transfer(source)).profiles == source.profiles,
        with_transfer(destination, spec_export_transfer(source)).applications == source.applications,
        with_transfer(destination, spec_export_transfer(source)).selection == source.selection,
        with_transfer(destination, spec_export_transfer(source)).shutdown_profile == source.shutdown_profile,
        spec_validate(with_transfer(destination, spec_export_transfer(source))) == spec_validate(source),
{
}

// ---------------------------------------------------------------------------
// DPI level normalisation and migration
// ---------------------------------------------------------------------------

pub open spec fn level_distance(level: u16, dpi: u16) -> int {
    if level >= dpi {
        level - dpi
    } else {
        dpi - level
    }
}

/// The first of levels `0..k` closest to `dpi`.
pub open spec fn nearest_level(levels: Seq<u16>, dpi: u16, k: int) -> int
    decreases k,
{
    if k <= 1 {
        0
    } else {
        let best = nearest_level(levels, dpi, k - 1);
        if level_distance(levels[k - 1], dpi) < level_distance(levels[best], dpi) {
            k - 1
        } else {
            best
        }
    }
}

proof fn lemma_nearest_level_in_range(levels: Seq<u16>, dpi: u16, k: int)
    requires
        k >= 1,
    ensures
        0 <= nearest_level(levels, dpi, k) < k,
    decreases k,
{
    if k > 1 {
        lemma_nearest_level_in_range(levels, dpi, k - 1);
    }
}

pub open spec fn level_order() -> spec_fn(u16, u16) -> bool {
    |a: u16, b: u16| a <= b
}

/// A DPI-cycle profile whose DPI is not one of its four levels gets the closest
/// level replaced by its DPI, and the levels sorted again.
pub open spec fn spec_normalize(p: ProfileView) -> ProfileView {
    if !uses_dpi_cycle(p) || p.dpi_levels.len() != 4 || p.dpi_levels.contains(p.dpi) {
        p
    } else {
        ProfileView {
            dpi: p.dpi,
            report_rate_hz: p.report_rate_hz,
            dpi_levels: p.dpi_levels.update(nearest_level(p.dpi_levels, p.dpi, 4), p.dpi).sort_by(level_order()),
            button_mappings: p.button_mappings,
        }
    }
}

proof fn lemma_level_order_total()
    ensures
        vstd::relations::total_ordering(level_order()),
{
    let r = level_order();
    assert(vstd::relations::reflexive(r));
    assert(vstd::relations::antisymmetric(r));
    assert(vstd::relations::transitive(r));
    assert(vstd::relations::strongly_connected(r));
}

fn sort_levels(levels: &Vec<u16>) -> (sorted: Vec<u16>)
    ensures
        sorted@ == levels@.sort_by(level_order()),
{
    let mut sorted: Vec<u16> = Vec::new();
    let mut k: usize = 0;
    assert(sorted@ =~= levels@.subrange(0, 0));
    while k < levels.len()
        invariant
            k <= levels@.len(),
            sorted@.len() == k,
            sorted@.to_multiset() == levels@.subrange(0, k as int).to_multiset(),
            forall|i: int, j: int| 0 <= i < j < sorted@.len() ==> sorted@[i] <= sorted@[j],
        decreases levels.len() - k,
    {
        let item = levels[k];
        let mut p: usize = sorted.len();
        while p > 0 && sorted[p - 1] > item
            invariant
                p <= sorted@.len(),
                forall|j: int| p <= j < sorted@.len() ==> sorted@[j] > item,
            decreases p,
        {
            p = p - 1;
        }
        let ghost before = sorted@;
        sorted.insert(p, item);
        proof {
            vstd::seq_lib::to_multiset_insert(before, p as int, item);
            assert(levels@.subrange(0, (k + 1) as int) =~= levels@.subrange(0, k as int).push(item));
            vstd::seq_lib::to_multiset_build(levels@.subrange(0, k as int), item);
            assert forall|i: int, j: int| 0 <= i < j < sorted@.len() implies sorted@[i] <= sorted@[j] by {
                if j < p {
                } else if j == p {
                    if i < p - 1 {
                        assert(before[i] <= before[p - 1]);
                    }
                } else if i < p {
                    assert(before[i] <= before[j - 1]);
                } else if i == p {
                } else {
                    assert(before[i - 1] <= before[j - 1]);
                }
            }
        }
        k = k + 1;
    }
    proof {
        assert(levels@.subrange(0, levels@.len() as int) =~= levels@);
        lemma_level_order_total();
        levels@.lemma_sort_by_ensures(level_order());
        assert forall|i: int, j: int| 0 <= i < j < sorted@.len() implies #[trigger] level_order()(
            sorted@[i],
            sorted@[j],
        ) by {}
        vstd::seq_lib::lemma_sorted_unique(sorted@, levels@.sort_by(level_order()), level_order());
    }
    sorted
}

/// Keeps a DPI-cycle profile's current DPI among its levels: the level closest to
/// the DPI (the first, on a tie) is replaced by it and the levels sorted again.
pub fn normalize_profile_dpi_levels(profile: &mut ProfileConfig)
    ensures
        final(profile)@ == spec_normalize(old(profile)@),
{
    if !profile_uses_dpi_cycle(profile) || profile.dpi_levels.len() != 4 || contains_level(
        &profile.dpi_levels,
        profile.dpi,
    ) {
        return;
    }
    let dpi = profile.dpi;
    let ghost levels = profile.dpi_levels@;
    let mut nearest: usize = 0;
    let mut k: usize = 1;
    while k < 4
        invariant
            1 <= k <= 4,
            profile.dpi_levels@ == levels,
            levels.len() == 4,
            nearest == nearest_level(levels, dpi, k as int),
            nearest < k,
        decreases 4 - k,
    {
        let level = profile.dpi_levels[k];
        let best = profile.dpi_levels[nearest];
        let distance: u16 = if level >= dpi {
            level - dpi
        } else {
            dpi - level
        };
        let best_distance: u16 = if best >= dpi {
            best - dpi
        } else {
            dpi - best
        };
        if distance < best_distance {
            nearest = k;
        }
        k = k + 1;
    }
    profile.dpi_levels.set(nearest, dpi);
    let sorted = sort_levels(&profile.dpi_levels);
    profile.dpi_levels = sorted;
}

fn normalize_applications(applications: &mut Vec<ApplicationProfileConfig>)
    ensures
        final(applications)@.len() == old(applications)@.len(),
        forall|i: int|
            0 <= i < old(applications)@.len() ==> (#[trigger] final(applications)@[i])@ == (ApplicationView {
                profile: spec_normalize(old(applications)@[i]@.profile),
                ..old(applications)@[i]@
            }),
{
    let ghost original = applications@;
    let mut i: usize = 0;
    while i < applications.len()
        invariant
            i <= applications@.len(),
            applications@.len() == original.len(),
            forall|j: int|
                0 <= j < i ==> (#[trigger] applications@[j])@ == (ApplicationView {
                    profile: spec_normalize(original[j]@.profile),
                    ..original[j]@
                }),
            forall|j: int| i <= j < applications@.len() ==> #[trigger] applications@[j] == original[j],
        decreases applications.len() - i,
    {
        let mut application = applications.remove(i);
        normalize_profile_dpi_levels(&mut application.profile);
        applications.insert(i, application);
        i = i + 1;
    }
}

/// A document older than the current production defaults: everything but the
/// logon and language preferences is reset to the defaults, and developer logging
/// is turned off.
pub open spec fn spec_reset_to_defaults(doc: DocumentView) -> DocumentView {
    if doc.production_defaults_revision < PRODUCTION_DEFAULTS_REVISION {
        DocumentView {
            schema_version: doc.schema_version,
            production_defaults_revision: PRODUCTION_DEFAULTS_REVISION,
            agent: AgentConfig {
                start_with_windows: doc.agent.start_with_windows,
                developer_logging: false,
                language: doc.agent.language,
            },
            selection: spec_default_selection(),
            profiles: spec_default_document().profiles,
            applications: Seq::empty(),
            shutdown_profile: spec_default_profile(),
        }
    } else {
        doc
    }
}

/// The migrated document: reset if it predates the production defaults, with the
/// DPI levels of the built-in and application profiles normalised.
pub open spec fn spec_migrate(doc: DocumentView) -> DocumentView {
    let reset = spec_reset_to_defaults(doc);
    DocumentView {
        profiles: ProfilesView {
            office: spec_normalize(reset.profiles.office),
            cs2: spec_normalize(reset.profiles.cs2),
        },
        applications: reset.applications.map_values(
            |a: ApplicationView| ApplicationView { profile: spec_normalize(a.profile), ..a },
        ),
        ..reset
    }
}

/// Normalising a profile twice gives what normalising it once gives: after a
/// replacement the DPI is among the four levels.
pub proof fn lemma_normalize_idempotent(p: ProfileView)
    ensures
        spec_normalize(spec_normalize(p)) == spec_normalize(p),
{
    if uses_dpi_cycle(p) && p.dpi_levels.len() == 4 && !p.dpi_levels.contains(p.dpi) {
        let n = nearest_level(p.dpi_levels, p.dpi, 4);
        lemma_nearest_level_in_range(p.dpi_levels, p.dpi, 4);
        let replaced = p.dpi_levels.update(n, p.dpi);
        let sorted = replaced.sort_by(level_order());
        lemma_level_order_total();
        replaced.lemma_sort_by_ensures(level_order());
        broadcast use vstd::seq_lib::group_to_multiset_ensures;

        assert(replaced[n] == p.dpi);
        assert(replaced.contains(p.dpi));
        assert(replaced.to_multiset().count(p.dpi) > 0);
        assert(sorted.to_multiset().count(p.dpi) > 0);
        assert(sorted.contains(p.dpi));
        assert(sorted.len() == replaced.len()) by {
            assert(sorted.to_multiset().len() == replaced.to_multiset().len());
        }
    }
}

/// Reading a file migrates it once for good: the migrated document is at the
/// current production defaults, and migrating it again changes nothing.
pub proof fn lemma_migration_is_idempotent(doc: DocumentView)
    ensures
        spec_migrate(doc).production_defaults_revision >= PRODUCTION_DEFAULTS_REVISION,
        spec_migrate(spec_migrate(doc)) == spec_migrate(doc),
{
    let once = spec_migrate(doc);
    let reset = spec_reset_to_defaults(doc);
    lemma_normalize_idempotent(reset.profiles.office);
    lemma_normalize_idempotent(reset.profiles.cs2);
    assert(spec_reset_to_defaults(once) == once);
    let apps = reset.applications;
    let f = |a: ApplicationView| ApplicationView { profile: spec_normalize(a.profile), ..a };
    assert forall|i: int| 0 <= i < apps.len() implies #[trigger] once.applications.map_values(f)[i]
        == once.applications[i] by {
        lemma_normalize_idempotent(apps[i].profile);
    }
    assert(spec_migrate(once).applications =~= once.applications);
    assert(spec_migrate(once).profiles == once.profiles);
}

impl ConfigDocument {
    /// Finishes reading a parsed document: migrates it and checks it. `migrated`
    /// tells whether the file predates the current production defaults and so
    /// should be written back.
    pub fn from_parsed(document: ConfigDocument) -> (r: Result<(ConfigDocument, bool), ConfigError>)
        ensures
            match spec_validate(spec_migrate(document@)) {
                Ok(()) => r matches Ok((migrated, was_reset)) && migrated@ == spec_migrate(document@) && was_reset
                    == (document.production_defaults_revision < PRODUCTION_DEFAULTS_REVISION),
                Err(e) => r is Err && r->Err_0@ == e,
            },
    {
        let mut document = document;
        let ghost parsed = document@;
        let was_reset = document.production_defaults_revision < PRODUCTION_DEFAULTS_REVISION;
        if was_reset {
            let defaults = ConfigDocument::default();
            document.production_defaults_revision = PRODUCTION_DEFAULTS_REVISION;
            document.agent.developer_logging = false;
            document.selection = defaults.selection;
            document.profiles = defaults.profiles;
            document.applications = Vec::new();
            document.shutdown_profile = defaults.shutdown_profile;
            assert(document@.applications =~= Seq::<ApplicationView>::empty());
        }
        assert(document@ == spec_reset_to_defaults(parsed));
        let ghost reset = document@;
        normalize_profile_dpi_levels(&mut document.profiles.office);
        normalize_profile_dpi_levels(&mut document.profiles.cs2);
        normalize_applications(&mut document.applications);
        assert(document@.applications =~= spec_migrate(parsed).applications);
        assert(document@ == spec_migrate(parsed));
        document.validate()?;
        Ok((document, was_reset))
    }
}

// ---------------------------------------------------------------------------
// Loading and saving through a store
// ---------------------------------------------------------------------------

/// Where configuration files live. The application backs it with the file system:
/// it parses what it reads and writes documents atomically, keeping the previous
/// file as the backup.
pub trait ConfigStore {
    /// Whether a file exists at `path`.
    fn file_exists(&self, path: &str) -> bool;

    /// The backup file kept beside `path`.
    fn backup_path(&self, path: &str) -> String;

    /// Reads and parses the document at `path`, before migration and checks.
    fn read(&mut self, path: &str) -> Result<ConfigDocument, ConfigError>;

    /// Replaces the document at `path`, keeping the previous file as its backup.
    fn write(&mut self, path: &str, document: &ConfigDocument) -> Result<(), ConfigError>;
}

/// One exchange with the store, as the library handed it over and as it was answered.
pub enum StoreOp {
    Exists { path: Seq<char>, found: bool },
    BackupPath { path: Seq<char>, backup: Seq<char> },
    Read { path: Seq<char>, answer: Result<DocumentView, ConfigErrorView> },
    Write { path: Seq<char>, document: DocumentView, answer: Result<(), ConfigErrorView> },
}

pub open spec fn document_result(r: Result<ConfigDocument, ConfigError>) -> Result<DocumentView, ConfigErrorView> {
    match r {
        Ok(document) => Ok(document@),
        Err(e) => Err(e@),
    }
}

pub open spec fn unit_result(r: Result<(), ConfigError>) -> Result<(), ConfigErrorView> {
    match r {
        Ok(()) => Ok(()),
        Err(e) => Err(e@),
    }
}

pub open spec fn migration_result(r: Result<(ConfigDocument, bool), ConfigError>) -> Result<
    (DocumentView, bool),
    ConfigErrorView,
> {
    match r {
        Ok((document, migrated)) => Ok((document@, migrated)),
        Err(e) => Err(e@),
    }
}

/// The store a configuration is kept in, with the exchanges the library had with it.
pub struct ConfigFiles<S: ConfigStore> {
    store: S,
    ops: Ghost<Seq<StoreOp>>,
}

impl<S: ConfigStore> ConfigFiles<S> {
    /// Every exchange so far, oldest first.
    pub closed spec fn ops(&self) -> Seq<StoreOp> {
        self.ops@
    }

    pub fn new(store: S) -> (files: Self)
        ensures
            files.ops() == Seq::<StoreOp>::empty(),
    {
        ConfigFiles { store, ops: Ghost(Seq::empty()) }
    }

    pub fn store(&self) -> &S {
        &self.store
    }

    pub fn into_store(self) -> S {
        self.store
    }

    pub fn file_exists(&mut self, path: &str) -> (found: bool)
        ensures
            final(self).ops() == old(self).ops().push(StoreOp::Exists { path: path@, found }),
    {
        let found = self.store.file_exists(path);
        proof {
            self.ops@ = self.ops@.push(StoreOp::Exists { path: path@, found });
        }
        found
    }

    pub fn backup_path(&mut self, path: &str) -> (backup: String)
        ensures
            final(self).ops() == old(self).ops().push(StoreOp::BackupPath { path: path@, backup: backup@ }),
    {
        let backup = self.store.backup_path(path);
        proof {
            self.ops@ = self.ops@.push(StoreOp::BackupPath { path: path@, backup: backup@ });
        }
        backup
    }

    pub fn read(&mut self, path: &str) -> (r: Result<ConfigDocument, ConfigError>)
        ensures
            final(self).ops() == old(self).ops().push(StoreOp::Read { path: path@, answer: document_result(r) }),
    {
        let r = self.store.read(path);
        proof {
            self.ops@ = self.ops@.push(StoreOp::Read { path: path@, answer: document_result(r) });
        }
        r
    }

    pub fn write(&mut self, path: &str, document: &ConfigDocument) -> (r: Result<(), ConfigError>)
        ensures
            final(self).ops() == old(self).ops().push(
                StoreOp::Write { path: path@, document: document@, answer: unit_result(r) },
            ),
    {
        let r = self.store.write(path, document);
        proof {
            self.ops@ = self.ops@.push(StoreOp::Write { path: path@, document: document@, answer: unit_result(r) });
        }
        r
    }
}

/// `after` continues `before`.
pub open spec fn extends<A>(before: Seq<A>, after: Seq<A>) -> bool {
    before.len() <= after.len() && after.subrange(0, before.len() as int) == before
}

/// What `after` added to `before`.
pub open spec fn added<A>(before: Seq<A>, after: Seq<A>) -> Seq<A> {
    after.subrange(before.len() as int, after.len() as int)
}

pub proof fn lemma_added_chain<A>(a: Seq<A>, b: Seq<A>, c: Seq<A>)
    requires
        extends(a, b),
        extends(b, c),
    ensures
        extends(a, c),
        added(a, c) == added(a, b) + added(b, c),
{
    assert forall|i: int| 0 <= i < a.len() implies c[i] == a[i] by {
        assert(c[i] == c.subrange(0, b.len() as int)[i]);
        assert(b[i] == b.subrange(0, a.len() as int)[i]);
    }
    assert(c.subrange(0, a.len() as int) =~= a);
    assert forall|i: int| a.len() <= i < b.len() implies #[trigger] c[i] == b[i] by {
        assert(c[i] == c.subrange(0, b.len() as int)[i]);
    }
    assert(added(a, c) =~= added(a, b) + added(b, c));
}

pub proof fn lemma_added_push<A>(a: Seq<A>, x: A)
    ensures
        extends(a, a.push(x)),
        added(a, a.push(x)) == seq![x],
{
    assert(a.push(x).subrange(0, a.len() as int) =~= a);
    assert(added(a, a.push(x)) =~= seq![x]);
}

/// What a read answer gives once migrated and checked, and whether it was migrated.
pub open spec fn migrated_read(answer: Result<DocumentView, ConfigErrorView>) -> Result<
    (DocumentView, bool),
    ConfigErrorView,
> {
    match answer {
        Err(e) => Err(e),
        Ok(parsed) => match spec_validate(spec_migrate(parsed)) {
            Ok(()) => Ok((spec_migrate(parsed), parsed.production_defaults_revision < PRODUCTION_DEFAULTS_REVISION)),
            Err(e) => Err(e),
        },
    }
}

/// What a read answer gives once migrated and checked.
pub open spec fn loaded(answer: Result<DocumentView, ConfigErrorView>) -> Result<DocumentView, ConfigErrorView> {
    match migrated_read(answer) {
        Ok((document, _)) => Ok(document),
        Err(e) => Err(e),
    }
}

/// `ops` is one read of `at`, which gives `r`.
pub open spec fn single_load(at: Seq<char>, ops: Seq<StoreOp>, r: Result<DocumentView, ConfigErrorView>) -> bool {
    &&& ops.len() == 1
    &&& ops[0] is Read
    &&& ops[0]->Read_path == at
    &&& r == loaded(ops[0]->Read_answer)
}

/// `ops` read `at`, and only when that fails ask for the backup path and read the
/// backup; `r` is the first document that loads, or the combined error.
pub open spec fn backup_load(at: Seq<char>, ops: Seq<StoreOp>, r: Result<DocumentView, ConfigErrorView>) -> bool {
    &&& ops.len() >= 1
    &&& ops[0] is Read
    &&& ops[0]->Read_path == at
    &&& match loaded(ops[0]->Read_answer) {
        Ok(document) => ops.len() == 1 && r == Ok::<DocumentView, ConfigErrorView>(document),
        Err(primary) => {
            &&& ops.len() == 3
            &&& ops[1] is BackupPath
            &&& ops[1]->BackupPath_path == at
            &&& ops[2] is Read
            &&& ops[2]->Read_path == ops[1]->backup
            &&& r == match loaded(ops[2]->Read_answer) {
                Ok(document) => Ok(document),
                Err(backup) => Err(backup_failure(primary, backup)),
            }
        },
    }
}

proof fn lemma_valid_applications_normalized(apps: Seq<ApplicationView>, i: int, k: int)
    requires
        0 <= i <= k < apps.len(),
        applications_error(apps, i) is None,
    ensures
        spec_normalize(apps[k].profile) == apps[k].profile,
    decreases k - i,
{
    if i < k {
        lemma_valid_applications_normalized(apps, i + 1, k);
    }
}

/// A document that a successful save handed to the store loads back unchanged:
/// when the store answers a read with it, loading gives that same document, with
/// nothing to migrate.
pub proof fn lemma_saved_document_loads_back(document: DocumentView)
    requires
        spec_validate(document) is Ok,
    ensures
        migrated_read(Ok(document)) == Ok::<(DocumentView, bool), ConfigErrorView>((document, false)),
        loaded(Ok(document)) == Ok::<DocumentView, ConfigErrorView>(document),
{
    let apps = document.applications;
    let f = |a: ApplicationView| ApplicationView { profile: spec_normalize(a.profile), ..a };
    assert forall|k: int| 0 <= k < apps.len() implies #[trigger] apps.map_values(f)[k] == apps[k] by {
        lemma_valid_applications_normalized(apps, 0, k);
    }
    assert(apps.map_values(f) =~= apps);
    assert(spec_migrate(document) == document);
}

/// What a successful save or commit hands to the store is what a later load gives
/// back, whenever the store answers that load's read with the document it was
/// handed.
pub proof fn lemma_write_then_load(at: Seq<char>, write: StoreOp, load: Seq<StoreOp>, r: Result<DocumentView, ConfigErrorView>)
    requires
        write is Write,
        spec_validate(write->document) is Ok,
        single_load(at, load, r),
        load[0]->Read_answer == Ok::<DocumentView, ConfigErrorView>(write->document),
    ensures
        r == Ok::<DocumentView, ConfigErrorView>(write->document),
{
    lemma_saved_document_loads_back(write->document);
}

/// What a write of `document` gives.
pub open spec fn written(answer: Result<(), ConfigErrorView>, document: DocumentView) -> Result<
    DocumentView,
    ConfigErrorView,
> {
    match answer {
        Ok(()) => Ok(document),
        Err(e) => Err(e),
    }
}

/// `ops` load an existing file at `at`, giving `r`: it is read and migrated, and
/// written back if it predated the defaults; when it cannot be used, the backup
/// load runs.
pub open spec fn existing_load(at: Seq<char>, ops: Seq<StoreOp>, r: Result<DocumentView, ConfigErrorView>) -> bool {
    &&& ops.len() >= 1
    &&& ops[0] is Read
    &&& ops[0]->Read_path == at
    &&& match migrated_read(ops[0]->Read_answer) {
        Ok((document, migrated)) => if migrated {
            &&& ops.len() == 2
            &&& ops[1] is Write
            &&& ops[1]->Write_path == at
            &&& ops[1]->document == document
            &&& r == written(ops[1]->Write_answer, document)
        } else {
            ops.len() == 1 && r == Ok::<DocumentView, ConfigErrorView>(document)
        },
        Err(_) => backup_load(at, ops.subrange(1, ops.len() as int), r),
    }
}

/// `ops` load the configuration at `at` when no file is there, giving `r`: with a
/// backup, the backup load runs; on first run the default document is written.
pub open spec fn missing_load(at: Seq<char>, ops: Seq<StoreOp>, r: Result<DocumentView, ConfigErrorView>) -> bool {
    &&& ops.len() >= 2
    &&& ops[0] is BackupPath
    &&& ops[0]->BackupPath_path == at
    &&& ops[1] is Exists
    &&& ops[1]->Exists_path == ops[0]->backup
    &&& if ops[1]->found {
        backup_load(at, ops.subrange(2, ops.len() as int), r)
    } else {
        &&& ops.len() == 3
        &&& ops[2] is Write
        &&& ops[2]->Write_path == at
        &&& ops[2]->document == spec_default_document()
        &&& r == written(ops[2]->Write_answer, spec_default_document())
    }
}

/// `ops` load the configuration at `at`, giving `r`: they first ask whether the
/// file exists, then load it as it is there or not.
pub open spec fn create_or_load(at: Seq<char>, ops: Seq<StoreOp>, r: Result<DocumentView, ConfigErrorView>) -> bool {
    &&& ops.len() >= 1
    &&& ops[0] is Exists
    &&& ops[0]->Exists_path == at
    &&& if ops[0]->found {
        existing_load(at, ops.subrange(1, ops.len() as int), r)
    } else {
        missing_load(at, ops.subrange(1, ops.len() as int), r)
    }
}

/// Reads, migrates and checks the document at `path`; also tells whether it was
/// migrated from older production defaults.
pub fn load_one_with_migration_status<S: ConfigStore>(store: &mut ConfigFiles<S>, path: &str) -> (r: Result<
    (ConfigDocument, bool),
    ConfigError,
>)
    ensures
        final(store).ops() == old(store).ops().push(final(store).ops().last()),
        final(store).ops().last() is Read,
        final(store).ops().last()->Read_path == path@,
        migration_result(r) == migrated_read(final(store).ops().last()->Read_answer),
{
    let parsed = store.read(path);
    match parsed {
        Ok(document) => ConfigDocument::from_parsed(document),
        Err(e) => Err(e),
    }
}

/// Reads, migrates and checks the document at `path`.
pub fn load_one<S: ConfigStore>(store: &mut ConfigFiles<S>, path: &str) -> (r: Result<ConfigDocument, ConfigError>)
    ensures
        extends(old(store).ops(), final(store).ops()),
        single_load(path@, added(old(store).ops(), final(store).ops()), document_result(r)),
        r matches Ok(document) ==> spec_validate(document@) is Ok,
{
    let ghost before = store.ops();
    let loaded_document = load_one_with_migration_status(store, path);
    proof {
        lemma_added_push(before, store.ops().last());
    }
    match loaded_document {
        Ok((document, _)) => Ok(document),
        Err(e) => Err(e),
    }
}

/// The error when neither the configuration nor its backup can be used.
pub open spec fn backup_failure(primary: ConfigErrorView, backup: ConfigErrorView) -> ConfigErrorView {
    ConfigErrorView::Validation(
        "主配置不可用（"@ + spec_config_message(primary) + "），备份也不可用（"@ + spec_config_message(backup)
            + "）"@,
    )
}

/// Loads the configuration, falling back to its backup when it cannot be used.
pub fn load_with_backup<S: ConfigStore>(store: &mut ConfigFiles<S>, path: &str) -> (r: Result<ConfigDocument, ConfigError>)
    ensures
        extends(old(store).ops(), final(store).ops()),
        backup_load(path@, added(old(store).ops(), final(store).ops()), document_result(r)),
        r matches Ok(document) ==> spec_validate(document@) is Ok,
{
    let ghost before = store.ops();
    let primary = load_one(store, path);
    let ghost after_primary = store.ops();
    match primary {
        Ok(document) => Ok(document),
        Err(primary_error) => {
            let backup = store.backup_path(path);
            let second = load_one(store, backup.as_str());
            let ghost after = store.ops();
            proof {
                let mid = after_primary.push(StoreOp::BackupPath { path: path@, backup: backup@ });
                lemma_added_push(after_primary, StoreOp::BackupPath { path: path@, backup: backup@ });
                lemma_added_chain(before, after_primary, mid);
                lemma_added_chain(before, mid, after);
                assert(added(before, after) =~= added(before, after_primary) + seq![
                    StoreOp::BackupPath { path: path@, backup: backup@ },
                ] + added(mid, after));
            }
            match second {
                Ok(document) => Ok(document),
                Err(backup_error) => {
                    let mut m = text("主配置不可用（");
                    m.append(primary_error.message().as_str());
                    m.append("），备份也不可用（");
                    m.append(backup_error.message().as_str());
                    m.append("）");
                    let e = validation(m);
                    assert(e@ == backup_failure(primary_error@, backup_error@));
                    Err(e)
                },
            }
        },
    }
}

/// Checks a document and hands it to the store to be written; an invalid document
/// reaches no store.
pub fn save_atomic<S: ConfigStore>(store: &mut ConfigFiles<S>, path: &str, document: &ConfigDocument) -> (r: Result<
    (),
    ConfigError,
>)
    ensures
        spec_validate(document@) matches Err(e) ==> r is Err && r->Err_0@ == e && final(store).ops() == old(
            store,
        ).ops(),
        spec_validate(document@) is Ok ==> final(store).ops() == old(store).ops().push(
            StoreOp::Write { path: path@, document: document@, answer: unit_result(r) },
        ),
{
    document.validate()?;
    store.write(path, document)
}

fn load_existing<S: ConfigStore>(store: &mut ConfigFiles<S>, path: &str) -> (r: Result<ConfigDocument, ConfigError>)
    ensures
        extends(old(store).ops(), final(store).ops()),
        existing_load(path@, added(old(store).ops(), final(store).ops()), document_result(r)),
        r matches Ok(document) ==> spec_validate(document@) is Ok,
{
    let ghost before = store.ops();
    match load_one_with_migration_status(store, path) {
        Ok((document, migrated)) => {
            let ghost after_read = store.ops();
            proof {
                lemma_added_push(before, after_read.last());
            }
            if migrated {
                let saved = save_atomic(store, path, &document);
                proof {
                    lemma_added_push(after_read, store.ops().last());
                    lemma_added_chain(before, after_read, store.ops());
                    assert(added(before, store.ops()) =~= seq![after_read.last(), store.ops().last()]);
                }
                match saved {
                    Ok(()) => return Ok(document),
                    Err(e) => return Err(e),
                }
            }
            Ok(document)
        },
        Err(_) => {
            let ghost after_read = store.ops();
            let fallback = load_with_backup(store, path);
            proof {
                lemma_added_push(before, after_read.last());
                lemma_added_chain(before, after_read, store.ops());
                let ops = added(before, store.ops());
                assert(ops.subrange(1, ops.len() as int) =~= added(after_read, store.ops()));
            }
            fallback
        },
    }
}

fn load_missing<S: ConfigStore>(store: &mut ConfigFiles<S>, path: &str) -> (r: Result<ConfigDocument, ConfigError>)
    ensures
        extends(old(store).ops(), final(store).ops()),
        missing_load(path@, added(old(store).ops(), final(store).ops()), document_result(r)),
        r matches Ok(document) ==> spec_validate(document@) is Ok,
{
    let ghost before = store.ops();
    let backup = store.backup_path(path);
    let ghost after_backup = store.ops();
    let found = store.file_exists(backup.as_str());
    let ghost after_check = store.ops();
    proof {
        lemma_added_push(before, after_backup.last());
        lemma_added_push(after_backup, after_check.last());
        lemma_added_chain(before, after_backup, after_check);
        assert(added(before, after_check) =~= seq![after_backup.last(), after_check.last()]);
    }
    if found {
        let fallback = load_with_backup(store, path);
        proof {
            lemma_added_chain(before, after_check, store.ops());
            let ops = added(before, store.ops());
            assert(ops.subrange(2, ops.len() as int) =~= added(after_check, store.ops()));
        }
        return fallback;
    }
    let document = ConfigDocument::default();
    let saved = save_atomic(store, path, &document);
    proof {
        lemma_added_push(after_check, store.ops().last());
        lemma_added_chain(before, after_check, store.ops());
        assert(added(before, store.ops()) =~= added(before, after_check).push(store.ops().last()));
    }
    match saved {
        Ok(()) => Ok(document),
        Err(e) => Err(e),
    }
}

/// Loads the configuration, writing back a migrated one; uses the backup when the
/// file cannot be used; and creates the default configuration on first run.
pub fn load_or_create_default<S: ConfigStore>(store: &mut ConfigFiles<S>, path: &str) -> (r: Result<
    ConfigDocument,
    ConfigError,
>)
    ensures
        extends(old(store).ops(), final(store).ops()),
        create_or_load(path@, added(old(store).ops(), final(store).ops()), document_result(r)),
        r matches Ok(document) ==> spec_validate(document@) is Ok,
{
    let ghost before = store.ops();
    let exists = store.file_exists(path);
    let ghost after_exists = store.ops();
    let r = if exists {
        load_existing(store, path)
    } else {
        load_missing(store, path)
    };
    proof {
        lemma_added_push(before, after_exists.last());
        lemma_added_chain(before, after_exists, store.ops());
        let ops = added(before, store.ops());
        assert(ops.subrange(1, ops.len() as int) =~= added(after_exists, store.ops()));
    }
    r
}

// ---------------------------------------------------------------------------
// The revisioned repository
// ---------------------------------------------------------------------------

/// The configuration in use, its file, and a revision that counts accepted commits.
#[derive(Debug)]
pub struct ConfigRepository {
    path: String,
    document: ConfigDocument,
    revision: u64,
}

impl ConfigRepository {
    /// The document in the repository is always valid and revisions start at 1.
    #[verifier::type_invariant]
    closed spec fn well_formed(self) -> bool {
        spec_validate(self.document@) is Ok && self.revision >= 1
    }

    pub closed spec fn document_view(self) -> DocumentView {
        self.document@
    }

    pub closed spec fn revision_value(self) -> u64 {
        self.revision
    }

    pub closed spec fn path_view(self) -> Seq<char> {
        self.path@
    }

    /// Opens the configuration at `path` (created with the defaults on first run).
    pub fn open<S: ConfigStore>(store: &mut ConfigFiles<S>, path: &str) -> (r: Result<Self, ConfigError>)
        ensures
            extends(old(store).ops(), final(store).ops()),
            create_or_load(
                path@,
                added(old(store).ops(), final(store).ops()),
                match r {
                    Ok(repository) => Ok(repository.document_view()),
                    Err(e) => Err(e@),
                },
            ),
            r matches Ok(repository) ==> repository.revision_value() == 1 && repository.path_view() == path@
                && spec_validate(repository.document_view()) is Ok,
    {
        let document = load_or_create_default(store, path)?;
        Ok(ConfigRepository { path: text(path), document, revision: 1 })
    }

    /// A repository over a document that is already in hand, after checking it.
    pub fn from_document(path: &str, document: ConfigDocument) -> (r: Result<Self, ConfigError>)
        ensures
            match spec_validate(document@) {
                Ok(()) => r matches Ok(repository) && repository.revision_value() == 1 && repository.document_view()
                    == document@ && repository.path_view() == path@,
                Err(e) => r is Err && r->Err_0@ == e,
            },
    {
        document.validate()?;
        Ok(ConfigRepository { path: text(path), document, revision: 1 })
    }

    pub fn document(&self) -> (document: &ConfigDocument)
        ensures
            document@ == self.document_view(),
            spec_validate(document@) is Ok,
    {
        proof {
            use_type_invariant(self);
        }
        &self.document
    }

    pub fn revision(&self) -> (revision: u64)
        ensures
            revision == self.revision_value(),
            revision >= 1,
    {
        proof {
            use_type_invariant(self);
        }
        self.revision
    }

    /// Accepts a decoded draft only when it is a valid document. `draft` is the
    /// outcome of decoding the JSON draft: the document, or the decoder's message.
    pub fn validate_draft(&self, draft: Result<ConfigDocument, String>) -> (r: Result<ConfigDocument, ConfigError>)
        ensures
            draft_outcome(draft, r),
    {
        match draft {
            Err(message) => {
                let mut m = text("JSON 草稿格式无效：");
                m.append(message.as_str());
                Err(validation(m))
            },
            Ok(document) => {
                document.validate()?;
                Ok(document)
            },
        }
    }

    /// Commits a draft made against `base_revision`: a stale base, an invalid draft
    /// or a failed write leave the repository unchanged; otherwise the draft is
    /// written, becomes the document, and the revision advances by one.
    pub fn commit<S: ConfigStore>(
        &mut self,
        store: &mut ConfigFiles<S>,
        base_revision: u64,
        draft: Result<ConfigDocument, String>,
    ) -> (r: Result<u64, ConfigError>)
        ensures
            !commit_reaches_store(old(self).revision_value(), base_revision, draft) ==> final(store).ops() == old(
                store,
            ).ops(),
            commit_reaches_store(old(self).revision_value(), base_revision, draft) ==> final(store).ops() == old(
                store,
            ).ops().push(
                StoreOp::Write {
                    path: old(self).path_view(),
                    document: draft->Ok_0@,
                    answer: unit_result(
                        match r {
                            Ok(_) => Ok(()),
                            Err(e) => Err(e),
                        },
                    ),
                },
            ),
            base_revision == old(self).revision_value() && base_revision == u64::MAX && draft is Ok && spec_validate(
                draft->Ok_0@,
            ) is Ok ==> r is Err && r->Err_0@ == ConfigErrorView::Validation("配置修订号溢出"@),
            base_revision != old(self).revision_value() ==> r is Err && r->Err_0@ == (ConfigErrorView::RevisionConflict {
                expected: base_revision,
                actual: old(self).revision_value(),
            }),
            base_revision == old(self).revision_value() && draft is Err ==> r is Err && r->Err_0@
                == ConfigErrorView::Validation("JSON 草稿格式无效："@ + draft->Err_0@),
            base_revision == old(self).revision_value() && draft is Ok && spec_validate(draft->Ok_0@) is Err ==> r is Err
                && r->Err_0@ == spec_validate(draft->Ok_0@)->Err_0,
            r is Err ==> final(self).document_view() == old(self).document_view() && final(self).revision_value()
                == old(self).revision_value() && final(self).path_view() == old(self).path_view(),
            r matches Ok(revision) ==> {
                &&& base_revision == old(self).revision_value()
                &&& revision == old(self).revision_value() + 1
                &&& final(self).revision_value() == revision
                &&& draft is Ok
                &&& final(self).document_view() == draft->Ok_0@
                &&& final(self).path_view() == old(self).path_view()
            },
    {
        proof {
            use_type_invariant(&*self);
        }
        if base_revision != self.revision {
            return Err(ConfigError::RevisionConflict { expected: base_revision, actual: self.revision });
        }
        let document = self.validate_draft(draft)?;
        let next_revision = match self.revision.checked_add(1) {
            Some(next) => next,
            None => {
                return Err(validation(text("配置修订号溢出")));
            },
        };
        save_atomic(store, self.path.as_str(), &document)?;
        self.document = document;
        self.revision = next_revision;
        Ok(next_revision)
    }
}

/// Whether a commit gets as far as writing: its base is current, its draft decoded
/// and valid, and the revision can advance.
pub open spec fn commit_reaches_store(revision: u64, base_revision: u64, draft: Result<ConfigDocument, String>) -> bool {
    &&& base_revision == revision
    &&& revision < u64::MAX
    &&& draft is Ok
    &&& spec_validate(draft->Ok_0@) is Ok
}

/// What `validate_draft` returns for each decoding outcome.
pub open spec fn draft_outcome(draft: Result<ConfigDocument, String>, r: Result<ConfigDocument, ConfigError>) -> bool {
    match draft {
        Err(message) => r is Err && r->Err_0@ == ConfigErrorView::Validation("JSON 草稿格式无效："@ + message@),
        Ok(document) => match spec_validate(document@) {
            Ok(()) => r is Ok && r->Ok_0 == document,
            Err(e) => r is Err && r->Err_0@ == e,
        },
    }
}

} // verus!
