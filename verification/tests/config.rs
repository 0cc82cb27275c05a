use std::collections::HashMap;

use pulsehub::config::{
    load_or_create_default, load_with_backup, normalize_profile_dpi_levels, office_button_mappings, save_atomic,
    ApplicationProfileConfig, ButtonActionConfig, ConfigDocument, ConfigError, ConfigFiles, ConfigRepository, ConfigStore,
    ConfigTransfer, SelectionMode, UiLanguage, PRODUCTION_DEFAULTS_REVISION,
};

/// Keeps documents in memory; a write keeps the previous document as the backup.
#[derive(Default)]
struct MemoryStore {
    files: HashMap<String, Result<ConfigDocument, String>>,
    writes: usize,
}

impl ConfigStore for MemoryStore {
    fn file_exists(&self, path: &str) -> bool {
        self.files.contains_key(path)
    }

    fn backup_path(&self, path: &str) -> String {
        format!("{path}.bak")
    }

    fn read(&mut self, path: &str) -> Result<ConfigDocument, ConfigError> {
        match self.files.get(path) {
            Some(Ok(document)) => Ok(document.clone()),
            Some(Err(message)) => Err(ConfigError::Parse { path: path.to_owned(), message: message.clone() }),
            None => Err(ConfigError::Io { path: path.to_owned(), message: "not found".to_owned() }),
        }
    }

    fn write(&mut self, path: &str, document: &ConfigDocument) -> Result<(), ConfigError> {
        if let Some(previous) = self.files.get(path).cloned() {
            self.files.insert(self.backup_path(path), previous);
        }
        self.files.insert(path.to_owned(), Ok(document.clone()));
        self.writes += 1;
        Ok(())
    }
}

fn word_application(profile: &pulsehub::config::ProfileConfig, name: &str) -> ApplicationProfileConfig {
    ApplicationProfileConfig {
        id: "winword".to_owned(),
        name: name.to_owned(),
        executable_path: r"C:\Program Files\Microsoft Office\WINWORD.EXE".to_owned(),
        process_name: "WINWORD.EXE".to_owned(),
        profile: profile.clone(),
    }
}

#[test]
fn default_config_round_trips_as_toml() {
    let document = ConfigDocument::default();
    assert!(document.validate().is_ok());
    let (decoded, migrated) = ConfigDocument::from_parsed(document.clone()).unwrap();
    assert_eq!(decoded, document);
    assert!(!migrated);
    let side_back = document.profiles.office.button_mappings.iter().find(|m| m.physical_control == "g102:side_back");
    assert_eq!(
        side_back.map(|m| m.action.clone()),
        Some(ButtonActionConfig::LogicalControl { value: "mouse:back".to_owned() })
    );
}

#[test]
fn validation_protects_primary_clicks() {
    let mut document = ConfigDocument::default();
    document.profiles.office.button_mappings.remove(0);
    assert!(matches!(document.validate(), Err(ConfigError::Validation(_))));
}

#[test]
fn primary_click_error_names_the_profile_and_control() {
    let mut document = ConfigDocument::default();
    document.profiles.cs2.button_mappings.remove(1);
    assert_eq!(
        document.validate().unwrap_err(),
        ConfigError::Validation("cs2 必须保留 g102:right 的 mouse:right".to_owned())
    );
}

#[test]
fn report_rate_accepts_only_the_four_product_options() {
    for rate in [1000, 500, 250, 125] {
        let mut document = ConfigDocument::default();
        document.profiles.office.report_rate_hz = rate;
        assert!(document.validate().is_ok(), "{rate} Hz 应当有效");
    }
    let mut document = ConfigDocument::default();
    document.profiles.office.report_rate_hz = 333;
    assert!(matches!(document.validate(), Err(ConfigError::Validation(_))));
}

#[test]
fn schema_and_levels_are_checked() {
    let mut document = ConfigDocument::default();
    document.schema_version = 2;
    assert_eq!(document.validate(), Err(ConfigError::UnsupportedSchema { found: 2 }));
    let mut document = ConfigDocument::default();
    document.shutdown_profile.dpi_levels = vec![800, 800, 2400, 3200];
    assert_eq!(
        document.validate(),
        Err(ConfigError::Validation("shutdown DPI 档位必须包含四个严格递增的正整数".to_owned()))
    );
    let mut document = ConfigDocument::default();
    document.profiles.office.dpi = 1700;
    assert_eq!(
        document.validate(),
        Err(ConfigError::Validation("office 当前 DPI 必须属于四个 DPI 切换档位".to_owned()))
    );
}

#[test]
fn default_shutdown_profile_preserves_the_previous_safe_exit_behavior() {
    let profile = &ConfigDocument::default().shutdown_profile;
    assert_eq!(profile.dpi, 1600);
    assert_eq!(profile.report_rate_hz, 1000);
    assert_eq!(profile.button_mappings, office_button_mappings());
}

#[test]
fn first_run_defaults_keep_all_original_mouse_controls() {
    let document = ConfigDocument::default();
    assert!(!document.agent.developer_logging);
    assert!(document.applications.is_empty());
    for profile in [&document.profiles.office, &document.profiles.cs2, &document.shutdown_profile] {
        assert_eq!(profile.dpi, 1600);
        assert_eq!(profile.dpi_levels, [800, 1600, 2400, 3200]);
        for (control, expected) in [
            ("g102:left", "mouse:left"),
            ("g102:right", "mouse:right"),
            ("g102:middle", "mouse:middle"),
            ("g102:side_back", "mouse:back"),
            ("g102:side_forward", "mouse:forward"),
            ("g102:dpi", "mouse:dpi_cycle"),
        ] {
            assert!(profile.button_mappings.iter().any(|mapping| {
                mapping.physical_control == control
                    && matches!(
                        &mapping.action,
                        ButtonActionConfig::LogicalControl { value } if value == expected
                    )
            }));
        }
    }
}

#[test]
fn legacy_dpi_cycle_profile_keeps_current_dpi_during_level_migration() {
    let mut document = ConfigDocument::default();
    document.profiles.office.dpi = 1800;
    document.profiles.office.dpi_levels = vec![800, 1600, 2400, 3200];

    let (migrated, _) = ConfigDocument::from_parsed(document).unwrap();

    assert_eq!(migrated.profiles.office.dpi, 1800);
    assert_eq!(migrated.profiles.office.dpi_levels, [800, 1800, 2400, 3200]);
}

#[test]
fn normalisation_replaces_the_first_closest_level() {
    let mut profile = ConfigDocument::default().profiles.cs2;
    profile.dpi = 2000;
    profile.dpi_levels = vec![800, 1600, 2400, 3200];
    normalize_profile_dpi_levels(&mut profile);
    assert_eq!(profile.dpi_levels, [800, 2000, 2400, 3200]);

    profile.dpi = 100;
    profile.dpi_levels = vec![800, 1600, 2400, 3200];
    normalize_profile_dpi_levels(&mut profile);
    assert_eq!(profile.dpi_levels, [100, 1600, 2400, 3200]);

    profile.dpi = 4000;
    profile.dpi_levels = vec![800, 1600, 2400, 3200];
    profile.button_mappings.pop();
    normalize_profile_dpi_levels(&mut profile);
    assert_eq!(profile.dpi_levels, [800, 1600, 2400, 3200]);
}

#[test]
fn pre_v012_config_migrates_once_to_safe_production_defaults() {
    let mut legacy = ConfigDocument::default();
    legacy.agent.start_with_windows = false;
    legacy.agent.language = UiLanguage::En;
    legacy.agent.developer_logging = true;
    legacy.profiles.office.dpi = 3200;
    legacy.profiles.cs2.dpi = 3200;
    legacy.applications.push(word_application(&legacy.profiles.cs2, "Word 环境"));
    legacy.production_defaults_revision = 0;

    let (migrated, was_reset) = ConfigDocument::from_parsed(legacy).unwrap();

    assert!(was_reset);
    assert_eq!(migrated.production_defaults_revision, PRODUCTION_DEFAULTS_REVISION);
    assert!(!migrated.agent.start_with_windows);
    assert_eq!(migrated.agent.language, UiLanguage::En);
    assert!(!migrated.agent.developer_logging);
    assert!(migrated.applications.is_empty());
    for profile in [&migrated.profiles.office, &migrated.profiles.cs2, &migrated.shutdown_profile] {
        assert_eq!(profile.dpi, 1600);
        assert_eq!(profile.button_mappings, office_button_mappings());
    }
}

#[test]
fn production_defaults_migration_is_persisted_with_backup() {
    let mut legacy = ConfigDocument::default();
    legacy.profiles.office.dpi = 3200;
    legacy.production_defaults_revision = 0;
    let mut memory = MemoryStore::default();
    memory.files.insert("config.toml".to_owned(), Ok(legacy.clone()));
    let mut store = ConfigFiles::new(memory);

    let migrated = load_or_create_default(&mut store, "config.toml").unwrap();

    assert_eq!(migrated.profiles.office.dpi, 1600);
    let saved = store.store().files["config.toml"].clone().unwrap();
    assert_eq!(saved.production_defaults_revision, 1);
    assert_eq!(store.store().files["config.toml.bak"], Ok(legacy));
}

#[test]
fn application_profiles_round_trip_and_reject_duplicate_processes() {
    let mut document = ConfigDocument::default();
    let mut word = word_application(&document.profiles.cs2, "WINWORD");
    word.executable_path = r"C:\Program Files\Microsoft Office\root\Office16\WINWORD.EXE".to_owned();
    document.applications.push(word);
    let (decoded, _) = ConfigDocument::from_parsed(document.clone()).unwrap();
    assert_eq!(decoded.applications, document.applications);

    let mut duplicate = document.applications[0].clone();
    duplicate.id = "word_second".to_owned();
    duplicate.name = "Word Second".to_owned();
    duplicate.process_name = "winword.exe".to_owned();
    document.applications.push(duplicate);
    assert!(matches!(
        document.validate(),
        Err(ConfigError::Validation(message)) if message.contains("进程名重复")
    ));
}

#[test]
fn application_rules_reject_bad_ids_names_and_processes() {
    let base = ConfigDocument::default();
    let mut document = base.clone();
    let mut app = word_application(&base.profiles.cs2, "Word");
    app.id = "win word".to_owned();
    document.applications.push(app);
    assert_eq!(
        document.validate(),
        Err(ConfigError::Validation("应用环境 id 只能包含字母、数字、连字符和下划线".to_owned()))
    );

    let mut document = base.clone();
    let mut app = word_application(&base.profiles.cs2, "Word");
    app.process_name = "winword".to_owned();
    document.applications.push(app);
    assert_eq!(
        document.validate(),
        Err(ConfigError::Validation("应用环境进程名必须以 .exe 结尾：winword".to_owned()))
    );

    let mut document = base.clone();
    document.applications.push(word_application(&base.profiles.cs2, "Word"));
    let mut second = word_application(&base.profiles.cs2, "Excel");
    second.id = "WinWord".to_owned();
    second.process_name = "excel.exe".to_owned();
    document.applications.push(second);
    assert_eq!(document.validate(), Err(ConfigError::Validation("应用环境 id 重复：WinWord".to_owned())));
}

#[test]
fn fixed_application_mode_needs_a_known_application() {
    let mut document = ConfigDocument::default();
    document.selection.mode = SelectionMode::Application;
    assert_eq!(document.validate(), Err(ConfigError::Validation("固定应用模式缺少应用环境 id".to_owned())));
    document.selection.fixed_application_id = Some("WINWORD".to_owned());
    assert_eq!(document.validate(), Err(ConfigError::Validation("固定应用环境不存在：WINWORD".to_owned())));
    document.applications.push(word_application(&document.profiles.cs2.clone(), "Word"));
    assert!(document.validate().is_ok());
    document.selection.mode = SelectionMode::Office;
    assert_eq!(
        document.validate(),
        Err(ConfigError::Validation("非固定应用模式不能保存 fixed_application_id".to_owned()))
    );
}

#[test]
fn transfer_round_trip_keeps_profiles_and_applications_but_not_machine_preferences() {
    let mut original = ConfigDocument::default();
    original.agent.start_with_windows = false;
    original.agent.language = UiLanguage::En;
    original.profiles.office.dpi = 3200;
    original.applications.push(word_application(&original.profiles.cs2, "Word 环境"));

    let transfer = ConfigTransfer::from_parsed(original.export_transfer()).unwrap();
    let mut destination = ConfigDocument::default();
    destination.agent.start_with_windows = true;
    destination.apply_transfer(transfer).unwrap();

    assert_eq!(destination.profiles, original.profiles);
    assert_eq!(destination.applications, original.applications);
    assert!(destination.agent.start_with_windows);
    assert_eq!(destination.agent.language, UiLanguage::ZhCn);
}

#[test]
fn transfer_of_another_schema_changes_nothing() {
    let mut transfer = ConfigDocument::default().export_transfer();
    transfer.transfer_schema_version = 9;
    transfer.profiles.office.dpi = 3200;
    let mut destination = ConfigDocument::default();
    assert_eq!(destination.apply_transfer(transfer), Err(ConfigError::UnsupportedSchema { found: 9 }));
    assert_eq!(destination, ConfigDocument::default());
}

#[test]
fn auto_selection_requires_rules() {
    let mut document = ConfigDocument::default();
    document.selection.mode = SelectionMode::Auto;
    document.selection.rules.clear();
    assert!(matches!(document.validate(), Err(ConfigError::Validation(_))));
}

#[test]
fn atomic_save_keeps_previous_backup_and_can_recover() {
    let mut store = ConfigFiles::new(MemoryStore::default());
    let original = ConfigDocument::default();
    save_atomic(&mut store, "config.toml", &original).unwrap();

    let mut updated = original.clone();
    updated.profiles.office.dpi = 1600;
    save_atomic(&mut store, "config.toml", &updated).unwrap();
    assert_eq!(load_with_backup(&mut store, "config.toml").unwrap(), updated);

    let mut memory = store.into_store();
    memory.files.insert("config.toml".to_owned(), Err("not valid toml".to_owned()));
    let mut store = ConfigFiles::new(memory);
    assert_eq!(load_with_backup(&mut store, "config.toml").unwrap(), original);
    assert!(store.file_exists("config.toml.bak"));
}

#[test]
fn invalid_documents_are_never_saved() {
    let mut store = ConfigFiles::new(MemoryStore::default());
    let mut document = ConfigDocument::default();
    document.profiles.office.dpi = 0;
    assert_eq!(
        save_atomic(&mut store, "config.toml", &document),
        Err(ConfigError::Validation("office DPI 必须大于 0".to_owned()))
    );
    assert_eq!(store.store().writes, 0);
}

#[test]
fn unusable_configuration_and_backup_report_both_errors() {
    let mut memory = MemoryStore::default();
    memory.files.insert("config.toml".to_owned(), Err("bad".to_owned()));
    let mut store = ConfigFiles::new(memory);
    let error = load_with_backup(&mut store, "config.toml").unwrap_err();
    assert_eq!(
        error,
        ConfigError::Validation(
            "主配置不可用（配置解析失败 config.toml：bad），备份也不可用（配置 I/O 失败 config.toml.bak：not found）"
                .to_owned()
        )
    );
}

#[test]
fn missing_configuration_with_a_backup_loads_the_backup_without_writing() {
    let mut backup = ConfigDocument::default();
    backup.agent.developer_logging = true;
    let mut memory = MemoryStore::default();
    memory.files.insert("config.toml.bak".to_owned(), Ok(backup.clone()));
    let mut store = ConfigFiles::new(memory);

    let document = load_or_create_default(&mut store, "config.toml").unwrap();
    assert_eq!(document, backup);
    assert_eq!(store.store().writes, 0);
    assert!(!store.store().files.contains_key("config.toml"));
}

#[test]
fn creates_default_config_on_first_load() {
    let mut store = ConfigFiles::new(MemoryStore::default());

    let document = load_or_create_default(&mut store, "config.toml").unwrap();
    assert_eq!(document, ConfigDocument::default());
    assert!(store.file_exists("config.toml"));
}

#[test]
fn repository_validates_commits_and_rejects_stale_revision() {
    let mut store = ConfigFiles::new(MemoryStore::default());
    let original = ConfigDocument::default();
    let mut repository = ConfigRepository::from_document("config.toml", original.clone()).unwrap();
    let mut updated = original;
    updated.profiles.office.dpi = 3200;

    assert_eq!(repository.validate_draft(Ok(updated.clone())).unwrap(), updated);
    assert_eq!(repository.commit(&mut store, 1, Ok(updated.clone())).unwrap(), 2);
    assert_eq!(repository.revision(), 2);
    assert_eq!(load_with_backup(&mut store, "config.toml").unwrap(), updated);
    assert!(matches!(
        repository.commit(&mut store, 1, Ok(updated.clone())),
        Err(ConfigError::RevisionConflict { expected: 1, actual: 2 })
    ));
    assert_eq!(repository.document(), &updated);
}

#[test]
fn repository_rejects_invalid_json_without_changing_revision() {
    let mut store = ConfigFiles::new(MemoryStore::default());
    let document = ConfigDocument::default();
    let mut repository = ConfigRepository::from_document("unused.toml", document).unwrap();
    let invalid: Result<ConfigDocument, String> = Err("unknown field `unknown`".to_owned());

    assert!(matches!(repository.commit(&mut store, 1, invalid), Err(ConfigError::Validation(_))));
    assert_eq!(repository.revision(), 1);
    assert_eq!(store.store().writes, 0);
}

#[test]
fn repository_refuses_an_invalid_starting_document() {
    let mut document = ConfigDocument::default();
    document.production_defaults_revision = 3;
    assert_eq!(
        ConfigRepository::from_document("config.toml", document).unwrap_err(),
        ConfigError::Validation("不支持生产默认配置修订 3".to_owned())
    );
}

#[test]
fn config_errors_render_their_messages() {
    assert_eq!(
        ConfigError::RevisionConflict { expected: 1, actual: 2 }.message(),
        "配置修订冲突：提交基于 1，当前修订为 2"
    );
    assert_eq!(ConfigError::UnsupportedSchema { found: 7 }.message(), "不支持配置 schema 7");
}
