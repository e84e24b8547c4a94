use notmux::settings::{
    integration_extension_id,
    default_file_opener, default_font_family, default_remote_listen_address, default_scrollback_lines,
    default_settings_version, migrate_settings, CursorShape, MigrationFields, WorktreeConfig, SETTINGS_VERSION,
};

/// The fields a settings file `{"version": v, ...}` gives migration: the
/// legacy flags default to false except `auto_update_enabled` (true).
fn fields(version: u32, assistant_flag: bool, codex: bool, auto_update: bool) -> MigrationFields {
    MigrationFields {
        version,
        claude_code_integration: assistant_flag,
        codex_integration: codex,
        auto_update_enabled: auto_update,
        enabled_extensions: Vec::new(),
    }
}

/// The extension the legacy `claude_code_integration` key turned on.
fn assistant() -> String {
    integration_extension_id("claude_code_integration")
}

fn has(m: &MigrationFields, id: &str) -> bool {
    m.enabled_extensions.iter().any(|e| e == id)
}

#[test]
fn migrate_v2_claude_code_integration_to_enabled_extensions() {
    let migrated = migrate_settings(fields(2, true, false, true));
    assert_eq!(migrated.version, SETTINGS_VERSION);
    assert!(has(&migrated, &assistant()));
    assert!(!has(&migrated, "codex"));
}

#[test]
fn migrate_v2_codex_integration_to_enabled_extensions() {
    let migrated = migrate_settings(fields(2, false, true, true));
    assert!(has(&migrated, "codex"));
}

#[test]
fn migrate_v2_both_integrations() {
    let migrated = migrate_settings(fields(2, true, true, true));
    assert!(has(&migrated, &assistant()));
    assert!(has(&migrated, "codex"));
}

#[test]
fn migrate_v2_no_integrations_only_updater() {
    // auto_update_enabled defaults to true, so updater is migrated
    let migrated = migrate_settings(fields(2, false, false, true));
    assert_eq!(migrated.enabled_extensions.len(), 1);
    assert!(has(&migrated, "updater"));
    assert!(!has(&migrated, &assistant()));
}

#[test]
fn migrate_v2_auto_update_disabled() {
    let migrated = migrate_settings(fields(2, false, false, false));
    assert!(!has(&migrated, "updater"));
}

#[test]
fn migrate_from_unversioned_file_goes_through_all_steps() {
    let migrated = migrate_settings(fields(0, true, false, false));
    assert_eq!(migrated.version, 3);
    assert!(has(&migrated, &assistant()));
    assert!(!migrated.claude_code_integration);
}

#[test]
fn migrate_current_version_changes_nothing() {
    let mut f = fields(3, true, false, true);
    f.enabled_extensions.push("codex".to_string());
    let migrated = migrate_settings(f);
    assert_eq!(migrated.version, 3);
    assert!(migrated.claude_code_integration);
    assert_eq!(migrated.enabled_extensions, vec!["codex".to_string()]);
}

#[test]
fn migrate_twice_is_stable() {
    let once = migrate_settings(fields(1, true, true, true));
    let twice = migrate_settings(once.clone());
    assert_eq!(twice.version, once.version);
    assert_eq!(twice.enabled_extensions, once.enabled_extensions);
}

#[test]
fn existing_extension_not_duplicated() {
    let mut f = fields(2, true, false, false);
    f.enabled_extensions.push(assistant());
    let migrated = migrate_settings(f);
    assert_eq!(migrated.enabled_extensions, vec![assistant()]);
}

#[test]
fn integration_keys_name_their_extensions() {
    assert_eq!(integration_extension_id("codex_integration"), "codex");
    assert_eq!(integration_extension_id("my_tool_integration"), "my-tool");
    assert_eq!(assistant().replace('-', "_") + "_integration", "claude_code_integration");
}

#[test]
fn cursor_shapes() {
    assert_eq!(CursorShape::all_variants(), vec![CursorShape::Block, CursorShape::Bar, CursorShape::Underline]);
    assert_eq!(CursorShape::Bar.display_name(), "Bar");
    assert_eq!(CursorShape::default(), CursorShape::Block);
}

#[test]
fn defaults() {
    let w = WorktreeConfig::default();
    assert_eq!(w.path_template, "../{repo}-wt/{branch}");
    assert!(w.default_fetch && !w.default_merge && !w.default_push);
    assert_eq!(default_settings_version(), 0);
    assert_eq!(default_scrollback_lines(), 10000);
    assert_eq!(default_font_family(), "JetBrains Mono");
    assert_eq!(default_file_opener(), "");
    assert_eq!(default_remote_listen_address(), "127.0.0.1");
}
