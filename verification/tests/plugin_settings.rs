use moodle_tui::plugin_settings::{load_plugin_setting, PluginSettingsFile};

#[test]
fn stored_setting_reads_back() {
    let mut file = PluginSettingsFile::new();
    assert_eq!(load_plugin_setting(&file, "quiz-ai-extension", "gemini_model"), None);
    file.set("quiz-ai-extension", "gemini_model", "gemini-2.5-flash-lite");
    file.set("other", "gemini_model", "x");
    assert_eq!(
        load_plugin_setting(&file, "quiz-ai-extension", "gemini_model").as_deref(),
        Some("gemini-2.5-flash-lite")
    );
    file.set("quiz-ai-extension", "gemini_model", "gemini-pro");
    assert_eq!(file.get("quiz-ai-extension", "gemini_model").as_deref(), Some("gemini-pro"));
    assert_eq!(file.get("other", "gemini_model").as_deref(), Some("x"));
    assert_eq!(file.get("quiz-ai-extension", "missing"), None);
}

#[test]
fn removing_a_plugin_forgets_only_its_settings() {
    let mut file = PluginSettingsFile::new();
    file.set("a", "k", "1");
    file.set("a", "j", "2");
    file.set("b", "k", "3");
    file.remove_plugin("a");
    assert_eq!(file.get("a", "k"), None);
    assert_eq!(file.get("a", "j"), None);
    assert_eq!(file.get("b", "k").as_deref(), Some("3"));
    assert_eq!(file.plugins.len(), 1);
}

fn installed(id: &str) -> moodle_tui::plugins::InstalledPlugin {
    moodle_tui::plugins::InstalledPlugin {
        manifest: moodle_tui::plugins::PluginManifest {
            id: id.into(),
            name: id.into(),
            version: "1.0.0".into(),
            entry: "plugin.js".into(),
            permissions: Vec::new(),
            settings_schema: None,
            contributes: moodle_tui::plugins::PluginContributions { quiz_actions: Vec::new() },
        },
        directory: ".".into(),
        enabled: true,
        load_error: None,
    }
}

#[test]
fn settings_cache_keeps_installed_plugins_and_model_fallback() {
    let mut all = PluginSettingsFile::new();
    all.set("other", "theme", "dark");
    all.set("gone", "x", "y");
    let registry = moodle_tui::plugins::PluginRegistry {
        plugins: vec![installed("quiz-ai-extension"), installed("other"), installed("other")],
    };
    let cache = moodle_tui::plugin_settings::load_plugin_settings_cache(&registry, &all, &Some("gemini-pro".into()));
    assert_eq!(cache.get("quiz-ai-extension", "gemini_model").as_deref(), Some("gemini-pro"));
    assert_eq!(cache.get("other", "theme").as_deref(), Some("dark"));
    assert_eq!(cache.get("gone", "x"), None);
    assert_eq!(cache.plugins.len(), 2);

    all.set("quiz-ai-extension", "gemini_model", "stored-model");
    let cache = moodle_tui::plugin_settings::load_plugin_settings_cache(&registry, &all, &Some("gemini-pro".into()));
    assert_eq!(cache.get("quiz-ai-extension", "gemini_model").as_deref(), Some("stored-model"));
    let cache = moodle_tui::plugin_settings::load_plugin_settings_cache(&registry, &PluginSettingsFile::new(), &None);
    assert_eq!(cache.get("quiz-ai-extension", "gemini_model"), None);
}

#[test]
fn account_key_joins_profile_fields() {
    let config = moodle_tui::models::SavedConfig {
        base_url: "https://m.example".into(),
        username: "ana".into(),
        service: "moodle_mobile_app".into(),
    };
    assert_eq!(moodle_tui::secret::account_key(&config), "https://m.example|ana|moodle_mobile_app");
}
