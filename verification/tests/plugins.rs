use moodle_tui::plugins::{
    config_dir_from, installed_plugin_ids, plugins_dir_in, InstalledPlugin, PluginRegistry,
    plugin_command, plugin_secret_key, validate_plugin_id, PluginContributions, PluginManifest,
    PluginPermission, QuizActionContribution,
};

#[test]
fn derives_plugin_secret_keys() {
    assert_eq!(
        plugin_secret_key("quiz-ai-extension", "gemini_api_key").unwrap(),
        "plugin:quiz-ai-extension:gemini_api_key"
    );
    assert!(plugin_secret_key("../bad", "gemini_api_key").is_err());
    assert!(plugin_secret_key("ok", "../bad").is_err());
}

#[test]
fn runs_javascript_plugins_through_node() {
    let command = plugin_command("plugin.js");
    assert_eq!(command.program, "node");
    assert_eq!(command.args, vec!["plugin.js"]);
}

#[test]
fn runs_native_plugins_directly() {
    let command = plugin_command("plugin.exe");
    assert_eq!(command.program, "plugin.exe");
    assert!(command.args.is_empty());
}

#[test]
fn validates_manifest_ids_and_entries() {
    let manifest = PluginManifest {
        id: "quiz-ai-extension".into(),
        name: "Quiz AI Extension".into(),
        version: "0.1.0".into(),
        entry: "plugin.js".into(),
        permissions: vec![PluginPermission::QuizReadCurrentQuestion],
        settings_schema: None,
        contributes: PluginContributions {
            quiz_actions: vec![QuizActionContribution {
                id: "study_help".into(),
                title: "AI Study Help".into(),
                description: None,
                result_kind: None,
                default_key: None,
            }],
        },
    };
    assert!(manifest.validate().is_ok());
}

#[test]
fn rejects_unsafe_manifest_paths() {
    let mut manifest = PluginManifest {
        id: "bad".into(),
        name: "Bad".into(),
        version: "0.1.0".into(),
        entry: "../plugin.js".into(),
        permissions: Vec::new(),
        settings_schema: None,
        contributes: PluginContributions::default(),
    };
    assert!(manifest.validate().is_err());
    manifest.entry = "C:/plugin.js".into();
    assert!(manifest.validate().is_err());
    manifest.entry = r"..\plugin.js".into();
    assert!(manifest.validate().is_err());
}

#[test]
fn plugin_id_limits() {
    assert!(validate_plugin_id("").is_err());
    assert!(validate_plugin_id(&"a".repeat(96)).is_ok());
    assert_eq!(
        validate_plugin_id(&"a".repeat(97)),
        Err(format!("invalid plugin id '{}'", "a".repeat(97)))
    );
    assert!(validate_plugin_id("Upper").is_err());
}

#[test]
fn js_extension_is_case_insensitive() {
    let command = plugin_command("dir/Plugin.JS");
    assert_eq!(command.program, "node");
    assert_eq!(command.args, vec!["dir/Plugin.JS"]);
}

#[test]
fn manifest_reports_blank_name_and_bad_action() {
    let mut manifest = PluginManifest {
        id: "ok".into(),
        name: "  ".into(),
        version: "1".into(),
        entry: "./main.js".into(),
        permissions: Vec::new(),
        settings_schema: None,
        contributes: PluginContributions::default(),
    };
    assert_eq!(manifest.validate(), Err("plugin name is required".to_string()));
    manifest.name = "Ok".into();
    manifest.contributes.quiz_actions.push(QuizActionContribution {
        id: "act".into(),
        title: " ".into(),
        description: None,
        result_kind: None,
        default_key: None,
    });
    assert_eq!(
        manifest.validate(),
        Err("quiz action 'act' requires a title".to_string())
    );
}

fn manifest(id: &str, entry: &str) -> PluginManifest {
    PluginManifest {
        id: id.into(),
        name: id.into(),
        version: "1.0.0".into(),
        entry: entry.into(),
        permissions: Vec::new(),
        settings_schema: None,
        contributes: PluginContributions { quiz_actions: Vec::new() },
    }
}

#[test]
fn entry_paths_stay_inside_the_plugin_directory() {
    assert_eq!(manifest("a", "plugin.js").entry_path("/plugins/a").unwrap(), "/plugins/a/plugin.js");
    assert_eq!(manifest("a", "bin/run.py").entry_path("/plugins/a").unwrap(), "/plugins/a/bin/run.py");
    assert_eq!(
        manifest("a", "../escape.js").entry_path("/plugins/a").unwrap_err(),
        "plugin entry cannot escape the plugin directory"
    );
    assert_eq!(manifest("a", "/abs.js").entry_path("/plugins/a").unwrap_err(), "plugin entry must be a relative path");
}

#[test]
fn installed_ids_are_listed_once_each() {
    let plugin = |id: &str| InstalledPlugin {
        manifest: manifest(id, "plugin.js"),
        directory: ".".into(),
        enabled: true,
        load_error: None,
    };
    let registry = PluginRegistry { plugins: vec![plugin("b"), plugin("a"), plugin("b")] };
    let mut ids = installed_plugin_ids(&registry);
    ids.sort();
    assert_eq!(ids, vec!["a".to_string(), "b".to_string()]);
    assert!(installed_plugin_ids(&PluginRegistry { plugins: Vec::new() }).is_empty());
}

#[test]
fn configuration_directory_prefers_a_non_blank_custom_one() {
    assert_eq!(config_dir_from(Some("/tmp/cfg"), Some("/home/ann")).unwrap(), "/tmp/cfg");
    assert_eq!(config_dir_from(Some("  "), Some("/home/ann")).unwrap(), "/home/ann/.config/tui-moodle");
    assert_eq!(config_dir_from(None, Some("/home/ann")).unwrap(), "/home/ann/.config/tui-moodle");
    assert!(config_dir_from(None, None).is_none());
    assert_eq!(plugins_dir_in("/home/ann/.config/tui-moodle"), "/home/ann/.config/tui-moodle/plugins");
}
