use moodle_tui::panes::settings_pane_width;
use moodle_tui::scroll::bounded_horizontal_scroll;
use moodle_tui::settings::{max_horizontal_scroll, pad_right};
use moodle_tui::state::SettingsPane;
use moodle_tui::main_keys::MainState;
use moodle_tui::plugins::{
    InstalledPlugin, PluginContributions, PluginManifest, QuizActionContribution, SettingProperty,
};
use moodle_tui::settings::{setting_key, SettingsConfigField};
use moodle_tui::settings_rows::{
    config_rows, filtered_config_rows, filtered_keybind_rows, footer_text, keybind_rows,
    plugin_settings_schema, schema_label,
};

fn property(name: &str) -> SettingProperty {
    SettingProperty {
        name: name.into(),
        title: None,
        format: None,
        secret: None,
        default: None,
        options: Vec::new(),
    }
}

fn main_with_plugin() -> MainState {
    let mut main = MainState::new(None);
    main.plugin_secret_configured
        .push(setting_key("quiz-ai-extension", "gemini_api_key"));
    let mut key = property("gemini_api_key");
    key.format = Some("secret".into());
    let mut model = property("gemini_model");
    model.default = Some("gemini-2.5-flash-lite".into());
    model.options = vec!["gemini-2.5-flash-lite".into(), "gemini-2.5-flash".into()];
    main.plugin_registry.plugins.push(InstalledPlugin {
        manifest: PluginManifest {
            id: "quiz-ai-extension".into(),
            name: "Quiz AI Extension".into(),
            version: "0.2.0".into(),
            entry: "plugin.js".into(),
            permissions: Vec::new(),
            settings_schema: Some(vec![model, key]),
            contributes: PluginContributions {
                quiz_actions: vec![QuizActionContribution {
                    id: "fill_answers".into(),
                    title: "AI Fill Answer".into(),
                    description: None,
                    result_kind: Some("quiz_fill_answers".into()),
                    default_key: Some("F6".into()),
                }],
            },
        },
        directory: ".".into(),
        enabled: true,
        load_error: None,
    });
    main
}

#[test]
fn config_rows_redact_secret_and_include_enum_default() {
    let main = main_with_plugin();
    let rows = config_rows(&main);
    assert!(rows.iter().any(|row| row.value == "configured"));
    assert!(rows.iter().any(|row| row.value == "gemini-2.5-flash-lite"));
}

#[test]
fn filters_config_rows_by_value() {
    let mut main = main_with_plugin();
    main.settings_search_query = "flash-lite".into();
    let rows = filtered_config_rows(&main);
    assert_eq!(rows.len(), 1);
}

#[test]
fn shared_filter_applies_to_keybinds_and_config() {
    let mut main = main_with_plugin();
    main.settings_search_query = "quiz-ai-extension".into();
    assert!(filtered_keybind_rows(&main)
        .iter()
        .any(|row| row.source == "quiz-ai-extension"));
    assert!(filtered_config_rows(&main)
        .iter()
        .any(|row| row.group_id == "quiz-ai-extension"));
}

#[test]
fn includes_plugin_keybind_rows() {
    let main = main_with_plugin();
    let rows = keybind_rows(&main);
    assert!(rows.iter().any(|row| row.source == "quiz-ai-extension"));
}

#[test]
fn config_rows_list_plugin_rows_in_order() {
    let main = main_with_plugin();
    let rows = config_rows(&main);
    let labels: Vec<&str> = rows.iter().map(|r| r.label.as_str()).collect();
    assert_eq!(
        labels,
        vec!["Install local plugin", "Reload plugins", "Enabled", "Uninstall", "Gemini Api Key", "Gemini Model"]
    );
    assert_eq!(rows[2].group_name, "Quiz AI Extension 0.2.0 (quiz-ai-extension)");
    assert_eq!(rows[2].value, "yes");
    match &rows[5].field {
        SettingsConfigField::PluginSetting { setting_name, secret, options, .. } => {
            assert_eq!(setting_name, "gemini_model");
            assert!(!secret);
            assert_eq!(options.len(), 2);
        }
        _ => panic!("setting row expected"),
    }
}

#[test]
fn plugin_keys_that_clash_are_marked() {
    let mut main = main_with_plugin();
    main.plugin_registry.plugins[0].manifest.contributes.quiz_actions.push(QuizActionContribution {
        id: "again".into(),
        title: "Again".into(),
        description: None,
        result_kind: None,
        default_key: Some("q".into()),
    });
    let rows = keybind_rows(&main);
    assert_eq!(rows.len(), 30);
    assert_eq!(rows[0].section, "Global");
    assert_eq!(rows[0].keys, "?");
    assert!(!rows[28].conflict);
    assert_eq!(rows[29].keys, "q");
    assert!(rows[29].conflict);
}

#[test]
fn schema_helpers() {
    let sorted = plugin_settings_schema(&Some(vec![property("b"), property("a_b"), property("a")]));
    let names: Vec<&str> = sorted.iter().map(|p| p.name.as_str()).collect();
    assert_eq!(names, vec!["a", "a_b", "b"]);
    assert_eq!(schema_label("gemini__api_key", &property("x")), "Gemini  Api Key");
    let mut titled = property("x");
    titled.title = Some("Title".into());
    assert_eq!(schema_label("x", &titled), "Title");
    let mut main = MainState::new(None);
    assert!(footer_text(&main).starts_with(" Tab switch pane"));
    main.settings_search_active = true;
    assert_eq!(footer_text(&main), " Type to search - Enter keep filter - Esc clear ");
}

#[test]
fn secret_settings_list_secret_properties() {
    let main = main_with_plugin();
    let settings = moodle_tui::settings_rows::secret_settings(&main.plugin_registry);
    assert_eq!(settings, vec![("quiz-ai-extension".to_string(), "gemini_api_key".to_string())]);
}

#[test]
fn secret_configured_needs_a_non_blank_value() {
    let main = main_with_plugin();
    let set = moodle_tui::settings_rows::load_plugin_secret_configured(
        &main.plugin_registry,
        &vec![Some("key-123".to_string())],
    );
    assert_eq!(set, vec![setting_key("quiz-ai-extension", "gemini_api_key")]);
    let blank = moodle_tui::settings_rows::load_plugin_secret_configured(
        &main.plugin_registry,
        &vec![Some("   ".to_string())],
    );
    assert!(blank.is_empty());
    let missing = moodle_tui::settings_rows::load_plugin_secret_configured(&main.plugin_registry, &vec![None]);
    assert!(missing.is_empty());
}

#[test]
fn long_keybind_label_has_bounded_horizontal_scroll() {
    let mut main = main_with_plugin();
    main.plugin_registry.plugins[0].manifest.contributes.quiz_actions[0].title =
        "Very long plugin keybind label that should continue past the visible pane".into();

    let max = max_horizontal_scroll(&main, SettingsPane::Keybinds, 32);

    assert!(max > 0);
    assert_eq!(bounded_horizontal_scroll(0, 200, max), max);
    assert_eq!(bounded_horizontal_scroll(max, -200, max), 0);
}

#[test]
fn short_rows_have_no_horizontal_scroll() {
    let main = MainState::new(None);

    assert_eq!(max_horizontal_scroll(&main, SettingsPane::Keybinds, 500), 0);
    assert_eq!(max_horizontal_scroll(&main, SettingsPane::Config, 500), 0);
}

#[test]
fn settings_pane_width_uses_direct_split_without_divider() {
    assert_eq!(settings_pane_width(100, SettingsPane::Keybinds), 52);
    assert_eq!(settings_pane_width(100, SettingsPane::Config), 48);
}

#[test]
fn config_values_contribute_to_horizontal_scroll() {
    let mut main = main_with_plugin();
    main.plugin_registry.plugins[0].directory =
        "C:/a/very/long/plugin/path/that/exceeds/the/settings/pane".into();

    let max = max_horizontal_scroll(&main, SettingsPane::Config, 30);

    assert!(max > 0);
}

#[test]
fn long_config_value_scrolls_by_what_overflows() {
    let mut main = main_with_plugin();
    let long = "C:/a/very/long/plugin/path/that/exceeds/the/settings/pane";
    main.plugin_registry.plugins[0].directory = long.into();
    main.settings_search_query = "exceeds".into();
    // The one row left is the plugin's directory: a space, its label padded to 22, the value.
    let rows = filtered_config_rows(&main);
    assert_eq!(rows.len(), 1);
    let row_width = 1 + 22.max(rows[0].label.chars().count()) + rows[0].value.chars().count();
    let widest = row_width.max(rows[0].group_name.chars().count());
    assert_eq!(max_horizontal_scroll(&main, SettingsPane::Config, 30) as usize, widest - 30);
}

#[test]
fn pads_to_a_number_of_characters() {
    assert_eq!(pad_right("ab", 5), "ab   ");
    assert_eq!(pad_right("abcdef", 3), "abcdef");
    assert_eq!(pad_right("", 2), "  ");
}
