use moodle_tui::login::saved_config_from_json;
use moodle_tui::login::login_validated_commands;
use moodle_tui::models::RuntimeConfig;
use moodle_tui::login::{apply_login_outcome, bootstrap_login, login_form, LoginKeyOutcome};
use moodle_tui::models::SavedConfig;
use moodle_tui::state::AppCommand;

fn saved() -> SavedConfig {
    SavedConfig {
        base_url: "https://m.example".into(),
        username: "ann".into(),
        service: "svc".into(),
    }
}

#[test]
fn form_without_profile_uses_default_service() {
    let login = login_form(&None);
    assert_eq!(login.service.value, "moodle_mobile_app");
    assert!(login.password.mask);
    assert_eq!(login.base_url.value, "");
}

#[test]
fn bootstrap_signs_in_automatically_with_saved_password() {
    let (login, commands) = bootstrap_login(&Some(saved()), &Some("pw".into()), None, true);
    assert!(login.busy);
    assert_eq!(login.username.value, "ann");
    match &commands[..] {
        [AppCommand::ValidateLogin(config)] => {
            assert_eq!(config.password, "pw");
            assert_eq!(config.base_url, "https://m.example");
        }
        _ => panic!("expected one sign-in"),
    }
    let (login, commands) = bootstrap_login(&Some(saved()), &Some("pw".into()), None, false);
    assert!(!login.busy);
    assert!(commands.is_empty());
}

#[test]
fn submit_and_toggle_password() {
    let mut login = login_form(&Some(saved()));
    login.password.set("secret");
    let commands = apply_login_outcome(&mut login, &None, &None, LoginKeyOutcome::Submit);
    assert!(login.busy);
    assert!(matches!(&commands[..], [AppCommand::ValidateLogin(c)] if c.password == "secret"));
    let commands = apply_login_outcome(&mut login, &None, &None, LoginKeyOutcome::TogglePassword);
    assert!(commands.is_empty());
    assert!(login.show_password);
    assert!(!login.password.mask);
    let commands = apply_login_outcome(&mut login, &None, &None, LoginKeyOutcome::SavedLogin);
    assert!(commands.is_empty());
    assert!(matches!(
        &apply_login_outcome(&mut login, &None, &None, LoginKeyOutcome::Quit)[..],
        [AppCommand::Quit]
    ));
}

fn runtime() -> RuntimeConfig {
    RuntimeConfig {
        base_url: "https://m.example".into(),
        username: "ann".into(),
        service: "moodle_mobile_app".into(),
        password: "pw".into(),
    }
}

#[test]
fn successful_login_loads_the_dashboard() {
    let commands = login_validated_commands(runtime(), &Vec::new());
    assert_eq!(commands.len(), 1);
    assert!(matches!(&commands[0], AppCommand::LoadDashboard(c) if *c == runtime()));
}

#[test]
fn storage_problems_after_login_are_toasted_together() {
    let warnings = vec![
        "profile settings could not be saved: disk full".to_string(),
        "password could not be saved securely: no keyring".to_string(),
    ];
    let commands = login_validated_commands(runtime(), &warnings);
    assert_eq!(commands.len(), 2);
    assert!(matches!(&commands[0], AppCommand::LoadDashboard(c) if *c == runtime()));
    match &commands[1] {
        AppCommand::ShowToast(text) => assert_eq!(
            text,
            "Login succeeded, but profile settings could not be saved: disk full; password could not be saved securely: no keyring"
        ),
        _ => panic!("expected a toast"),
    }
    let one = login_validated_commands(runtime(), &vec!["x".to_string()]);
    assert!(matches!(&one[1], AppCommand::ShowToast(t) if t == "Login succeeded, but x"));
}

fn json_text(s: &str) -> moodle_tui::json::JsonValue {
    moodle_tui::json::JsonValue::String(moodle_tui::json::JsonText {
        text: s.to_string(),
        float_truncated: None,
        float_bits: None,
    })
}

fn json_obj(members: Vec<(&str, moodle_tui::json::JsonValue)>) -> moodle_tui::json::JsonValue {
    moodle_tui::json::JsonValue::Object(members.into_iter().map(|(k, v)| (k.to_string(), v)).collect())
}

#[test]
fn saved_profile_needs_a_site_and_a_user() {
    let stored = json_obj(vec![
        ("baseUrl", json_text(" https://m.example// ")),
        ("username", json_text(" ann ")),
        ("service", json_text("  ")),
    ]);
    let config = saved_config_from_json(&stored).unwrap();
    assert_eq!(config.base_url, "https://m.example");
    assert_eq!(config.username, "ann");
    assert_eq!(config.service, "moodle_mobile_app");
    let custom = json_obj(vec![
        ("baseUrl", json_text("https://m.example")),
        ("username", json_text("ann")),
        ("service", json_text(" custom ")),
    ]);
    assert_eq!(saved_config_from_json(&custom).unwrap().service, "custom");
    assert!(saved_config_from_json(&json_obj(vec![("baseUrl", json_text("/")), ("username", json_text("ann"))])).is_none());
    assert!(saved_config_from_json(&json_obj(vec![("baseUrl", json_text("https://m")), ("username", json_text(" "))])).is_none());
    assert!(saved_config_from_json(&json_obj(vec![("username", json_text("ann"))])).is_none());
    assert!(saved_config_from_json(&json_text("not an object")).is_none());
}
