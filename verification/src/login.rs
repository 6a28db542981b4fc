//! The login form: how it is first filled, what its keys lead to, and how a failed login
//! comes back to it.
use vstd::prelude::*;
use crate::json::{as_str, field, get, j_str, JsonValue};
use crate::models::{
    normalize_base_url, normalized_base_url, pick_service, picked_service, RuntimeConfig, SavedConfig,
    DEFAULT_MOODLE_SERVICE,
};
use crate::state::{AppCommand, LoginFocus, LoginState};
use crate::text_input::TextInputState;
use crate::text::{push_str, trim, trim_str};

verus! {

/// What a key press on the login form asks for, as the form's key handling reports it.
#[derive(Debug, Clone, Copy, PartialEq, Eq, Structural)]
pub enum LoginKeyOutcome {
    Submit,
    SavedLogin,
    TogglePassword,
    Quit,
    Other,
}

/// An empty field.
pub open spec fn is_empty_field(f: TextInputState) -> bool {
    f.value@.len() == 0 && f.cursor == 0 && !f.mask
}

/// A field holding `text` with the cursor at its end.
pub open spec fn field_holds(f: TextInputState, text: Seq<char>, mask: bool) -> bool {
    f.value@ =~= text && f.cursor == text.len() && f.mask == mask
}

impl LoginState {
    /// An empty form with the focus on the base URL.
    pub fn empty() -> (r: Self)
        ensures
            is_empty_field(r.base_url),
            is_empty_field(r.username),
            is_empty_field(r.password),
            is_empty_field(r.service),
            r.focus == LoginFocus::BaseUrl,
            !r.busy,
            r.error is None,
            r.storage_warning is None,
            !r.show_password,
    {
        LoginState {
            base_url: TextInputState::new(),
            username: TextInputState::new(),
            password: TextInputState::new(),
            service: TextInputState::new(),
            focus: LoginFocus::BaseUrl,
            busy: false,
            error: None,
            storage_warning: None,
            show_password: false,
        }
    }
}

/// The login form prefilled from the saved profile (or with the default service), the
/// password masked and empty.
pub open spec fn prefilled(r: LoginState, saved: Option<SavedConfig>) -> bool {
    &&& field_holds(r.password, Seq::empty(), true)
    &&& match saved {
        Some(c) => {
            &&& field_holds(r.base_url, c.base_url@, false)
            &&& field_holds(r.username, c.username@, false)
            &&& field_holds(r.service, c.service@, false)
        },
        None => {
            &&& is_empty_field(r.base_url)
            &&& is_empty_field(r.username)
            &&& field_holds(r.service, DEFAULT_MOODLE_SERVICE@, false)
        },
    }
    &&& r.focus == LoginFocus::BaseUrl
    &&& !r.show_password
}

/// A login form prefilled from the saved profile.
pub fn login_form(saved: &Option<SavedConfig>) -> (r: LoginState)
    ensures
        prefilled(r, *saved),
        !r.busy,
        r.error is None,
        r.storage_warning is None,
{
    let mut login = LoginState::empty();
    login.password.mask = true;
    match saved {
        Some(config) => {
            login.base_url.set(config.base_url.as_str());
            login.username.set(config.username.as_str());
            login.service.set(config.service.as_str());
        },
        None => {
            login.service.set(DEFAULT_MOODLE_SERVICE);
        },
    }
    login
}

/// The configuration for signing in with the saved profile and password.
pub open spec fn saved_login(c: SavedConfig, password: String) -> RuntimeConfig {
    RuntimeConfig { base_url: c.base_url, username: c.username, service: c.service, password }
}

fn saved_login_exec(c: &SavedConfig, password: &String) -> (r: RuntimeConfig)
    ensures
        r == saved_login(*c, *password),
{
    RuntimeConfig {
        base_url: c.base_url.clone(),
        username: c.username.clone(),
        service: c.service.clone(),
        password: password.clone(),
    }
}

/// The login screen at start-up: prefilled from the saved profile, and, when automatic
/// sign-in is on and a password was saved, already signing in with them.
pub fn bootstrap_login(
    saved_config: &Option<SavedConfig>,
    password: &Option<String>,
    storage_warning: Option<String>,
    auto_login: bool,
) -> (r: (LoginState, Vec<AppCommand>))
    ensures
        prefilled(r.0, *saved_config),
        r.0.error is None,
        r.0.storage_warning == storage_warning,
        match (*saved_config, *password) {
            (Some(c), Some(p)) if auto_login => {
                &&& r.0.busy
                &&& r.1@ == seq![AppCommand::ValidateLogin(saved_login(c, p))]
            },
            _ => !r.0.busy && r.1@.len() == 0,
        },
{
    let mut login = login_form(saved_config);
    let mut commands: Vec<AppCommand> = Vec::new();
    match saved_config {
        Some(config) => {
            if auto_login {
                match password {
                    Some(pw) => {
                        login.busy = true;
                        commands.push(AppCommand::ValidateLogin(saved_login_exec(config, pw)));
                    },
                    None => {},
                }
            }
        },
        None => {},
    }
    login.storage_warning = storage_warning;
    (login, commands)
}

/// The configuration typed into the form.
pub open spec fn typed_login(login: LoginState) -> RuntimeConfig {
    RuntimeConfig {
        base_url: login.base_url.value,
        username: login.username.value,
        service: login.service.value,
        password: login.password.value,
    }
}

/// Acts on what a key on the login form asked for: submitting signs in with the typed
/// values, the saved login signs in with the saved profile (when there is one with a
/// password), the password can be shown or hidden, and the application can quit.
pub fn apply_login_outcome(
    login: &mut LoginState,
    saved_config: &Option<SavedConfig>,
    saved_password: &Option<String>,
    outcome: LoginKeyOutcome,
) -> (r: Vec<AppCommand>)
    ensures
        match outcome {
            LoginKeyOutcome::Submit => {
                &&& *final(login) == (LoginState { busy: true, error: None, ..*old(login) })
                &&& r@ == seq![AppCommand::ValidateLogin(typed_login(*old(login)))]
            },
            LoginKeyOutcome::SavedLogin => match (*saved_config, *saved_password) {
                (Some(c), Some(p)) => {
                    &&& *final(login) == (LoginState { busy: true, error: None, ..*old(login) })
                    &&& r@ == seq![AppCommand::ValidateLogin(saved_login(c, p))]
                },
                _ => *final(login) == *old(login) && r@.len() == 0,
            },
            LoginKeyOutcome::TogglePassword => {
                &&& final(login).show_password == !old(login).show_password
                &&& final(login).password.mask == old(login).show_password
                &&& final(login).password.value == old(login).password.value
                &&& final(login).password.cursor == old(login).password.cursor
                &&& *final(login) == (LoginState {
                    show_password: final(login).show_password,
                    password: final(login).password,
                    ..*old(login)
                })
                &&& r@.len() == 0
            },
            LoginKeyOutcome::Quit => *final(login) == *old(login) && r@ == seq![AppCommand::Quit],
            LoginKeyOutcome::Other => *final(login) == *old(login) && r@.len() == 0,
        },
{
    match outcome {
        LoginKeyOutcome::Submit => {
            let config = RuntimeConfig {
                base_url: login.base_url.value.clone(),
                username: login.username.value.clone(),
                service: login.service.value.clone(),
                password: login.password.value.clone(),
            };
            login.busy = true;
            login.error = None;
            vec![AppCommand::ValidateLogin(config)]
        },
        LoginKeyOutcome::SavedLogin => match (saved_config, saved_password) {
            (Some(saved), Some(password)) => {
                let config = saved_login_exec(saved, password);
                login.busy = true;
                login.error = None;
                vec![AppCommand::ValidateLogin(config)]
            },
            _ => Vec::new(),
        },
        LoginKeyOutcome::TogglePassword => {
            login.show_password = !login.show_password;
            login.password.mask = !login.show_password;
            Vec::new()
        },
        LoginKeyOutcome::Quit => vec![AppCommand::Quit],
        LoginKeyOutcome::Other => Vec::new(),
    }
}

/// A failed sign-in on the login screen: the form is usable again and shows the error.
pub fn on_login_failed(login: &mut LoginState, error: String)
    ensures
        *final(login) == (LoginState { busy: false, error: Some(error), ..*old(login) }),
{
    login.busy = false;
    login.error = Some(error);
}

/// A failed sign-in from another screen: a fresh login form, prefilled from the saved
/// profile, that shows the error.
pub fn login_after_error(saved_config: &Option<SavedConfig>, error: String) -> (r: LoginState)
    ensures
        prefilled(r, *saved_config),
        !r.busy,
        r.error == Some(error),
        r.storage_warning is None,
{
    let mut login = login_form(saved_config);
    login.error = Some(error);
    login
}

/// Showing the password twice gives the form back as it was, when the mask matched the
/// visibility before.
pub proof fn law_toggle_password_twice(a: LoginState, b: LoginState, c: LoginState)
    requires
        a.password.mask == !a.show_password,
        b.show_password == !a.show_password,
        b.password.mask == a.show_password,
        b.password.value == a.password.value,
        b.password.cursor == a.password.cursor,
        b == (LoginState { show_password: b.show_password, password: b.password, ..a }),
        c.show_password == !b.show_password,
        c.password.mask == b.show_password,
        c.password.value == b.password.value,
        c.password.cursor == b.password.cursor,
        c == (LoginState { show_password: c.show_password, password: c.password, ..b }),
    ensures
        c == a,
{
}


/// Warnings joined by `; `.
pub open spec fn join_semicolon(parts: Seq<Seq<char>>) -> Seq<char>
    decreases parts.len(),
{
    if parts.len() == 0 {
        Seq::empty()
    } else if parts.len() == 1 {
        parts[0]
    } else {
        join_semicolon(parts.drop_last()) + "; "@ + parts.last()
    }
}

/// What a successful sign-in asks for: the dashboard of the signed-in account and, when the
/// profile or the password could not be stored, a toast that names every such problem.
pub fn login_validated_commands(config: RuntimeConfig, save_warnings: &Vec<String>) -> (r: Vec<AppCommand>)
    ensures
        save_warnings@.len() == 0 ==> r@ == seq![AppCommand::LoadDashboard(config)],
        save_warnings@.len() > 0 ==> {
            &&& r@.len() == 2
            &&& r@[0] == AppCommand::LoadDashboard(config)
            &&& r@[1] matches AppCommand::ShowToast(t) && t@ == "Login succeeded, but "@ + join_semicolon(
                save_warnings@.map_values(|w: String| w@),
            )
        },
{
    let mut commands = vec![AppCommand::LoadDashboard(config)];
    if save_warnings.len() == 0 {
        return commands;
    }
    let ghost ws = save_warnings@.map_values(|w: String| w@);
    let mut text = String::new();
    push_str(&mut text, "Login succeeded, but ");
    let ghost head = text@;
    let mut i: usize = 0;
    while i < save_warnings.len()
        invariant
            i <= save_warnings@.len(),
            ws == save_warnings@.map_values(|w: String| w@),
            head == "Login succeeded, but "@,
            text@ == head + join_semicolon(ws.take(i as int)),
        decreases save_warnings.len() - i,
    {
        if i > 0 {
            push_str(&mut text, "; ");
        }
        push_str(&mut text, save_warnings[i].as_str());
        proof {
            assert(ws.take(i + 1).drop_last() =~= ws.take(i as int));
            assert(ws.take(i + 1).last() == save_warnings@[i as int]@);
            if i == 0 {
                assert(ws.take(1) =~= seq![ws[0]]);
            }
        }
        i += 1;
        assert(text@ =~= head + join_semicolon(ws.take(i as int)));
    }
    assert(ws.take(ws.len() as int) =~= ws);
    commands.push(AppCommand::ShowToast(text));
    commands
}


/// The saved profile a stored `config.json` object holds: its base URL (normalized) and
/// user name (trimmed) must both be present and not blank; a missing or blank service
/// falls back to the default.
pub fn saved_config_from_json(v: &JsonValue) -> (r: Option<SavedConfig>)
    ensures
        match (j_str(field(*v, "baseUrl"@)), j_str(field(*v, "username"@))) {
            (Some(b), Some(u)) => if normalized_base_url(b).len() > 0 && trim(u).len() > 0 {
                r matches Some(c) && c.base_url@ == normalized_base_url(b) && c.username@ == trim(u)
                    && c.service@ == picked_service(
                    match j_str(field(*v, "service"@)) {
                        Some(s) => s,
                        None => Seq::empty(),
                    },
                )
            } else {
                r is None
            },
            _ => r is None,
        },
{
    let base = match as_str(get(v, "baseUrl")) {
        Some(b) => b,
        None => return None,
    };
    let base_url = normalize_base_url(base.as_str());
    if base_url.as_str().is_empty() {
        return None;
    }
    let user = match as_str(get(v, "username")) {
        Some(u) => u,
        None => return None,
    };
    let username = trim_str(user.as_str());
    if username.as_str().is_empty() {
        return None;
    }
    let service = match as_str(get(v, "service")) {
        Some(s) => pick_service(s.as_str()),
        None => {
            proof {
                reveal_strlit("");
            }
            pick_service("")
        },
    };
    Some(SavedConfig { base_url, username, service })
}

} // verus!
