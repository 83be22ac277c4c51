use tiss_greetd::phase::Phase;
use tiss_greetd::power::{power_error_code, power_gate, power_method, PowerVerdict};
use tiss_greetd::settings::Settings;

fn settings(actions: &[&str], states: &[&str]) -> Settings {
    Settings {
        sessions: vec![],
        profiles: vec![],
        default_command: vec![],
        power_actions: actions.iter().map(|s| s.to_string()).collect(),
        power_allowed_states: states.iter().map(|s| s.to_string()).collect(),
    }
}

fn refuse(code: &str, message: &str) -> PowerVerdict {
    PowerVerdict::Refuse { code: code.to_string(), message: message.to_string() }
}

#[test]
fn known_actions_have_their_methods() {
    assert_eq!(power_method("poweroff"), Some("PowerOff"));
    assert_eq!(power_method("reboot"), Some("Reboot"));
    assert_eq!(power_method("suspend"), Some("Suspend"));
    assert_eq!(power_method("hibernate"), None);
    assert_eq!(power_method("Reboot"), None);
    assert_eq!(power_method(""), None);
}

#[test]
fn failures_that_speak_of_permission_are_denials() {
    for text in [
        "org.freedesktop.DBus.Error.AccessDenied: no",
        "Interactive authentication required: NotAuthorized",
        "user is not authorized",
        "Permission denied",
        "blocked by Polkit",
    ] {
        assert_eq!(power_error_code(text), "power_denied");
    }
    for text in ["", "connection refused", "unknown power action: hibernate", "not  authorized"] {
        assert_eq!(power_error_code(text), "power_error");
    }
}

#[test]
fn an_enabled_action_in_an_allowed_phase_is_called() {
    let cfg = settings(&["poweroff", "reboot", "suspend"], &["idle", "error"]);
    assert_eq!(
        power_gate(Phase::Idle, "poweroff", &cfg),
        PowerVerdict::Call { method: "PowerOff", interactive: false }
    );
    assert_eq!(
        power_gate(Phase::Error, "  Reboot ", &cfg),
        PowerVerdict::Call { method: "Reboot", interactive: false }
    );
    assert_eq!(
        power_gate(Phase::Idle, "SUSPEND", &cfg),
        PowerVerdict::Call { method: "Suspend", interactive: false }
    );
}

#[test]
fn an_action_without_a_name_is_an_error() {
    let cfg = settings(&["poweroff"], &["idle"]);
    assert_eq!(power_gate(Phase::Idle, "", &cfg), refuse("power_error", "power action missing"));
    assert_eq!(power_gate(Phase::Auth, " \t", &cfg), refuse("power_error", "power action missing"));
}

#[test]
fn the_phase_is_checked_first() {
    let cfg = settings(&["poweroff"], &["idle"]);
    for (phase, name) in [
        (Phase::Auth, "auth"),
        (Phase::Waiting, "waiting"),
        (Phase::Success, "success"),
        (Phase::Error, "error"),
    ] {
        assert_eq!(
            power_gate(phase, "poweroff", &cfg),
            refuse("power_denied", &format!("power action not allowed during {}", name))
        );
        assert_eq!(
            power_gate(phase, "hibernate", &cfg),
            refuse("power_denied", &format!("power action not allowed during {}", name))
        );
    }
}

#[test]
fn an_action_that_is_not_enabled_is_denied() {
    let cfg = settings(&["reboot"], &["idle"]);
    assert_eq!(
        power_gate(Phase::Idle, " PowerOff ", &cfg),
        refuse("power_denied", "power action not allowed: poweroff")
    );
    let none = settings(&[], &["idle"]);
    assert_eq!(
        power_gate(Phase::Idle, "reboot", &none),
        refuse("power_denied", "power action not allowed: reboot")
    );
}

#[test]
fn an_enabled_action_that_is_unknown_fails() {
    let cfg = settings(&["hibernate", "permission"], &["idle"]);
    assert_eq!(
        power_gate(Phase::Idle, "hibernate", &cfg),
        refuse("power_error", "unknown power action: hibernate")
    );
    assert_eq!(
        power_gate(Phase::Idle, "permission", &cfg),
        refuse("power_denied", "unknown power action: permission")
    );
}

#[test]
fn power_during_auth_can_be_allowed() {
    let cfg = settings(&["poweroff"], &["idle", "auth"]);
    assert_eq!(
        power_gate(Phase::Auth, "poweroff", &cfg),
        PowerVerdict::Call { method: "PowerOff", interactive: false }
    );
}
