use std::path::PathBuf;
use tiss_greetd::config::{
    Config, Locales, Logging, Login, Paths, Power, Profile, Seat, Session, SessionEntry, Ui,
};
use tiss_greetd::env::EnvMap;

fn names(list: &[&str]) -> Vec<String> {
    list.iter().map(|s| s.to_string()).collect()
}

fn env(pairs: &[(&str, &str)]) -> EnvMap {
    let mut map = EnvMap::new();
    map.extend(pairs.iter().map(|(k, v)| (k.to_string(), v.to_string())).collect());
    map
}

fn some(s: &str) -> Option<String> {
    Some(s.to_string())
}

fn path(s: &str) -> Option<PathBuf> {
    Some(PathBuf::from(s))
}

#[test]
fn the_empty_configuration() {
    let c = Config::empty();
    assert_eq!(c, Config::default());
    assert_eq!(c.paths, Paths::empty());
    assert_eq!(c.login, Login::empty());
    assert_eq!(c.session, Session::empty());
    assert!(c.sessions.is_empty());
    assert!(c.profiles.is_empty());
    assert_eq!(c.locales, Locales::empty());
    assert_eq!(c.power, Power::empty());
    assert_eq!(c.logging, Logging::empty());
    assert_eq!(c.seat, Seat::empty());
    assert_eq!(c.ui, Ui::empty());
    assert_eq!(c.paths.backend, None);
    assert_eq!(c.ui.show_password_toggle, None);
}

#[test]
fn paths_of_the_other_go_first() {
    let base = Paths {
        backend: path("/usr/lib/backend"),
        qml_file: None,
        qml_uri: some("base"),
        theme_dir: path("/themes"),
        theme: None,
    };
    let other = Paths {
        backend: path("/opt/backend"),
        qml_file: path("/opt/Main.qml"),
        qml_uri: None,
        theme_dir: None,
        theme: some("dark"),
    };
    assert_eq!(
        base.merge(other),
        Paths {
            backend: path("/opt/backend"),
            qml_file: path("/opt/Main.qml"),
            qml_uri: some("base"),
            theme_dir: path("/themes"),
            theme: some("dark"),
        }
    );
}

#[test]
fn merging_with_nothing_changes_nothing() {
    let base = Paths {
        backend: path("/b"),
        qml_file: path("/q"),
        qml_uri: some("u"),
        theme_dir: path("/t"),
        theme: some("x"),
    };
    let same = Paths {
        backend: path("/b"),
        qml_file: path("/q"),
        qml_uri: some("u"),
        theme_dir: path("/t"),
        theme: some("x"),
    };
    assert_eq!(base.merge(Paths::empty()), same);
}

#[test]
fn login_logging_ui_merge() {
    let login = Login { default_user: some("alice"), lock_user: Some(true) }
        .merge(Login { default_user: None, lock_user: Some(false) });
    assert_eq!(login, Login { default_user: some("alice"), lock_user: Some(false) });

    let logging = Logging { dir: None, level: some("info") }
        .merge(Logging { dir: path("/var/log"), level: some("debug") });
    assert_eq!(logging, Logging { dir: path("/var/log"), level: some("debug") });

    let ui = Ui { show_password_toggle: Some(true) }.merge(Ui { show_password_toggle: None });
    assert_eq!(ui, Ui { show_password_toggle: Some(true) });
}

#[test]
fn session_variables_of_both_count() {
    let base = Session { command: names(&["niri"]), env: env(&[("A", "1"), ("B", "2")]) };
    let other = Session { command: vec![], env: env(&[("B", "3"), ("C", "4")]) };
    let merged = base.merge(other);
    assert_eq!(merged.command, names(&["niri"]));
    assert_eq!(merged.env.to_lines(), names(&["A=1", "B=3", "C=4"]));

    let base = Session { command: names(&["niri"]), env: EnvMap::new() };
    let other = Session { command: names(&["sway", "-d"]), env: EnvMap::new() };
    assert_eq!(base.merge(other).command, names(&["sway", "-d"]));
}

#[test]
fn seat_merges() {
    let base = Seat { backend: some("seatd"), cage_bin: None, cage_args: names(&["-d"]) };
    let other = Seat { backend: None, cage_bin: path("/usr/bin/cage"), cage_args: vec![] };
    assert_eq!(
        base.merge(other),
        Seat { backend: some("seatd"), cage_bin: path("/usr/bin/cage"), cage_args: names(&["-d"]) }
    );
    let base = Seat { backend: None, cage_bin: None, cage_args: names(&["-d"]) };
    let other = Seat { backend: some("logind"), cage_bin: None, cage_args: names(&["-m", "last"]) };
    assert_eq!(
        base.merge(other),
        Seat { backend: some("logind"), cage_bin: None, cage_args: names(&["-m", "last"]) }
    );
}

#[test]
fn locales_and_power_merge() {
    let locales = Locales { default: some("C"), available: names(&["C"]) }
        .merge(Locales { default: None, available: names(&["de_DE", "fr_FR"]) });
    assert_eq!(locales, Locales { default: some("C"), available: names(&["de_DE", "fr_FR"]) });

    let power = Power { enabled: names(&["poweroff"]), allowed_states: names(&["idle"]) }
        .merge(Power { enabled: vec![], allowed_states: names(&["idle", "error"]) });
    assert_eq!(
        power,
        Power { enabled: names(&["poweroff"]), allowed_states: names(&["idle", "error"]) }
    );
}

fn entry(name: &str) -> SessionEntry {
    SessionEntry { name: name.to_string(), command: names(&[name]), env: EnvMap::new() }
}

fn profile(id: &str) -> Profile {
    Profile { id: id.to_string(), name: id.to_string(), session: "niri".to_string(), env: EnvMap::new() }
}

#[test]
fn configurations_merge_part_by_part() {
    let mut system = Config::empty();
    system.paths.backend = path("/usr/lib/backend");
    system.login.default_user = some("guest");
    system.session = Session { command: names(&["niri"]), env: env(&[("A", "1")]) };
    system.sessions = vec![entry("niri"), entry("sway")];
    system.profiles = vec![profile("work")];
    system.seat.cage_args = names(&["-d"]);
    system.ui.show_password_toggle = Some(false);

    let mut user = Config::empty();
    user.paths.theme = some("dark");
    user.login.default_user = some("alice");
    user.session = Session { command: vec![], env: env(&[("A", "2"), ("Z", "9")]) };
    user.sessions = vec![entry("gnome")];
    user.logging.level = some("debug");
    user.power.enabled = names(&["reboot"]);

    let merged = system.merge(user);
    assert_eq!(merged.paths.backend, path("/usr/lib/backend"));
    assert_eq!(merged.paths.theme, some("dark"));
    assert_eq!(merged.login.default_user, some("alice"));
    assert_eq!(merged.session.command, names(&["niri"]));
    assert_eq!(merged.session.env.to_lines(), names(&["A=2", "Z=9"]));
    assert_eq!(merged.sessions, vec![entry("gnome")]);
    assert_eq!(merged.profiles, vec![profile("work")]);
    assert_eq!(merged.logging.level, some("debug"));
    assert_eq!(merged.seat.cage_args, names(&["-d"]));
    assert_eq!(merged.ui.show_password_toggle, Some(false));
    assert_eq!(merged.power.enabled, names(&["reboot"]));
}

#[test]
fn an_empty_list_of_the_other_keeps_the_list() {
    let mut base = Config::empty();
    base.sessions = vec![entry("niri")];
    let merged = base.merge(Config::empty());
    assert_eq!(merged.sessions, vec![entry("niri")]);
}
