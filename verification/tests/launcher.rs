use tiss_greetd::launcher::{
    build_cage_args, env_allowed, env_missing, last_session, locale_offered, names_a_path,
    search_dirs, seat_backend, set_env_if_missing, split_args,
};
use tiss_greetd::state::PersistedState;

fn names(list: &[&str]) -> Vec<String> {
    list.iter().map(|s| s.to_string()).collect()
}

#[test]
fn args_are_split_at_white_space() {
    assert_eq!(split_args(" -s  -d\t-m last "), names(&["-s", "-d", "-m", "last"]));
    assert_eq!(split_args("\"a b\""), names(&["\"a", "b\""]));
    assert_eq!(split_args(""), Vec::<String>::new());
}

#[test]
fn cage_args_come_from_the_environment_first() {
    let configured = names(&["-d"]);
    assert_eq!(build_cage_args(None, &configured), names(&["-s", "-d"]));
    assert_eq!(build_cage_args(Some("  "), &configured), names(&["-s", "-d"]));
    assert_eq!(build_cage_args(Some("-m last"), &configured), names(&["-s", "-m", "last"]));
    assert_eq!(build_cage_args(None, &vec![]), names(&["-s"]));
    assert_eq!(build_cage_args(Some(""), &vec![]), names(&["-s"]));
}

#[test]
fn variables_that_are_passed_on() {
    for key in [
        "TISS_GREETD_BACKEND",
        "TISS_GREETD_",
        "XDG_RUNTIME_DIR",
        "WAYLAND_DISPLAY",
        "QT_QPA_PLATFORM",
        "QML_DISABLE_DISK_CACHE",
        "MESA_SHADER_CACHE_DIR",
        "WLR_RENDERER",
        "XKB_DEFAULT_LAYOUT",
        "LC_ALL",
        "PATH",
        "HOME",
        "USER",
        "LOGNAME",
        "SHELL",
        "TERM",
        "LANG",
        "DISPLAY",
        "GREETD_SOCK",
        "LIBSEAT_BACKEND",
    ] {
        assert!(env_allowed(key), "{}", key);
    }
    for key in [
        "",
        "SSH_AUTH_SOCK",
        "LD_PRELOAD",
        "xdg_runtime_dir",
        "XDG",
        "PATHS",
        "MYPATH",
        "LANGUAGE",
        "QT",
        "TISS_GREETD",
        " PATH",
    ] {
        assert!(!env_allowed(key), "{}", key);
    }
}

#[test]
fn missing_variables() {
    assert!(env_missing(None));
    assert!(env_missing(Some("")));
    assert!(env_missing(Some("  ")));
    assert!(!env_missing(Some("x")));
    assert!(set_env_if_missing(None, Some("v")));
    assert!(set_env_if_missing(Some(" "), Some("v")));
    assert!(!set_env_if_missing(Some("old"), Some("v")));
    assert!(!set_env_if_missing(None, None));
    assert!(!set_env_if_missing(None, Some("  ")));
}

#[test]
fn search_path_directories() {
    assert_eq!(search_dirs("/usr/bin:/bin"), names(&["/usr/bin", "/bin"]));
    assert_eq!(search_dirs(":/usr/bin::/bin:"), names(&["/usr/bin", "/bin"]));
    assert_eq!(search_dirs(""), Vec::<String>::new());
    assert_eq!(search_dirs(":::"), Vec::<String>::new());
    assert!(names_a_path("/usr/bin/cage"));
    assert!(names_a_path("./cage"));
    assert!(!names_a_path("cage"));
    assert!(!names_a_path(""));
}

fn remembered(id: Option<&str>) -> PersistedState {
    PersistedState {
        last_session_id: id.map(|s| s.to_string()),
        last_profile_id: None,
        last_locale: None,
    }
}

#[test]
fn the_session_named_by_the_environment_goes_first() {
    assert_eq!(last_session(Some("sway"), &remembered(Some("niri"))), Some("sway".to_string()));
    assert_eq!(last_session(Some(" sway "), &remembered(None)), Some(" sway ".to_string()));
}

#[test]
fn the_remembered_session_stands_in() {
    assert_eq!(last_session(None, &remembered(Some("niri"))), Some("niri".to_string()));
    assert_eq!(last_session(Some(""), &remembered(Some("niri"))), Some("niri".to_string()));
    assert_eq!(last_session(Some(" \t"), &remembered(Some("niri"))), Some("niri".to_string()));
    assert_eq!(last_session(None, &remembered(None)), None);
    assert_eq!(last_session(Some(""), &remembered(None)), None);
}

#[test]
fn locales_on_offer() {
    assert!(locale_offered(&vec![], "de_DE.UTF-8"));
    assert!(locale_offered(&names(&["C", "de_DE.UTF-8"]), "de_DE.UTF-8"));
    assert!(!locale_offered(&names(&["C", "fr_FR.UTF-8"]), "de_DE.UTF-8"));
    assert!(!locale_offered(&names(&["C"]), "c"));
}

#[test]
fn the_seat_backend_is_chosen() {
    assert_eq!(seat_backend(Some("builtin"), true), "builtin");
    assert_eq!(seat_backend(Some("builtin"), false), "builtin");
    assert_eq!(seat_backend(Some("  "), true), "seatd");
    assert_eq!(seat_backend(Some(""), false), "logind");
    assert_eq!(seat_backend(None, true), "seatd");
    assert_eq!(seat_backend(None, false), "logind");
}
