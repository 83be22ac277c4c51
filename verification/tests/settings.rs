use tiss_greetd::settings::{
    auth_timeout, default_command, default_command_from, has_name, load_power_actions,
    load_power_allowed_states, load_profiles, load_sessions, normalise, normalise_all,
    poll_millis, power_actions_from, power_states_from, read_string_list, time_left,
    write_string_list, ProfileEntry, SessionListEntry, Settings,
};

fn names(list: &[&str]) -> Vec<String> {
    list.iter().map(|s| s.to_string()).collect()
}

fn session(id: &str, command: &[&str]) -> SessionListEntry {
    SessionListEntry { id: id.to_string(), command: names(command) }
}

fn profile(id: &str, session: &str) -> ProfileEntry {
    ProfileEntry { id: id.to_string(), session: session.to_string(), env: vec![] }
}

#[test]
fn names_are_normalised() {
    assert_eq!(normalise("  PowerOff "), "poweroff");
    assert_eq!(normalise("reboot"), "reboot");
    assert_eq!(normalise("  "), "");
    assert_eq!(normalise("Ärger"), "Ärger");
    assert_eq!(
        normalise_all(&names(&[" Idle", "", "AUTH ", "  ", "error"])),
        names(&["idle", "auth", "error"])
    );
    assert_eq!(normalise_all(&Vec::new()), Vec::<String>::new());
}

#[test]
fn names_are_looked_up() {
    let list = names(&["poweroff", "reboot"]);
    assert!(has_name(&list, "reboot"));
    assert!(has_name(&list, "poweroff"));
    assert!(!has_name(&list, "suspend"));
    assert!(!has_name(&list, "Reboot"));
    assert!(!has_name(&Vec::new(), ""));
}

#[test]
fn string_lists_are_read_from_json() {
    assert_eq!(read_string_list("[\"a\",\"b\"]"), Some(names(&["a", "b"])));
    assert_eq!(read_string_list(" [ ] "), Some(vec![]));
    assert_eq!(read_string_list("[\"caf\\u00e9\"]"), Some(names(&["café"])));
    assert_eq!(read_string_list("[1]"), None);
    assert_eq!(read_string_list("{\"a\":1}"), None);
    assert_eq!(read_string_list("[\"a\""), None);
    assert_eq!(read_string_list(""), None);
    assert_eq!(read_string_list("[\"a\"] x"), None);
}

#[test]
fn power_actions_are_loaded() {
    assert_eq!(
        load_power_actions("[\"PowerOff\", \" reboot \", \"\", \"  \"]"),
        names(&["poweroff", "reboot"])
    );
    assert_eq!(load_power_actions(""), Vec::<String>::new());
    assert_eq!(load_power_actions("   "), Vec::<String>::new());
    assert_eq!(load_power_actions("not json"), Vec::<String>::new());
    assert_eq!(load_power_actions("[]"), Vec::<String>::new());
    assert_eq!(power_actions_from(" ", Some(names(&["reboot"]))), Vec::<String>::new());
    assert_eq!(power_actions_from("x", Some(names(&["Reboot"]))), names(&["reboot"]));
    assert_eq!(power_actions_from("x", None), Vec::<String>::new());
}

#[test]
fn power_states_default_to_idle() {
    assert_eq!(load_power_allowed_states(""), names(&["idle"]));
    assert_eq!(load_power_allowed_states(" \n"), names(&["idle"]));
    assert_eq!(load_power_allowed_states("{"), names(&["idle"]));
    assert_eq!(load_power_allowed_states("[\"Idle\",\"ERROR\"]"), names(&["idle", "error"]));
    assert_eq!(load_power_allowed_states("[]"), Vec::<String>::new());
    assert_eq!(load_power_allowed_states("[\" \"]"), Vec::<String>::new());
    assert_eq!(power_states_from("", Some(names(&["auth"]))), names(&["idle"]));
    assert_eq!(power_states_from("x", None), names(&["idle"]));
}

#[test]
fn default_command_falls_back_to_niri() {
    assert_eq!(default_command(None), names(&["niri"]));
    assert_eq!(default_command(Some("")), names(&["niri"]));
    assert_eq!(default_command(Some("[]")), names(&["niri"]));
    assert_eq!(default_command(Some("oops")), names(&["niri"]));
    assert_eq!(
        default_command(Some("[\"sway\",\"--unsupported-gpu\"]")),
        names(&["sway", "--unsupported-gpu"])
    );
    assert_eq!(default_command_from(None), names(&["niri"]));
    assert_eq!(default_command_from(Some(vec![])), names(&["niri"]));
    assert_eq!(default_command_from(Some(names(&["cage"]))), names(&["cage"]));
}

#[test]
fn unusable_sessions_are_dropped() {
    let kept = load_sessions(vec![
        session("niri", &["niri", "--session"]),
        session("", &["x"]),
        session("  ", &["x"]),
        session("sway", &[]),
        session("niri", &["niri"]),
    ]);
    assert_eq!(kept, vec![session("niri", &["niri", "--session"]), session("niri", &["niri"])]);
    assert_eq!(load_sessions(vec![]), vec![]);
}

#[test]
fn unusable_profiles_are_dropped() {
    let kept = load_profiles(vec![profile("work", "niri"), profile(" ", "x"), profile("home", "")]);
    assert_eq!(kept, vec![profile("work", "niri"), profile("home", "")]);
}

#[test]
fn of_two_entries_with_one_identifier_the_later_counts() {
    let cfg = Settings {
        sessions: vec![
            session("niri", &["old"]),
            session("sway", &["sway"]),
            session("niri", &["new"]),
        ],
        profiles: vec![profile("p", "first"), profile("p", "second"), profile("q", "third")],
        default_command: vec![],
        power_actions: vec![],
        power_allowed_states: vec![],
    };
    assert_eq!(cfg.find_session("niri"), Some(2));
    assert_eq!(cfg.find_session("sway"), Some(1));
    assert_eq!(cfg.find_session("gnome"), None);
    assert_eq!(cfg.find_profile("p"), Some(1));
    assert_eq!(cfg.find_profile("q"), Some(2));
    assert_eq!(cfg.find_profile(""), None);
}

#[test]
fn prompt_timeout() {
    assert_eq!(auth_timeout("30"), Some(30));
    assert_eq!(auth_timeout(" 30\n"), Some(30));
    assert_eq!(auth_timeout("+5"), Some(5));
    assert_eq!(auth_timeout("0"), None);
    assert_eq!(auth_timeout(""), None);
    assert_eq!(auth_timeout("   "), None);
    assert_eq!(auth_timeout("soon"), None);
    assert_eq!(auth_timeout("-3"), None);
    assert_eq!(auth_timeout("1.5"), None);
    assert_eq!(auth_timeout("18446744073709551615"), Some(u64::MAX));
    assert_eq!(auth_timeout("18446744073709551616"), None);
}

#[test]
fn string_lists_are_written_as_json() {
    assert_eq!(write_string_list(&names(&["niri", "--session"])), Some("[\"niri\",\"--session\"]".to_string()));
    assert_eq!(write_string_list(&vec![]), Some("[]".to_string()));
    assert_eq!(
        write_string_list(&names(&["a \"b\"", "tab\there", "é"])),
        Some("[\"a \\\"b\\\"\",\"tab\\there\",\"é\"]".to_string())
    );
}

#[test]
fn what_is_written_is_read_back_as_the_same_list() {
    for list in [names(&[]), names(&["a"]), names(&["a b", "", "\"quoted\"", "line\nfeed", "ü"])] {
        let text = write_string_list(&list).unwrap();
        assert_eq!(read_string_list(&text), Some(list));
    }
}

#[test]
fn the_time_left_runs_out() {
    assert_eq!(time_left(30_000_000_000, 0), Some(30_000_000_000));
    assert_eq!(time_left(30_000_000_000, 29_999_999_999), Some(1));
    assert_eq!(time_left(30_000_000_000, 30_000_000_000), None);
    assert_eq!(time_left(30_000_000_000, 31_000_000_000), None);
    assert_eq!(time_left(0, 0), None);
    assert_eq!(time_left(u128::MAX, 1), Some(u128::MAX - 1));
}

#[test]
fn the_wait_is_in_whole_milliseconds() {
    assert_eq!(poll_millis(0), 0);
    assert_eq!(poll_millis(999_999), 0);
    assert_eq!(poll_millis(1_000_000), 1);
    assert_eq!(poll_millis(1_500_000_000), 1500);
    assert_eq!(poll_millis(2_147_483_647_000_000), i32::MAX);
    assert_eq!(poll_millis(2_147_483_646_999_999), i32::MAX - 1);
    assert_eq!(poll_millis(u128::MAX), i32::MAX);
}
