use tiss_greetd::desktop::{
    parse_bool, parse_desktop_entry, parse_exec, session_offer, sort_offers, strip_field_codes,
    DesktopFields, SessionOffer,
};

fn names(list: &[&str]) -> Vec<String> {
    list.iter().map(|s| s.to_string()).collect()
}

#[test]
fn field_codes_are_removed() {
    assert_eq!(strip_field_codes("niri"), "niri");
    assert_eq!(strip_field_codes("%U"), "");
    assert_eq!(strip_field_codes("--file=%f"), "--file=");
    assert_eq!(strip_field_codes("100%%"), "100%");
    assert_eq!(strip_field_codes("%%%%"), "%%");
    assert_eq!(strip_field_codes("%%f"), "%f");
    assert_eq!(strip_field_codes("a%"), "a");
    assert_eq!(strip_field_codes("%"), "");
    assert_eq!(strip_field_codes("%ab%cd"), "bd");
    assert_eq!(strip_field_codes(""), "");
    assert_eq!(strip_field_codes("%é!"), "!");
}

#[test]
fn command_lines_are_split_into_words() {
    assert_eq!(parse_exec("niri --session"), names(&["niri", "--session"]));
    assert_eq!(parse_exec("  sway   \t -d "), names(&["sway", "-d"]));
    assert_eq!(parse_exec(""), Vec::<String>::new());
    assert_eq!(parse_exec("   "), Vec::<String>::new());
}

#[test]
fn quotes_keep_words_together() {
    assert_eq!(parse_exec("env \"A B\" 'C D'"), names(&["env", "A B", "C D"]));
    assert_eq!(parse_exec("a\"b c\"d"), names(&["ab cd"]));
    assert_eq!(parse_exec("\"it's\" 'say \"hi\"'"), names(&["it's", "say \"hi\""]));
    assert_eq!(parse_exec("\"unclosed word"), names(&["unclosed word"]));
    assert_eq!(parse_exec("\"\" ''"), Vec::<String>::new());
}

#[test]
fn a_backslash_takes_the_next_character_as_it_is() {
    assert_eq!(parse_exec("a\\ b c"), names(&["a b", "c"]));
    assert_eq!(parse_exec("\"a\\\"b\""), names(&["a\"b"]));
    assert_eq!(parse_exec("'a\\b'"), names(&["a\\b"]));
    assert_eq!(parse_exec("a\\\\b"), names(&["a\\b"]));
    assert_eq!(parse_exec("tail\\"), names(&["tail"]));
}

#[test]
fn field_codes_are_removed_from_every_word() {
    assert_eq!(parse_exec("firefox %u"), names(&["firefox"]));
    assert_eq!(parse_exec("app --name=%c %F 50%%"), names(&["app", "--name=", "50%"]));
    assert_eq!(parse_exec("%f %U"), Vec::<String>::new());
}

#[test]
fn truth_values() {
    for t in ["1", "true", "TRUE", "True", "yes", "YES", "yEs"] {
        assert!(parse_bool(t));
    }
    for f in ["", "0", "false", "no", "on", " true", "true ", "y", "11"] {
        assert!(!parse_bool(f));
    }
}

#[test]
fn a_desktop_entry_is_read() {
    let f = parse_desktop_entry(
        "# a session\n[Desktop Entry]\nName = Niri \nExec=niri --session\nTryExec=niri\nType=Application\n",
    );
    assert_eq!(
        f,
        DesktopFields {
            in_entry: true,
            name: Some("Niri".to_string()),
            exec_line: Some("niri --session".to_string()),
            hidden: false,
            nodisplay: false,
            try_exec: Some("niri".to_string()),
        }
    );
}

#[test]
fn only_the_desktop_entry_group_counts() {
    let f = parse_desktop_entry(
        "Name=Before\n[Other]\nName=Other\nExec=other\n[Desktop Entry]\nExec=right\n[Desktop Action x]\nExec=wrong\nHidden=true\n",
    );
    assert_eq!(f.name, None);
    assert_eq!(f.exec_line, Some("right".to_string()));
    assert!(!f.hidden);
    assert!(!f.in_entry);
}

#[test]
fn of_two_lines_for_a_field_the_later_counts() {
    let f = parse_desktop_entry("[Desktop Entry]\r\nName=One\r\nName=Two\r\nHidden=yes\r\nHidden=no\r\nNoDisplay=1\r\n");
    assert_eq!(f.name, Some("Two".to_string()));
    assert!(!f.hidden);
    assert!(f.nodisplay);
}

#[test]
fn lines_that_say_nothing_are_passed_over() {
    let f = parse_desktop_entry("[Desktop Entry]\n\n   \n#Exec=no\nno equals sign\nExec=a=b=c\n=value\nname=lower\n");
    assert_eq!(f.exec_line, Some("a=b=c".to_string()));
    assert_eq!(f.name, None);
    let empty = parse_desktop_entry("");
    assert_eq!(empty, DesktopFields::new());
}

#[test]
fn lines_are_taken_one_by_one() {
    let mut f = DesktopFields::new();
    f.take_line("Exec=early");
    assert_eq!(f.exec_line, None);
    f.take_line(" [Desktop Entry] ");
    assert!(f.in_entry);
    f.take_line("  Exec =  late  ");
    assert_eq!(f.exec_line, Some("late".to_string()));
    f.take_line("[x]");
    assert!(!f.in_entry);
}

#[test]
fn the_required_program_is_the_first_word_of_try_exec() {
    let mut f = DesktopFields::new();
    assert_eq!(f.try_exec_token(), None);
    f.try_exec = Some("\"/opt/my app/run\" --check %f".to_string());
    assert_eq!(f.try_exec_token(), Some("/opt/my app/run".to_string()));
    f.try_exec = Some("  %f ".to_string());
    assert_eq!(f.try_exec_token(), None);
}

fn entry(content: &str, found: bool) -> Option<SessionOffer> {
    session_offer(
        parse_desktop_entry(content),
        "niri",
        "wayland",
        "/usr/share/wayland-sessions/niri.desktop",
        found,
    )
}

#[test]
fn an_entry_offers_its_session() {
    assert_eq!(
        entry("[Desktop Entry]\nName=Niri\nExec=niri --session %U\n", false),
        Some(SessionOffer {
            id: "niri".to_string(),
            name: "Niri".to_string(),
            command: names(&["niri", "--session"]),
            session_type: "wayland".to_string(),
            desktop_file: "/usr/share/wayland-sessions/niri.desktop".to_string(),
        })
    );
}

#[test]
fn an_entry_without_a_name_goes_by_its_identifier() {
    let offer = entry("[Desktop Entry]\nExec=niri\n", true).unwrap();
    assert_eq!(offer.name, "niri");
    assert_eq!(offer.id, "niri");
}

#[test]
fn entries_that_offer_nothing() {
    assert_eq!(entry("[Desktop Entry]\nName=Niri\n", true), None);
    assert_eq!(entry("[Desktop Entry]\nExec=niri\nHidden=true\n", true), None);
    assert_eq!(entry("[Desktop Entry]\nExec=niri\nNoDisplay=yes\n", true), None);
    assert_eq!(entry("[Desktop Entry]\nExec=%U\n", true), None);
    assert_eq!(entry("[Desktop Entry]\nExec=\n", true), None);
    assert_eq!(entry("[Desktop Entry]\nExec=niri\nTryExec=niri\n", false), None);
    assert_eq!(entry("Exec=niri\n", true), None);
}

#[test]
fn a_required_program_counts_only_where_one_is_named() {
    assert!(entry("[Desktop Entry]\nExec=niri\nTryExec=niri\n", true).is_some());
    assert!(entry("[Desktop Entry]\nExec=niri\n", false).is_some());
    assert!(entry("[Desktop Entry]\nExec=niri\nTryExec=\n", false).is_some());
}

fn offer(id: &str, name: &str) -> SessionOffer {
    SessionOffer {
        id: id.to_string(),
        name: name.to_string(),
        command: names(&[id]),
        session_type: "wayland".to_string(),
        desktop_file: format!("/usr/share/wayland-sessions/{}.desktop", id),
    }
}

#[test]
fn offers_are_ordered_by_their_names_in_lowercase() {
    let sorted = sort_offers(vec![
        offer("sway", "Sway"),
        offer("niri", "niri"),
        offer("gnome", "GNOME"),
        offer("kde", "Plasma"),
        offer("cosmic", "cosmic"),
    ]);
    let ids: Vec<&str> = sorted.iter().map(|o| o.id.as_str()).collect();
    assert_eq!(ids, vec!["cosmic", "gnome", "niri", "kde", "sway"]);
}

#[test]
fn offers_with_one_name_keep_their_order() {
    let sorted = sort_offers(vec![
        offer("b", "Same"),
        offer("z", "zeta"),
        offer("a", "same"),
        offer("c", "SAME"),
        offer("y", "Alpha"),
    ]);
    let ids: Vec<&str> = sorted.iter().map(|o| o.id.as_str()).collect();
    assert_eq!(ids, vec!["y", "b", "a", "c", "z"]);
    assert_eq!(sort_offers(vec![]), vec![]);
}

#[test]
fn ordering_agrees_with_a_stable_sort() {
    let names = ["b", "A", "c", "a", "B", "É", "é", "", "Z"];
    let mut expected: Vec<SessionOffer> =
        names.iter().enumerate().map(|(i, n)| offer(&i.to_string(), n)).collect();
    let sorted = sort_offers(
        names.iter().enumerate().map(|(i, n)| offer(&i.to_string(), n)).collect(),
    );
    expected.sort_by(|a, b| a.name.to_lowercase().cmp(&b.name.to_lowercase()));
    assert_eq!(sorted, expected);
}
