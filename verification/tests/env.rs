use tiss_greetd::env::{key_order, value_of, EnvMap, KeyOrder};
use tiss_greetd::launch::{build_env, copy_list};

fn pair(k: &str, v: &str) -> (String, String) {
    (k.to_string(), v.to_string())
}

#[test]
fn names_are_ordered_by_their_bytes() {
    assert_eq!(key_order("A", "B"), KeyOrder::Before);
    assert_eq!(key_order("B", "A"), KeyOrder::After);
    assert_eq!(key_order("LANG", "LANG"), KeyOrder::Same);
    assert_eq!(key_order("", ""), KeyOrder::Same);
    assert_eq!(key_order("", "A"), KeyOrder::Before);
    assert_eq!(key_order("LC", "LC_ALL"), KeyOrder::Before);
    assert_eq!(key_order("LC_ALL", "LC"), KeyOrder::After);
    assert_eq!(key_order("Z", "a"), KeyOrder::Before);
    assert_eq!(key_order("z", "é"), KeyOrder::Before);
}

#[test]
fn key_order_agrees_with_the_order_of_str() {
    let names = ["", "A", "AB", "B", "a", "é", "z", "XDG_A", "XDG_", "\u{10000}", "\u{ffff}"];
    for a in names {
        for b in names {
            let expected = match a.cmp(b) {
                std::cmp::Ordering::Less => KeyOrder::Before,
                std::cmp::Ordering::Equal => KeyOrder::Same,
                std::cmp::Ordering::Greater => KeyOrder::After,
            };
            assert_eq!(key_order(a, b), expected);
        }
    }
}

#[test]
fn insert_keeps_the_names_in_order() {
    let mut map = EnvMap::new();
    assert!(map.is_empty());
    map.insert("M".to_string(), "1".to_string());
    map.insert("Z".to_string(), "2".to_string());
    map.insert("A".to_string(), "3".to_string());
    map.insert("N".to_string(), "4".to_string());
    assert_eq!(map.len(), 4);
    assert_eq!(map.to_lines(), vec!["A=3", "M=1", "N=4", "Z=2"]);
    assert_eq!(map.entry(0), ("A", "3"));
    assert_eq!(map.entry(3), ("Z", "2"));
}

#[test]
fn insert_replaces_the_value_of_a_name() {
    let mut map = EnvMap::new();
    map.insert("LANG".to_string(), "C".to_string());
    map.insert("HOME".to_string(), "/root".to_string());
    map.insert("LANG".to_string(), "de_DE.UTF-8".to_string());
    assert_eq!(map.len(), 2);
    assert_eq!(map.to_lines(), vec!["HOME=/root", "LANG=de_DE.UTF-8"]);
}

#[test]
fn extend_sets_every_pair_in_turn() {
    let mut map = EnvMap::new();
    map.insert("B".to_string(), "old".to_string());
    map.extend(vec![pair("C", "1"), pair("B", "new"), pair("A", "2"), pair("C", "3")]);
    assert_eq!(map.to_lines(), vec!["A=2", "B=new", "C=3"]);
    assert_eq!(map.into_pairs(), vec![pair("A", "2"), pair("B", "new"), pair("C", "3")]);
}

#[test]
fn value_of_finds_the_first_pair() {
    let pairs = vec![pair("bg", "#000000"), pair("fg", "#ffffff"), pair("bg", "#111111")];
    assert_eq!(value_of(&pairs, "bg"), Some("#000000"));
    assert_eq!(value_of(&pairs, "fg"), Some("#ffffff"));
    assert_eq!(value_of(&pairs, "accent"), None);
    assert_eq!(value_of(&Vec::new(), "bg"), None);
}

#[test]
fn build_env_starts_from_the_defaults() {
    assert_eq!(
        build_env(vec![]),
        vec![
            "XDG_CURRENT_DESKTOP=niri",
            "XDG_SESSION_CLASS=user",
            "XDG_SESSION_DESKTOP=niri",
            "XDG_SESSION_TYPE=wayland",
        ]
    );
}

#[test]
fn build_env_overlays_and_sorts() {
    assert_eq!(
        build_env(vec![
            pair("XDG_SESSION_TYPE", "x11"),
            pair("LANG", "C"),
            pair("ZED", "1"),
            pair("LANG", "fr_FR.UTF-8"),
        ]),
        vec![
            "LANG=fr_FR.UTF-8",
            "XDG_CURRENT_DESKTOP=niri",
            "XDG_SESSION_CLASS=user",
            "XDG_SESSION_DESKTOP=niri",
            "XDG_SESSION_TYPE=x11",
            "ZED=1",
        ]
    );
}

#[test]
fn build_env_passes_over_blank_names() {
    assert_eq!(
        build_env(vec![pair("", "a"), pair("  ", "b"), pair("\t", "c"), pair(" K ", "d")]),
        vec![
            " K =d",
            "XDG_CURRENT_DESKTOP=niri",
            "XDG_SESSION_CLASS=user",
            "XDG_SESSION_DESKTOP=niri",
            "XDG_SESSION_TYPE=wayland",
        ]
    );
}

#[test]
fn build_env_does_not_depend_on_the_order_of_different_names() {
    let one = build_env(vec![pair("A", "1"), pair("B", "2"), pair("C", "3")]);
    let other = build_env(vec![pair("C", "3"), pair("A", "1"), pair("B", "2")]);
    assert_eq!(one, other);
}

#[test]
fn copy_list_copies() {
    let list = vec!["niri".to_string(), "--session".to_string()];
    assert_eq!(copy_list(&list), list);
    assert_eq!(copy_list(&Vec::new()), Vec::<String>::new());
}

#[test]
fn a_copy_holds_the_same_variables() {
    let mut map = EnvMap::new();
    map.insert("B".to_string(), "2".to_string());
    map.insert("A".to_string(), "1".to_string());
    let mut copy = map.clone();
    assert_eq!(copy, map);
    copy.insert("C".to_string(), "3".to_string());
    assert_eq!(map.to_lines(), vec!["A=1", "B=2"]);
    assert_eq!(copy.to_lines(), vec!["A=1", "B=2", "C=3"]);
}
