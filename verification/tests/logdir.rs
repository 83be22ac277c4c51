use tiss_greetd::logdir::{default_log_dir, read_uid};

#[test]
fn the_uid_is_found_in_the_status() {
    let status = "Name:\tbackend\nUmask:\t0022\nUid:\t1000\t1000\t1000\t1000\nGid:\t100\t100\n";
    assert_eq!(read_uid(status), Some("1000".to_string()));
    assert_eq!(read_uid("Uid: 0 0 0 0"), Some("0".to_string()));
    assert_eq!(read_uid("Uid:42"), Some("42".to_string()));
}

#[test]
fn the_first_line_with_the_label_decides() {
    assert_eq!(read_uid("Uid:\nUid:\t7\n"), None);
    assert_eq!(read_uid("Uid:\t7\nUid:\t8\n"), Some("7".to_string()));
    assert_eq!(read_uid("x\nUid:   \t \n"), None);
}

#[test]
fn a_status_without_the_label_names_no_uid() {
    assert_eq!(read_uid(""), None);
    assert_eq!(read_uid("Name:\tx\nGid:\t1\n"), None);
    assert_eq!(read_uid(" Uid:\t1\n"), None);
    assert_eq!(read_uid("uid:\t1\n"), None);
    assert_eq!(read_uid("PUid:\t1\n"), None);
}

#[test]
fn the_configured_directory_goes_first() {
    assert_eq!(default_log_dir(Some("/var/log/greeter"), Some("1000"), Some("alice")), "/var/log/greeter");
    assert_eq!(default_log_dir(Some(" /x "), None, None), " /x ");
}

#[test]
fn the_uid_names_the_directory_next() {
    assert_eq!(default_log_dir(None, Some("1000"), Some("alice")), "/tmp/tiss-greetd-1000");
    assert_eq!(default_log_dir(Some(""), Some("0"), None), "/tmp/tiss-greetd-0");
    assert_eq!(default_log_dir(Some("  "), Some("0"), None), "/tmp/tiss-greetd-0");
}

#[test]
fn the_user_name_stands_in_for_the_uid() {
    assert_eq!(default_log_dir(None, None, Some("alice")), "/tmp/tiss-greetd-alice");
}

#[test]
fn the_last_resort() {
    assert_eq!(default_log_dir(None, None, None), "/tmp/tiss-greetd");
    assert_eq!(default_log_dir(Some(""), None, Some("  ")), "/tmp/tiss-greetd");
}
