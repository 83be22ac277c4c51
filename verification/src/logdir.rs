//! Where the log files go.

use crate::text::{begins_with, blank, chars_of, is_blank, split, split_words, starts_with, string_of, words, pieces};
use vstd::prelude::*;

verus! {

/// What stands before the user identifiers in the status of a process.
pub open spec fn uid_label() -> Seq<char> {
    "Uid:"@
}

/// The first word of a text.
pub open spec fn first_word(s: Seq<char>) -> Option<Seq<char>> {
    if words(s).len() > 0 {
        Some(words(s)[0])
    } else {
        None
    }
}

/// The user identifier that the lines of a process status name: the first
/// word behind the label, in the first line that begins with the label.
pub open spec fn uid_in(lines: Seq<Seq<char>>) -> Option<Seq<char>>
    decreases lines.len(),
{
    if lines.len() == 0 {
        None
    } else if begins_with(lines[0], uid_label()) {
        first_word(lines[0].skip(uid_label().len() as int))
    } else {
        uid_in(lines.drop_first())
    }
}

/// Finds the user identifier in the status of a process.
pub fn read_uid(status: &str) -> (uid: Option<String>)
    ensures
        crate::frame::text_of(uid) == uid_in(pieces(status@, '\n')),
{
    let lines = split(status, '\n');
    let ghost all = lines.deep_view();
    let label = chars_of("Uid:");
    let mut i: usize = 0;
    assert(all.skip(0) == all);
    while i < lines.len()
        invariant
            i <= lines.len(),
            all == lines.deep_view(),
            all == pieces(status@, '\n'),
            label@ == uid_label(),
            uid_in(all) == uid_in(all.skip(i as int)),
        decreases lines.len() - i,
    {
        let ghost rest = all.skip(i as int);
        assert(rest[0] == all[i as int]);
        assert(rest.drop_first() == all.skip(i + 1));
        let line = chars_of(lines[i].as_str());
        if starts_with(&line, "Uid:") {
            let behind = string_of(&line, label.len(), line.len());
            assert(line@.subrange(label.len() as int, line.len() as int) == line@.skip(
                label.len() as int,
            ));
            let mut found = split_words(behind.as_str());
            if found.len() > 0 {
                let ghost list = found.deep_view();
                let first = found.swap_remove(0);
                assert(first@ == list[0]);
                return Some(first);
            }
            return None;
        }
        i += 1;
    }
    None
}

/// The directory for the log files: the configured one where it is not
/// blank; else one under `/tmp` named after the user identifier or, failing
/// that, after the user name where it is not blank; else `/tmp/tiss-greetd`.
pub open spec fn log_dir_of(
    configured: Option<Seq<char>>,
    uid: Option<Seq<char>>,
    user: Option<Seq<char>>,
) -> Seq<char> {
    match configured {
        Some(dir) if !blank(dir) => dir,
        _ => match uid {
            Some(id) => "/tmp/tiss-greetd-"@ + id,
            None => match user {
                Some(name) if !blank(name) => "/tmp/tiss-greetd-"@ + name,
                _ => "/tmp/tiss-greetd"@,
            },
        },
    }
}

/// An optional text as plain values.
pub open spec fn opt_view(o: Option<&str>) -> Option<Seq<char>> {
    match o {
        Some(s) => Some(s@),
        None => None,
    }
}

/// Chooses the directory for the log files.
pub fn default_log_dir(configured: Option<&str>, uid: Option<&str>, user: Option<&str>) -> (dir:
    String)
    ensures
        dir@ == log_dir_of(opt_view(configured), opt_view(uid), opt_view(user)),
{
    match configured {
        Some(dir) => {
            if !is_blank(dir) {
                return dir.to_owned();
            }
        },
        None => {},
    }
    match uid {
        Some(id) => {
            let mut dir = "/tmp/tiss-greetd-".to_owned();
            dir.append(id);
            return dir;
        },
        None => {},
    }
    match user {
        Some(name) => {
            if !is_blank(name) {
                let mut dir = "/tmp/tiss-greetd-".to_owned();
                dir.append(name);
                return dir;
            }
        },
        None => {},
    }
    "/tmp/tiss-greetd".to_owned()
}

} // verus!
