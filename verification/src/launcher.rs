//! The rules by which the launcher prepares the environment of the greeter.

use crate::launch::copy_list;
use crate::logdir::opt_view;
use crate::state::PersistedState;
use crate::text::{
    begins_with, blank, chars_of, contains, is_blank, occurs, pieces, same_text, split,
    split_words, starts_with, words,
};
use vstd::prelude::*;

verus! {

/// Splits a text into the words between its white space.
pub fn split_args(raw: &str) -> (out: Vec<String>)
    ensures
        out.deep_view() == words(raw@),
{
    split_words(raw)
}

/// The arguments of the kiosk: `-s`, then those of the environment where it
/// names any, else those of the configuration.
pub open spec fn cage_args_of(
    from_env: Option<Seq<char>>,
    configured: Seq<Seq<char>>,
) -> Seq<Seq<char>> {
    let extra = match from_env {
        Some(raw) if words(raw).len() > 0 => words(raw),
        _ => configured,
    };
    seq!["-s"@] + extra
}

/// The arguments of the kiosk.
pub fn build_cage_args(from_env: Option<&str>, configured: &Vec<String>) -> (out: Vec<String>)
    ensures
        out.deep_view() == cage_args_of(
            match from_env {
                Some(raw) => Some(raw@),
                None => None,
            },
            configured.deep_view(),
        ),
{
    let mut out: Vec<String> = Vec::new();
    out.push("-s".to_owned());
    assert(out.deep_view() =~= seq!["-s"@]);
    let mut extra: Vec<String> = match from_env {
        Some(raw) => split_words(raw),
        None => Vec::new(),
    };
    if extra.len() == 0 {
        extra = copy_list(configured);
    }
    let ghost head = out.deep_view();
    let ghost tail = extra.deep_view();
    out.append(&mut extra);
    assert(out.deep_view() =~= head + tail);
    out
}

// ---------------------------------------------------------------------------
// The environment that is passed on
// ---------------------------------------------------------------------------

/// The variables that are passed on to the kiosk: those of the greeter, of
/// the desktop and of the graphics stack by the beginning of their names, and
/// a few by their whole name.
pub open spec fn passed_on(key: Seq<char>) -> bool {
    ||| begins_with(key, "TISS_GREETD_"@)
    ||| begins_with(key, "XDG_"@)
    ||| begins_with(key, "WAYLAND_"@)
    ||| begins_with(key, "QT_"@)
    ||| begins_with(key, "QML_"@)
    ||| begins_with(key, "MESA_"@)
    ||| begins_with(key, "WLR_"@)
    ||| begins_with(key, "XKB_"@)
    ||| begins_with(key, "LC_"@)
    ||| key == "PATH"@
    ||| key == "HOME"@
    ||| key == "USER"@
    ||| key == "LOGNAME"@
    ||| key == "SHELL"@
    ||| key == "TERM"@
    ||| key == "LANG"@
    ||| key == "DISPLAY"@
    ||| key == "GREETD_SOCK"@
    ||| key == "LIBSEAT_BACKEND"@
}

/// Whether a variable of this name is passed on to the kiosk.
pub fn env_allowed(key: &str) -> (b: bool)
    ensures
        b == passed_on(key@),
{
    let k = chars_of(key);
    if starts_with(&k, "TISS_GREETD_") || starts_with(&k, "XDG_") || starts_with(&k, "WAYLAND_")
        || starts_with(&k, "QT_") || starts_with(&k, "QML_") || starts_with(&k, "MESA_")
        || starts_with(&k, "WLR_") || starts_with(&k, "XKB_") || starts_with(&k, "LC_") {
        return true;
    }
    same_text(key, "PATH") || same_text(key, "HOME") || same_text(key, "USER") || same_text(
        key,
        "LOGNAME",
    ) || same_text(key, "SHELL") || same_text(key, "TERM") || same_text(key, "LANG") || same_text(
        key,
        "DISPLAY",
    ) || same_text(key, "GREETD_SOCK") || same_text(key, "LIBSEAT_BACKEND")
}

/// A variable counts as missing where it is not set or its value is blank.
pub open spec fn missing(current: Option<Seq<char>>) -> bool {
    match current {
        Some(value) => blank(value),
        None => true,
    }
}

/// Whether a variable counts as missing.
pub fn env_missing(current: Option<&str>) -> (b: bool)
    ensures
        b == missing(opt_view(current)),
{
    match current {
        Some(value) => is_blank(value),
        None => true,
    }
}

/// Whether a variable is to be set to a value: where it is missing and the
/// value is there and not blank.
pub fn set_env_if_missing(current: Option<&str>, value: Option<&str>) -> (b: bool)
    ensures
        b == (missing(opt_view(current)) && !missing(
            opt_view(value),
        )),
{
    env_missing(current) && !env_missing(value)
}

/// The directories of a search path: its pieces between colons, without the
/// empty ones.
pub open spec fn search_dirs_of(list: Seq<Seq<char>>) -> Seq<Seq<char>>
    decreases list.len(),
{
    if list.len() == 0 {
        Seq::empty()
    } else if list.last().len() == 0 {
        search_dirs_of(list.drop_last())
    } else {
        search_dirs_of(list.drop_last()).push(list.last())
    }
}

/// The directories in which a program is looked for.
pub fn search_dirs(path: &str) -> (out: Vec<String>)
    ensures
        out.deep_view() == search_dirs_of(pieces(path@, ':')),
{
    let all = split(path, ':');
    let ghost list = all.deep_view();
    let mut out: Vec<String> = Vec::new();
    assert(list.take(0) == Seq::<Seq<char>>::empty());
    assert(out.deep_view() =~= Seq::<Seq<char>>::empty());
    for dir in it: all
        invariant
            list.len() == it.seq().len(),
            forall|k: int| 0 <= k < list.len() ==> list[k] == (#[trigger] it.seq()[k])@,
            out.deep_view() == search_dirs_of(list.take(it.index() as int)),
    {
        let ghost upto = list.take(it.index() + 1);
        assert(upto.drop_last() == list.take(it.index() as int));
        assert(upto.last() == dir@);
        if !dir.as_str().is_empty() {
            let ghost prev = out.deep_view();
            out.push(dir);
            assert(out.deep_view() =~= prev.push(dir@));
        }
    }
    assert(list.take(list.len() as int) == list);
    out
}

/// Whether a program is named by a path, not by its bare name.
pub fn names_a_path(program: &str) -> (b: bool)
    ensures
        b == occurs(program@, seq!['/']),
{
    let v = chars_of(program);
    let slash = chars_of("/");
    proof {
        reveal_strlit("/");
        assert("/"@ =~= seq!['/']);
    }
    contains(&v, &slash)
}

// ---------------------------------------------------------------------------
// What is remembered and what is offered
// ---------------------------------------------------------------------------

/// The session that was selected last: the one the environment names, where
/// it names one, else the one the persisted record remembers.
pub open spec fn last_session_of(
    from_env: Option<Seq<char>>,
    remembered: Option<Seq<char>>,
) -> Option<Seq<char>> {
    match from_env {
        Some(id) if !blank(id) => Some(id),
        _ => remembered,
    }
}

/// The session that was selected last.
pub fn last_session(from_env: Option<&str>, state: &PersistedState) -> (id: Option<String>)
    ensures
        crate::frame::text_of(id) == last_session_of(
            opt_view(from_env),
            crate::frame::text_of(state.last_session_id),
        ),
{
    match from_env {
        Some(id) => {
            if !is_blank(id) {
                return Some(id.to_owned());
            }
        },
        None => {},
    }
    match &state.last_session_id {
        Some(id) => Some(id.clone()),
        None => None,
    }
}

/// Whether a locale is on offer: every locale is where the list of those on
/// offer is empty.
pub fn locale_offered(available: &Vec<String>, locale: &str) -> (b: bool)
    ensures
        b == (available.len() == 0 || available.deep_view().contains(locale@)),
{
    available.len() == 0 || crate::settings::has_name(available, locale)
}

/// The seat backend: the configured one where it is not blank; else `seatd`
/// where its socket is there, else `logind`.
pub open spec fn seat_backend_of(configured: Option<Seq<char>>, seatd_socket: bool) -> Seq<char> {
    match configured {
        Some(name) if !blank(name) => name,
        _ => if seatd_socket {
            "seatd"@
        } else {
            "logind"@
        },
    }
}

/// Chooses the seat backend.
pub fn seat_backend(configured: Option<&str>, seatd_socket: bool) -> (name: String)
    ensures
        name@ == seat_backend_of(opt_view(configured), seatd_socket),
{
    match configured {
        Some(name) => {
            if !is_blank(name) {
                return name.to_owned();
            }
        },
        None => {},
    }
    if seatd_socket {
        "seatd".to_owned()
    } else {
        "logind".to_owned()
    }
}

} // verus!
