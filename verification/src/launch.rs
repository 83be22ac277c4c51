//! What an `auth` request launches: its command, its environment, and what is
//! remembered of it.

use crate::env::{lines, put_all, put_named, EnvMap, Pair};
use crate::frame::text_of;
use crate::machine::{
    chosen_profile, chosen_session, default_env, locale_env, no_launch, profile_env, resolved,
    session_command_line, LaunchView,
};
use crate::settings::Settings;
use crate::state::{select, StateUpdate};
use crate::text::is_blank;
use vstd::prelude::*;

verus! {

/// What a conversation launches once the credentials are accepted.
#[derive(Clone, Debug, PartialEq, Eq)]
pub struct Launch {
    pub command: Vec<String>,
    pub env: Vec<String>,
    pub update: StateUpdate,
}

impl View for Launch {
    type V = LaunchView;

    open spec fn view(&self) -> LaunchView {
        LaunchView {
            command: self.command.deep_view(),
            env: self.env.deep_view(),
            update: self.update@,
        }
    }
}

impl Launch {
    /// No command, no environment, nothing to remember.
    pub fn none() -> (l: Self)
        ensures
            l@ == no_launch(),
    {
        let l = Launch {
            command: Vec::new(),
            env: Vec::new(),
            update: StateUpdate { session_id: None, profile_id: None, locale: None },
        };
        assert(l.command.deep_view() =~= Seq::<Seq<char>>::empty());
        assert(l.env.deep_view() =~= Seq::<Seq<char>>::empty());
        l
    }
}

/// A copy of a list of strings.
pub fn copy_list(list: &Vec<String>) -> (out: Vec<String>)
    ensures
        out.deep_view() == list.deep_view(),
{
    let mut out: Vec<String> = Vec::new();
    let mut i: usize = 0;
    while i < list.len()
        invariant
            i <= list.len(),
            out.len() == i,
            forall|j: int| 0 <= j < i ==> out@[j]@ == list@[j]@,
        decreases list.len() - i,
    {
        out.push(list[i].clone());
        i += 1;
    }
    assert(out.deep_view() =~= list.deep_view());
    out
}

/// Appends copies of `pairs` to `out`.
fn append_pairs(out: &mut Vec<(String, String)>, pairs: &Vec<(String, String)>)
    ensures
        final(out).deep_view() == old(out).deep_view() + pairs.deep_view(),
{
    let ghost start = out.deep_view();
    let mut i: usize = 0;
    assert(pairs.deep_view().take(0) == Seq::<Pair>::empty());
    assert(start + Seq::<Pair>::empty() == start);
    while i < pairs.len()
        invariant
            i <= pairs.len(),
            out.deep_view() == start + pairs.deep_view().take(i as int),
        decreases pairs.len() - i,
    {
        let ghost prev = out.deep_view();
        let pair = (pairs[i].0.clone(), pairs[i].1.clone());
        out.push(pair);
        assert(out.deep_view() == prev.push((pairs[i as int].0@, pairs[i as int].1@)));
        assert(pairs.deep_view().take(i + 1) == pairs.deep_view().take(i as int).push(
            pairs.deep_view()[i as int],
        ));
        i += 1;
    }
    assert(pairs.deep_view().take(pairs.len() as int) == pairs.deep_view());
}

/// The variables that every session starts with.
fn default_env_map() -> (map: EnvMap)
    ensures
        map@ == default_env(),
{
    let mut map = EnvMap::new();
    let ghost pairs = seq![
        ("XDG_SESSION_TYPE"@, "wayland"@),
        ("XDG_SESSION_CLASS"@, "user"@),
        ("XDG_CURRENT_DESKTOP"@, "niri"@),
        ("XDG_SESSION_DESKTOP"@, "niri"@),
    ];
    map.insert("XDG_SESSION_TYPE".to_owned(), "wayland".to_owned());
    map.insert("XDG_SESSION_CLASS".to_owned(), "user".to_owned());
    map.insert("XDG_CURRENT_DESKTOP".to_owned(), "niri".to_owned());
    map.insert("XDG_SESSION_DESKTOP".to_owned(), "niri".to_owned());
    proof {
        reveal_with_fuel(put_all, 5);
        assert(pairs.drop_first().drop_first().drop_first().drop_first().len() == 0);
    }
    map
}

/// The environment of a session: the defaults overlaid by `overrides`, a
/// later pair overriding an earlier one and pairs with a blank name passed
/// over; as lines of the form `NAME=VALUE` in the order of the names.
pub fn build_env(overrides: Vec<(String, String)>) -> (out: Vec<String>)
    ensures
        out.deep_view() == lines(put_named(default_env(), overrides.deep_view())),
{
    let ghost all = overrides.deep_view();
    let mut map = default_env_map();
    assert(all.skip(0) == all);
    for pair in it: overrides
        invariant
            all.len() == it.seq().len(),
            forall|k: int| 0 <= k < all.len() ==> all[k] == (#[trigger] it.seq()[k]).deep_view(),
            put_named(map@, all.skip(it.index() as int)) == put_named(default_env(), all),
    {
        let ghost rest = all.skip(it.index() as int);
        assert(rest.drop_first() == all.skip(it.index() + 1));
        assert(rest[0] == all[it.index() as int]);
        if !is_blank(pair.0.as_str()) {
            map.insert(pair.0, pair.1);
        }
    }
    map.to_lines()
}

/// Works out what an `auth` request launches under a configuration.
pub fn resolve(
    cfg: &Settings,
    command: Vec<String>,
    env: Vec<(String, String)>,
    session_id: Option<String>,
    profile_id: Option<String>,
    locale: Option<String>,
) -> (launch: Launch)
    ensures
        launch@ == resolved(
            cfg@,
            command.deep_view(),
            env.deep_view(),
            text_of(session_id),
            text_of(profile_id),
            text_of(locale),
        ),
{
    let own_session = match &session_id {
        Some(id) => select(Some(id.as_str())),
        None => select(None),
    };
    let profile_name = match &profile_id {
        Some(id) => select(Some(id.as_str())),
        None => select(None),
    };
    let locale_name = match &locale {
        Some(name) => select(Some(name.as_str())),
        None => select(None),
    };
    let profile: Option<usize> = match &profile_name {
        Some(id) => cfg.find_profile(id.as_str()),
        None => None,
    };
    let session: Option<String> = match own_session {
        Some(id) => Some(id),
        None => match profile {
            Some(i) => select(Some(cfg.profiles[i].session.as_str())),
            None => None,
        },
    };
    assert(text_of(session) == chosen_session(cfg@, text_of(session_id), text_of(profile_id)));

    let named: Vec<String> = match &session {
        Some(id) => match cfg.find_session(id.as_str()) {
            Some(i) => copy_list(&cfg.sessions[i].command),
            None => Vec::new(),
        },
        None => Vec::new(),
    };
    let line = if command.len() > 0 {
        command
    } else if named.len() > 0 {
        named
    } else {
        copy_list(&cfg.default_command)
    };
    assert(line.deep_view() == session_command_line(cfg@, command.deep_view(), text_of(session)));

    let mut overrides: Vec<(String, String)> = Vec::new();
    assert(overrides.deep_view() =~= Seq::<Pair>::empty());
    match profile {
        Some(i) => {
            append_pairs(&mut overrides, &cfg.profiles[i].env);
        },
        None => {},
    }
    assert(overrides.deep_view() =~= profile_env(chosen_profile(cfg@, text_of(profile_id))));
    append_pairs(&mut overrides, &env);
    match &locale_name {
        Some(name) => {
            let ghost prev = overrides.deep_view();
            overrides.push(("LANG".to_owned(), name.clone()));
            overrides.push(("LC_ALL".to_owned(), name.clone()));
            assert(overrides.deep_view() =~= prev + locale_env(text_of(locale_name)));
        },
        None => {
            assert(overrides.deep_view() =~= overrides.deep_view() + locale_env(
                text_of(locale_name),
            ));
        },
    }
    let lines = build_env(overrides);
    Launch {
        command: line,
        env: lines,
        update: StateUpdate { session_id: session, profile_id: profile_name, locale: locale_name },
    }
}

} // verus!
