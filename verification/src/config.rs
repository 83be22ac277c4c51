//! The configuration file of the greeter and the merging of two of them.

use crate::env::{put_all, EnvMap};
use std::path::PathBuf;
use vstd::prelude::*;

verus! {

/// A path of the file system.
#[verifier::external_type_specification]
#[verifier::external_body]
pub struct ExPathBuf(PathBuf);

/// The first value where there is one, else the second.
pub open spec fn or_else<T>(first: Option<T>, second: Option<T>) -> Option<T> {
    if first is Some {
        first
    } else {
        second
    }
}

/// The first list where it is not empty, else the second.
pub open spec fn non_empty_or<T>(first: Vec<T>, second: Vec<T>) -> Vec<T> {
    if first@.len() > 0 {
        first
    } else {
        second
    }
}

fn pick<T>(first: Option<T>, second: Option<T>) -> (r: Option<T>)
    ensures
        r == or_else(first, second),
{
    match first {
        Some(value) => Some(value),
        None => second,
    }
}

fn pick_list<T>(first: Vec<T>, second: Vec<T>) -> (r: Vec<T>)
    ensures
        r == non_empty_or(first, second),
{
    if first.len() > 0 {
        first
    } else {
        second
    }
}

/// Where the parts of the greeter are found.
#[derive(Clone, Debug, PartialEq, Eq)]
pub struct Paths {
    pub backend: Option<PathBuf>,
    pub qml_file: Option<PathBuf>,
    pub qml_uri: Option<String>,
    pub theme_dir: Option<PathBuf>,
    pub theme: Option<String>,
}

/// Who logs in.
#[derive(Clone, Debug, PartialEq, Eq)]
pub struct Login {
    pub default_user: Option<String>,
    pub lock_user: Option<bool>,
}

/// The session that is launched by default.
#[derive(Clone, Debug, PartialEq, Eq)]
pub struct Session {
    pub command: Vec<String>,
    pub env: EnvMap,
}

/// A session that is offered by name.
#[derive(Clone, Debug, PartialEq, Eq)]
pub struct SessionEntry {
    pub name: String,
    pub command: Vec<String>,
    pub env: EnvMap,
}

/// Where and how much is logged.
#[derive(Clone, Debug, PartialEq, Eq)]
pub struct Logging {
    pub dir: Option<PathBuf>,
    pub level: Option<String>,
}

/// How the seat is reached and the kiosk run.
#[derive(Clone, Debug, PartialEq, Eq)]
pub struct Seat {
    pub backend: Option<String>,
    pub cage_bin: Option<PathBuf>,
    pub cage_args: Vec<String>,
}

/// What the user interface shows.
#[derive(Clone, Debug, PartialEq, Eq)]
pub struct Ui {
    pub show_password_toggle: Option<bool>,
}

/// A named choice of session and environment.
#[derive(Clone, Debug, PartialEq, Eq)]
pub struct Profile {
    pub id: String,
    pub name: String,
    pub session: String,
    pub env: EnvMap,
}

/// The locales on offer.
#[derive(Clone, Debug, PartialEq, Eq)]
pub struct Locales {
    pub default: Option<String>,
    pub available: Vec<String>,
}

/// The power actions on offer and the phases in which they are.
#[derive(Clone, Debug, PartialEq, Eq)]
pub struct Power {
    pub enabled: Vec<String>,
    pub allowed_states: Vec<String>,
}

/// The configuration of the greeter.
#[derive(Clone, Debug, PartialEq, Eq)]
pub struct Config {
    pub paths: Paths,
    pub login: Login,
    pub session: Session,
    pub sessions: Vec<SessionEntry>,
    pub profiles: Vec<Profile>,
    pub locales: Locales,
    pub power: Power,
    pub logging: Logging,
    pub seat: Seat,
    pub ui: Ui,
}

impl Locales {
    /// Nothing configured.
    pub fn empty() -> (l: Self)
        ensures
            l.default is None,
            l.available@.len() == 0,
    {
        Locales { default: None, available: Vec::new() }
    }

    /// What both configure, `other` going first.
    pub open spec fn merged(self, other: Locales) -> Locales {
        Locales {
            default: or_else(other.default, self.default),
            available: non_empty_or(other.available, self.available),
        }
    }

    pub fn merge(self, other: Locales) -> (r: Locales)
        ensures
            r == self.merged(other),
    {
        Locales {
            default: pick(other.default, self.default),
            available: pick_list(other.available, self.available),
        }
    }
}

impl Power {
    /// Nothing configured.
    pub fn empty() -> (p: Self)
        ensures
            p.enabled@.len() == 0,
            p.allowed_states@.len() == 0,
    {
        Power { enabled: Vec::new(), allowed_states: Vec::new() }
    }

    /// What both configure, `other` going first.
    pub open spec fn merged(self, other: Power) -> Power {
        Power {
            enabled: non_empty_or(other.enabled, self.enabled),
            allowed_states: non_empty_or(other.allowed_states, self.allowed_states),
        }
    }

    pub fn merge(self, other: Power) -> (r: Power)
        ensures
            r == self.merged(other),
    {
        Power {
            enabled: pick_list(other.enabled, self.enabled),
            allowed_states: pick_list(other.allowed_states, self.allowed_states),
        }
    }
}

impl Paths {
    /// Nothing configured.
    pub fn empty() -> (p: Self)
        ensures
            p.backend is None,
            p.qml_file is None,
            p.qml_uri is None,
            p.theme_dir is None,
            p.theme is None,
    {
        Paths { backend: None, qml_file: None, qml_uri: None, theme_dir: None, theme: None }
    }

    /// What both configure, `other` going first.
    pub open spec fn merged(self, other: Paths) -> Paths {
        Paths {
            backend: or_else(other.backend, self.backend),
            qml_file: or_else(other.qml_file, self.qml_file),
            qml_uri: or_else(other.qml_uri, self.qml_uri),
            theme_dir: or_else(other.theme_dir, self.theme_dir),
            theme: or_else(other.theme, self.theme),
        }
    }

    pub fn merge(self, other: Paths) -> (r: Paths)
        ensures
            r == self.merged(other),
    {
        Paths {
            backend: pick(other.backend, self.backend),
            qml_file: pick(other.qml_file, self.qml_file),
            qml_uri: pick(other.qml_uri, self.qml_uri),
            theme_dir: pick(other.theme_dir, self.theme_dir),
            theme: pick(other.theme, self.theme),
        }
    }
}

impl Login {
    /// Nothing configured.
    pub fn empty() -> (l: Self)
        ensures
            l.default_user is None,
            l.lock_user is None,
    {
        Login { default_user: None, lock_user: None }
    }

    /// What both configure, `other` going first.
    pub open spec fn merged(self, other: Login) -> Login {
        Login {
            default_user: or_else(other.default_user, self.default_user),
            lock_user: or_else(other.lock_user, self.lock_user),
        }
    }

    pub fn merge(self, other: Login) -> (r: Login)
        ensures
            r == self.merged(other),
    {
        Login {
            default_user: pick(other.default_user, self.default_user),
            lock_user: pick(other.lock_user, self.lock_user),
        }
    }
}

impl Session {
    /// Nothing configured.
    pub fn empty() -> (s: Self)
        ensures
            s.command@.len() == 0,
            s.env@.len() == 0,
    {
        Session { command: Vec::new(), env: EnvMap::new() }
    }

    /// The command of `other` where it has one, and the variables of both,
    /// those of `other` overriding.
    pub fn merge(self, other: Session) -> (r: Session)
        ensures
            r.command == non_empty_or(other.command, self.command),
            r.env@ == put_all(self.env@, other.env@),
    {
        let mut env = self.env;
        env.extend(other.env.into_pairs());
        Session { command: pick_list(other.command, self.command), env }
    }
}

impl Logging {
    /// Nothing configured.
    pub fn empty() -> (l: Self)
        ensures
            l.dir is None,
            l.level is None,
    {
        Logging { dir: None, level: None }
    }

    /// What both configure, `other` going first.
    pub open spec fn merged(self, other: Logging) -> Logging {
        Logging { dir: or_else(other.dir, self.dir), level: or_else(other.level, self.level) }
    }

    pub fn merge(self, other: Logging) -> (r: Logging)
        ensures
            r == self.merged(other),
    {
        Logging { dir: pick(other.dir, self.dir), level: pick(other.level, self.level) }
    }
}

impl Seat {
    /// Nothing configured.
    pub fn empty() -> (s: Self)
        ensures
            s.backend is None,
            s.cage_bin is None,
            s.cage_args@.len() == 0,
    {
        Seat { backend: None, cage_bin: None, cage_args: Vec::new() }
    }

    /// What both configure, `other` going first.
    pub open spec fn merged(self, other: Seat) -> Seat {
        Seat {
            backend: or_else(other.backend, self.backend),
            cage_bin: or_else(other.cage_bin, self.cage_bin),
            cage_args: non_empty_or(other.cage_args, self.cage_args),
        }
    }

    pub fn merge(self, other: Seat) -> (r: Seat)
        ensures
            r == self.merged(other),
    {
        Seat {
            backend: pick(other.backend, self.backend),
            cage_bin: pick(other.cage_bin, self.cage_bin),
            cage_args: pick_list(other.cage_args, self.cage_args),
        }
    }
}

impl Ui {
    /// Nothing configured.
    pub fn empty() -> (u: Self)
        ensures
            u.show_password_toggle is None,
    {
        Ui { show_password_toggle: None }
    }

    /// What both configure, `other` going first.
    pub open spec fn merged(self, other: Ui) -> Ui {
        Ui {
            show_password_toggle: or_else(other.show_password_toggle, self.show_password_toggle),
        }
    }

    pub fn merge(self, other: Ui) -> (r: Ui)
        ensures
            r == self.merged(other),
    {
        Ui { show_password_toggle: pick(other.show_password_toggle, self.show_password_toggle) }
    }
}

/// Whether a configuration configures nothing.
pub open spec fn configures_nothing(c: Config) -> bool {
    &&& c.paths == Paths::empty_value()
    &&& c.login == (Login { default_user: None, lock_user: None })
    &&& c.session.command@.len() == 0
    &&& c.session.env@.len() == 0
    &&& c.sessions@.len() == 0
    &&& c.profiles@.len() == 0
    &&& c.locales.default is None
    &&& c.locales.available@.len() == 0
    &&& c.power.enabled@.len() == 0
    &&& c.power.allowed_states@.len() == 0
    &&& c.logging == (Logging { dir: None, level: None })
    &&& c.seat.backend is None
    &&& c.seat.cage_bin is None
    &&& c.seat.cage_args@.len() == 0
    &&& c.ui == (Ui { show_password_toggle: None })
}

impl Default for Config {
    fn default() -> (c: Self)
        ensures
            configures_nothing(c),
    {
        Config::empty()
    }
}

impl Config {
    /// The configuration that configures nothing.
    pub fn empty() -> (c: Self)
        ensures
            configures_nothing(c),
    {
        Config {
            paths: Paths::empty(),
            login: Login::empty(),
            session: Session::empty(),
            sessions: Vec::new(),
            profiles: Vec::new(),
            locales: Locales::empty(),
            power: Power::empty(),
            logging: Logging::empty(),
            seat: Seat::empty(),
            ui: Ui::empty(),
        }
    }

    /// Lays `other` over `self`: a value of `other` replaces that of `self`,
    /// a value that `other` leaves out stays, a list of `other` that is not
    /// empty replaces the list of `self`, and the variables of the default
    /// session are those of both, `other` overriding.
    pub fn merge(self, other: Config) -> (r: Config)
        ensures
            r.paths == self.paths.merged(other.paths),
            r.login == self.login.merged(other.login),
            r.session.command == non_empty_or(other.session.command, self.session.command),
            r.session.env@ == put_all(self.session.env@, other.session.env@),
            r.sessions == non_empty_or(other.sessions, self.sessions),
            r.profiles == non_empty_or(other.profiles, self.profiles),
            r.locales == self.locales.merged(other.locales),
            r.power == self.power.merged(other.power),
            r.logging == self.logging.merged(other.logging),
            r.seat == self.seat.merged(other.seat),
            r.ui == self.ui.merged(other.ui),
    {
        Config {
            paths: self.paths.merge(other.paths),
            login: self.login.merge(other.login),
            session: self.session.merge(other.session),
            sessions: pick_list(other.sessions, self.sessions),
            profiles: pick_list(other.profiles, self.profiles),
            locales: self.locales.merge(other.locales),
            power: self.power.merge(other.power),
            logging: self.logging.merge(other.logging),
            seat: self.seat.merge(other.seat),
            ui: self.ui.merge(other.ui),
        }
    }
}

impl Paths {
    /// The paths with nothing configured.
    pub open spec fn empty_value() -> Paths {
        Paths { backend: None, qml_file: None, qml_uri: None, theme_dir: None, theme: None }
    }
}

/// Merging with a configuration that configures nothing changes nothing, and
/// what the overlaid configuration sets always counts.
pub proof fn lemma_merge_prefers_other(base: Paths, other: Paths)
    ensures
        base.merged(Paths::empty_value()) == base,
        other.backend is Some ==> base.merged(other).backend == other.backend,
        other.backend is None ==> base.merged(other).backend == base.backend,
        other.theme is Some ==> base.merged(other).theme == other.theme,
        other.theme is None ==> base.merged(other).theme == base.theme,
{
}

} // verus!
