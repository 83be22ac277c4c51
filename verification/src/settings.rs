//! What the backend is configured with at start: the sessions and profiles
//! it may launch, the power actions it may dispatch, the prompt timeout.

use crate::text::{
    ascii_lowercase, ascii_lowered, blank, chars_of, is_blank, parse_u64, parsed_u64, same_text,
    string_of, trim, trimmed,
};
use vstd::prelude::*;

verus! {

/// The error type of `serde_json`.
#[verifier::external_type_specification]
#[verifier::external_body]
pub struct ExJsonError(serde_json::Error);

/// What a JSON text denotes as a list of strings, as `serde_json::from_str`
/// reads it for the type `Vec<String>`; `None` where it reports an error.
pub uninterp spec fn json_string_list(raw: Seq<char>) -> Option<Seq<Seq<char>>>;

/// Calls `serde_json::from_str::<Vec<String>>`. What it returns depends on
/// the text alone and is what [`json_string_list`] stands for.
#[verifier::external_body]
fn parse_string_list(raw: &str) -> (r: Result<Vec<String>, serde_json::Error>)
    ensures
        match r {
            Ok(list) => json_string_list(raw@) == Some(list.deep_view()),
            Err(_) => json_string_list(raw@) is None,
        },
{
    serde_json::from_str::<Vec<String>>(raw)
}

/// The JSON text of a list of strings, as `serde_json::to_string` writes it;
/// `None` where it reports an error.
pub uninterp spec fn string_list_json(list: Seq<Seq<char>>) -> Option<Seq<char>>;

/// Calls `serde_json::to_string` on a list of strings. What it returns
/// depends on the list alone and is what [`string_list_json`] stands for.
#[verifier::external_body]
fn print_string_list(list: &Vec<String>) -> (r: Result<String, serde_json::Error>)
    ensures
        match r {
            Ok(text) => string_list_json(list.deep_view()) == Some(text@),
            Err(_) => string_list_json(list.deep_view()) is None,
        },
{
    serde_json::to_string(list)
}

/// A session that can be launched: its identifier and its command line.
#[derive(Clone, Debug, PartialEq, Eq)]
pub struct SessionListEntry {
    pub id: String,
    pub command: Vec<String>,
}

/// A [`SessionListEntry`] as plain values.
pub struct SessionView {
    pub id: Seq<char>,
    pub command: Seq<Seq<char>>,
}

impl DeepView for SessionListEntry {
    type V = SessionView;

    open spec fn deep_view(&self) -> SessionView {
        SessionView { id: self.id@, command: self.command.deep_view() }
    }
}

/// A profile: a session and environment variables that go with it.
#[derive(Clone, Debug, PartialEq, Eq)]
pub struct ProfileEntry {
    pub id: String,
    pub session: String,
    pub env: Vec<(String, String)>,
}

/// A [`ProfileEntry`] as plain values.
pub struct ProfileView {
    pub id: Seq<char>,
    pub session: Seq<char>,
    pub env: Seq<(Seq<char>, Seq<char>)>,
}

impl DeepView for ProfileEntry {
    type V = ProfileView;

    open spec fn deep_view(&self) -> ProfileView {
        ProfileView { id: self.id@, session: self.session@, env: self.env.deep_view() }
    }
}

/// The configuration of the backend.
#[derive(Clone, Debug, PartialEq, Eq)]
pub struct Settings {
    /// Sessions by identifier; of two with one identifier the later counts.
    pub sessions: Vec<SessionListEntry>,
    /// Profiles by identifier; of two with one identifier the later counts.
    pub profiles: Vec<ProfileEntry>,
    /// The command to launch when nothing else names one.
    pub default_command: Vec<String>,
    /// The power actions that are enabled.
    pub power_actions: Vec<String>,
    /// The names of the phases in which power actions are allowed.
    pub power_allowed_states: Vec<String>,
}

/// [`Settings`] as plain values.
pub struct SettingsView {
    pub sessions: Seq<SessionView>,
    pub profiles: Seq<ProfileView>,
    pub default_command: Seq<Seq<char>>,
    pub power_actions: Seq<Seq<char>>,
    pub power_allowed_states: Seq<Seq<char>>,
}

impl View for Settings {
    type V = SettingsView;

    open spec fn view(&self) -> SettingsView {
        SettingsView {
            sessions: self.sessions.deep_view(),
            profiles: self.profiles.deep_view(),
            default_command: self.default_command.deep_view(),
            power_actions: self.power_actions.deep_view(),
            power_allowed_states: self.power_allowed_states.deep_view(),
        }
    }
}

// ---------------------------------------------------------------------------
// Lists of names
// ---------------------------------------------------------------------------

/// A name as it is compared: trimmed, in ASCII lowercase.
pub open spec fn normal_name(s: Seq<char>) -> Seq<char> {
    ascii_lowered(trimmed(s))
}

/// The names of a list in normal form, without those that are empty then.
pub open spec fn normal_names(list: Seq<Seq<char>>) -> Seq<Seq<char>>
    decreases list.len(),
{
    if list.len() == 0 {
        Seq::empty()
    } else if normal_name(list.last()).len() == 0 {
        normal_names(list.drop_last())
    } else {
        normal_names(list.drop_last()).push(normal_name(list.last()))
    }
}

/// Brings a name into normal form.
pub fn normalise(name: &str) -> (r: String)
    ensures
        r@ == normal_name(name@),
{
    let t = trim(name);
    let v = chars_of(t.as_str());
    let l = ascii_lowercase(&v);
    let r = string_of(&l, 0, l.len());
    assert(l@.subrange(0, l@.len() as int) == l@);
    r
}

/// Brings each name into normal form and drops those that are empty then.
pub fn normalise_all(list: &Vec<String>) -> (out: Vec<String>)
    ensures
        out.deep_view() == normal_names(list.deep_view()),
{
    let mut out: Vec<String> = Vec::new();
    let mut i: usize = 0;
    assert(list.deep_view().take(0) == Seq::<Seq<char>>::empty());
    assert(out.deep_view() == Seq::<Seq<char>>::empty());
    while i < list.len()
        invariant
            i <= list.len(),
            out.deep_view() == normal_names(list.deep_view().take(i as int)),
        decreases list.len() - i,
    {
        let name = normalise(list[i].as_str());
        let ghost upto = list.deep_view().take(i + 1);
        assert(upto.drop_last() == list.deep_view().take(i as int));
        assert(upto.last() == list[i as int]@);
        if !name.as_str().is_empty() {
            let ghost prev = out.deep_view();
            out.push(name);
            assert(out.deep_view() == prev.push(name@));
        }
        i += 1;
    }
    assert(list.deep_view().take(list.len() as int) == list.deep_view());
    out
}

/// Whether `name` is one of `list`.
pub fn has_name(list: &Vec<String>, name: &str) -> (r: bool)
    ensures
        r == list.deep_view().contains(name@),
{
    let mut i: usize = 0;
    while i < list.len()
        invariant
            i <= list.len(),
            forall|j: int| 0 <= j < i ==> list.deep_view()[j] != name@,
        decreases list.len() - i,
    {
        if same_text(list[i].as_str(), name) {
            assert(list.deep_view()[i as int] == name@);
            return true;
        }
        i += 1;
    }
    false
}

/// The list with one entry, `idle`.
pub open spec fn idle_only() -> Seq<Seq<char>> {
    seq!["idle"@]
}

/// The enabled power actions that a configured list gives: its names in
/// normal form; none where nothing is configured or the list cannot be read.
pub open spec fn power_actions_of(raw: Seq<char>, parsed: Option<Seq<Seq<char>>>) -> Seq<Seq<char>> {
    if blank(raw) {
        Seq::empty()
    } else {
        match parsed {
            Some(list) => normal_names(list),
            None => Seq::empty(),
        }
    }
}

/// The phases in which power actions are allowed that a configured list
/// gives: its names in normal form; `idle` alone where nothing is configured
/// or the list cannot be read.
pub open spec fn power_states_of(raw: Seq<char>, parsed: Option<Seq<Seq<char>>>) -> Seq<Seq<char>> {
    if blank(raw) {
        idle_only()
    } else {
        match parsed {
            Some(list) => normal_names(list),
            None => idle_only(),
        }
    }
}

/// The default command that a configured list gives: the list itself where
/// it can be read and is not empty, else `niri`.
pub open spec fn default_command_of(parsed: Option<Seq<Seq<char>>>) -> Seq<Seq<char>> {
    match parsed {
        Some(list) if list.len() > 0 => list,
        _ => seq!["niri"@],
    }
}

fn one_name(name: &str) -> (out: Vec<String>)
    ensures
        out.deep_view() == seq![name@],
{
    let mut out: Vec<String> = Vec::new();
    out.push(name.to_owned());
    assert(out.deep_view() =~= seq![name@]);
    out
}

fn no_names() -> (out: Vec<String>)
    ensures
        out.deep_view() == Seq::<Seq<char>>::empty(),
{
    let out: Vec<String> = Vec::new();
    assert(out.deep_view() =~= Seq::<Seq<char>>::empty());
    out
}

/// The enabled power actions, from the list as it was read.
pub fn power_actions_from(raw: &str, parsed: Option<Vec<String>>) -> (out: Vec<String>)
    ensures
        out.deep_view() == power_actions_of(raw@, list_view(parsed)),
{
    if is_blank(raw) {
        return no_names();
    }
    match parsed {
        Some(list) => normalise_all(&list),
        None => no_names(),
    }
}

/// The phases in which power actions are allowed, from the list as it was
/// read.
pub fn power_states_from(raw: &str, parsed: Option<Vec<String>>) -> (out: Vec<String>)
    ensures
        out.deep_view() == power_states_of(raw@, list_view(parsed)),
{
    if is_blank(raw) {
        return one_name("idle");
    }
    match parsed {
        Some(list) => normalise_all(&list),
        None => one_name("idle"),
    }
}

/// The default command, from the list as it was read.
pub fn default_command_from(parsed: Option<Vec<String>>) -> (out: Vec<String>)
    ensures
        out.deep_view() == default_command_of(list_view(parsed)),
{
    match parsed {
        Some(list) => {
            if list.len() > 0 {
                list
            } else {
                one_name("niri")
            }
        },
        None => one_name("niri"),
    }
}

/// An optional list of strings as plain values.
pub open spec fn list_view(parsed: Option<Vec<String>>) -> Option<Seq<Seq<char>>> {
    match parsed {
        Some(list) => Some(list.deep_view()),
        None => None,
    }
}

/// Reads a JSON list of strings; `None` where the text is no such list.
pub fn read_string_list(raw: &str) -> (r: Option<Vec<String>>)
    ensures
        list_view(r) == json_string_list(raw@),
{
    match parse_string_list(raw) {
        Ok(list) => Some(list),
        Err(_) => None,
    }
}

/// Writes a list of strings as JSON; `None` where that fails.
pub fn write_string_list(list: &Vec<String>) -> (r: Option<String>)
    ensures
        crate::frame::text_of(r) == string_list_json(list.deep_view()),
{
    match print_string_list(list) {
        Ok(text) => Some(text),
        Err(_) => None,
    }
}

/// The enabled power actions that the JSON text `raw` configures.
pub fn load_power_actions(raw: &str) -> (out: Vec<String>)
    ensures
        out.deep_view() == power_actions_of(raw@, json_string_list(raw@)),
{
    let parsed = read_string_list(raw);
    power_actions_from(raw, parsed)
}

/// The phases in which power actions are allowed that the JSON text `raw`
/// configures.
pub fn load_power_allowed_states(raw: &str) -> (out: Vec<String>)
    ensures
        out.deep_view() == power_states_of(raw@, json_string_list(raw@)),
{
    let parsed = read_string_list(raw);
    power_states_from(raw, parsed)
}

/// The default command: what the JSON text configures, where there is one.
pub fn default_command(configured: Option<&str>) -> (out: Vec<String>)
    ensures
        out.deep_view() == match configured {
            Some(raw) => default_command_of(json_string_list(raw@)),
            None => seq!["niri"@],
        },
{
    match configured {
        Some(raw) => {
            let parsed = read_string_list(raw);
            default_command_from(parsed)
        },
        None => one_name("niri"),
    }
}

// ---------------------------------------------------------------------------
// Sessions and profiles
// ---------------------------------------------------------------------------

/// The sessions of a list that can be used: those with an identifier that is
/// not blank and a command line that is not empty.
pub open spec fn usable_sessions(list: Seq<SessionView>) -> Seq<SessionView>
    decreases list.len(),
{
    if list.len() == 0 {
        Seq::empty()
    } else if blank(list.last().id) || list.last().command.len() == 0 {
        usable_sessions(list.drop_last())
    } else {
        usable_sessions(list.drop_last()).push(list.last())
    }
}

/// The profiles of a list that can be used: those with an identifier that is
/// not blank.
pub open spec fn usable_profiles(list: Seq<ProfileView>) -> Seq<ProfileView>
    decreases list.len(),
{
    if list.len() == 0 {
        Seq::empty()
    } else if blank(list.last().id) {
        usable_profiles(list.drop_last())
    } else {
        usable_profiles(list.drop_last()).push(list.last())
    }
}

/// Keeps the sessions that can be used.
pub fn load_sessions(entries: Vec<SessionListEntry>) -> (out: Vec<SessionListEntry>)
    ensures
        out.deep_view() == usable_sessions(entries.deep_view()),
{
    let ghost all = entries.deep_view();
    let mut out: Vec<SessionListEntry> = Vec::new();
    assert(all.take(0) == Seq::<SessionView>::empty());
    assert(out.deep_view() == Seq::<SessionView>::empty());
    for entry in it: entries
        invariant
            all.len() == it.seq().len(),
            forall|k: int| 0 <= k < all.len() ==> all[k] == (#[trigger] it.seq()[k]).deep_view(),
            out.deep_view() == usable_sessions(all.take(it.index() as int)),
    {
        let ghost upto = all.take(it.index() + 1);
        assert(upto.drop_last() == all.take(it.index() as int));
        assert(upto.last() == entry.deep_view());
        if !is_blank(entry.id.as_str()) && entry.command.len() > 0 {
            let ghost prev = out.deep_view();
            out.push(entry);
            assert(out.deep_view() == prev.push(entry.deep_view()));
        }
    }
    assert(all.take(all.len() as int) == all);
    out
}

/// Keeps the profiles that can be used.
pub fn load_profiles(entries: Vec<ProfileEntry>) -> (out: Vec<ProfileEntry>)
    ensures
        out.deep_view() == usable_profiles(entries.deep_view()),
{
    let ghost all = entries.deep_view();
    let mut out: Vec<ProfileEntry> = Vec::new();
    assert(all.take(0) == Seq::<ProfileView>::empty());
    assert(out.deep_view() == Seq::<ProfileView>::empty());
    for entry in it: entries
        invariant
            all.len() == it.seq().len(),
            forall|k: int| 0 <= k < all.len() ==> all[k] == (#[trigger] it.seq()[k]).deep_view(),
            out.deep_view() == usable_profiles(all.take(it.index() as int)),
    {
        let ghost upto = all.take(it.index() + 1);
        assert(upto.drop_last() == all.take(it.index() as int));
        assert(upto.last() == entry.deep_view());
        if !is_blank(entry.id.as_str()) {
            let ghost prev = out.deep_view();
            out.push(entry);
            assert(out.deep_view() == prev.push(entry.deep_view()));
        }
    }
    assert(all.take(all.len() as int) == all);
    out
}

/// The command line of the last session of `list` with identifier `id`.
pub open spec fn session_command(list: Seq<SessionView>, id: Seq<char>) -> Option<Seq<Seq<char>>>
    decreases list.len(),
{
    if list.len() == 0 {
        None
    } else if list.last().id == id {
        Some(list.last().command)
    } else {
        session_command(list.drop_last(), id)
    }
}

/// The last profile of `list` with identifier `id`.
pub open spec fn profile_named(list: Seq<ProfileView>, id: Seq<char>) -> Option<ProfileView>
    decreases list.len(),
{
    if list.len() == 0 {
        None
    } else if list.last().id == id {
        Some(list.last())
    } else {
        profile_named(list.drop_last(), id)
    }
}

impl Settings {
    /// The position of the session that `id` names.
    pub fn find_session(&self, id: &str) -> (r: Option<usize>)
        ensures
            match r {
                Some(i) => {
                    &&& i < self.sessions.len()
                    &&& self.sessions[i as int].id@ == id@
                    &&& forall|j: int|
                        i < j < self.sessions.len() ==> (#[trigger] self.sessions[j]).id@ != id@
                    &&& session_command(self@.sessions, id@) == Some(
                        self.sessions[i as int].command.deep_view(),
                    )
                },
                None => {
                    &&& session_command(self@.sessions, id@) is None
                    &&& forall|j: int|
                        0 <= j < self.sessions.len() ==> (#[trigger] self.sessions[j]).id@ != id@
                },
            },
    {
        let ghost all = self@.sessions;
        let mut i: usize = self.sessions.len();
        assert(all.take(i as int) == all);
        while i > 0
            invariant
                i <= self.sessions.len(),
                all == self.sessions.deep_view(),
                session_command(all, id@) == session_command(all.take(i as int), id@),
                forall|j: int|
                    i <= j < self.sessions.len() ==> (#[trigger] self.sessions[j]).id@ != id@,
            decreases i,
        {
            i -= 1;
            let ghost upto = all.take(i + 1);
            assert(upto.drop_last() == all.take(i as int));
            assert(upto.last() == self.sessions[i as int].deep_view());
            if same_text(self.sessions[i].id.as_str(), id) {
                return Some(i);
            }
        }
        None
    }

    /// The position of the profile that `id` names.
    pub fn find_profile(&self, id: &str) -> (r: Option<usize>)
        ensures
            match r {
                Some(i) => {
                    &&& i < self.profiles.len()
                    &&& self.profiles[i as int].id@ == id@
                    &&& forall|j: int|
                        i < j < self.profiles.len() ==> (#[trigger] self.profiles[j]).id@ != id@
                    &&& profile_named(self@.profiles, id@) == Some(
                        self.profiles[i as int].deep_view(),
                    )
                },
                None => {
                    &&& profile_named(self@.profiles, id@) is None
                    &&& forall|j: int|
                        0 <= j < self.profiles.len() ==> (#[trigger] self.profiles[j]).id@ != id@
                },
            },
    {
        let ghost all = self@.profiles;
        let mut i: usize = self.profiles.len();
        assert(all.take(i as int) == all);
        while i > 0
            invariant
                i <= self.profiles.len(),
                all == self.profiles.deep_view(),
                profile_named(all, id@) == profile_named(all.take(i as int), id@),
                forall|j: int|
                    i <= j < self.profiles.len() ==> (#[trigger] self.profiles[j]).id@ != id@,
            decreases i,
        {
            i -= 1;
            let ghost upto = all.take(i + 1);
            assert(upto.drop_last() == all.take(i as int));
            assert(upto.last() == self.profiles[i as int].deep_view());
            if same_text(self.profiles[i].id.as_str(), id) {
                return Some(i);
            }
        }
        None
    }
}

// ---------------------------------------------------------------------------
// The prompt timeout
// ---------------------------------------------------------------------------

/// The prompt timeout in seconds that a configured text gives: its number,
/// where it is one and not zero.
pub open spec fn timeout_of(value: Seq<char>) -> Option<u64> {
    match parsed_u64(trimmed(value)) {
        Some(secs) if secs > 0 => Some(secs),
        _ => None,
    }
}

/// The prompt timeout in seconds; `None` disables it.
pub fn auth_timeout(value: &str) -> (r: Option<u64>)
    ensures
        r == timeout_of(value@),
{
    let t = trim(value);
    match parse_u64(t.as_str()) {
        Some(secs) => {
            if secs > 0 {
                Some(secs)
            } else {
                None
            }
        },
        None => None,
    }
}

/// What is left of the time allowed once some of it has passed; nothing once
/// all of it has.
pub open spec fn left_of(allowed: u128, passed: u128) -> Option<u128> {
    if passed < allowed {
        Some((allowed - passed) as u128)
    } else {
        None
    }
}

/// What is left of the time allowed for an answer, in nanoseconds; `None`
/// once the time is up.
pub fn time_left(allowed: u128, passed: u128) -> (left: Option<u128>)
    ensures
        left == left_of(allowed, passed),
{
    if passed < allowed {
        Some(allowed - passed)
    } else {
        None
    }
}

/// A time in nanoseconds as whole milliseconds, at most `i32::MAX` of them.
pub open spec fn millis_of(nanos: u128) -> i32 {
    if nanos / 1_000_000 > i32::MAX {
        i32::MAX
    } else {
        (nanos / 1_000_000) as i32
    }
}

/// How long to wait for input at most, in milliseconds.
pub fn poll_millis(nanos: u128) -> (millis: i32)
    ensures
        millis == millis_of(nanos),
{
    let whole = nanos / 1_000_000;
    if whole > 0x7fff_ffff {
        i32::MAX
    } else {
        whole as i32
    }
}

} // verus!
