//! The conversation as a state machine: its states, the events it takes, the
//! actions it asks for, and the transition function that defines it.

use crate::env::{lines, put_all, put_named, Pair};
use crate::frame::{Request, RequestView, Response, ResponseView};
use crate::greetd::{
    auth_failure_of, cancelled_error, failure_kind, pam_error_of, timeout_error, AuthErrorView,
    AuthMessageType,
};
use crate::phase::Phase;
use crate::power::{verdict, PowerVerdictView};
use crate::protocol::{BackendResponse, BackendResponseView, UiRequest, UiRequestView};
use crate::settings::{profile_named, session_command, ProfileView, SettingsView};
use crate::state::{selected, StateUpdate, StateUpdateView};
use crate::text::{blank, debug_text, decimal, trimmed};
use vstd::prelude::*;

verus! {

/// Where a conversation stands.
#[derive(Clone, Copy, Debug, PartialEq, Eq, Structural)]
pub enum Stage {
    /// No conversation is in flight; the next request is awaited.
    Ready,
    /// A request was sent to the daemon and its answer is awaited.
    AwaitingDaemon,
    /// A prompt was shown and the answer of the user interface is awaited.
    AwaitingPrompt { id: u64 },
    /// The session is being started and the daemon's answer is awaited.
    Starting,
    /// The session was started; the user interface has yet to acknowledge.
    AwaitingAck,
    /// The backend is to exit.
    Finished,
}

impl Stage {
    /// At this stage the next event comes from the user interface.
    pub open spec fn awaits_ui(self) -> bool {
        self is Ready || self is AwaitingPrompt || self is AwaitingAck
    }

    /// At this stage the next event comes from the daemon.
    pub open spec fn awaits_daemon(self) -> bool {
        self is AwaitingDaemon || self is Starting
    }

    /// A conversation is in flight.
    pub open spec fn in_conversation(self) -> bool {
        self is AwaitingDaemon || self is AwaitingPrompt || self is Starting
    }
}

/// What a conversation launches once the credentials are accepted, as plain
/// values.
pub struct LaunchView {
    pub command: Seq<Seq<char>>,
    pub env: Seq<Seq<char>>,
    pub update: StateUpdateView,
}

/// Something that happened on the side of the user interface.
#[derive(Debug, PartialEq, Eq)]
pub enum UiEvent {
    /// A line was read and understood.
    Request(UiRequest),
    /// A line was read that is no request; the text says why.
    Invalid(String),
    /// The input has ended.
    Eof,
    /// The time allowed for answering a prompt has passed.
    Timeout,
    /// Reading failed; the text says how.
    Failed(String),
}

/// A [`UiEvent`] as plain values.
pub enum UiEventView {
    Request(UiRequestView),
    Invalid(Seq<char>),
    Eof,
    Timeout,
    Failed(Seq<char>),
}

impl View for UiEvent {
    type V = UiEventView;

    open spec fn view(&self) -> UiEventView {
        match *self {
            UiEvent::Request(request) => UiEventView::Request(request@),
            UiEvent::Invalid(text) => UiEventView::Invalid(text@),
            UiEvent::Eof => UiEventView::Eof,
            UiEvent::Timeout => UiEventView::Timeout,
            UiEvent::Failed(text) => UiEventView::Failed(text@),
        }
    }
}

/// Something that happened on the side of the daemon.
#[derive(Debug, PartialEq, Eq)]
pub enum DaemonEvent {
    /// The daemon answered.
    Reply(Response),
    /// Connecting, writing, reading or understanding the answer failed; the
    /// text says which.
    Failed(String),
}

/// A [`DaemonEvent`] as plain values.
pub enum DaemonEventView {
    Reply(ResponseView),
    Failed(Seq<char>),
}

impl View for DaemonEvent {
    type V = DaemonEventView;

    open spec fn view(&self) -> DaemonEventView {
        match *self {
            DaemonEvent::Reply(response) => DaemonEventView::Reply(response@),
            DaemonEvent::Failed(text) => DaemonEventView::Failed(text@),
        }
    }
}

/// What the engine asks its surroundings to do, in the order given.
#[derive(Debug, PartialEq, Eq)]
pub enum Action {
    /// Write a response to the user interface.
    Emit(BackendResponse),
    /// Open the socket of the session daemon.
    Connect,
    /// Frame a request and write it to the daemon.
    Send(Request),
    /// Close the socket of the session daemon.
    Close,
    /// Merge a selection into the persisted record.
    Persist(StateUpdate),
    /// Call a method of the login manager on the system bus.
    Dispatch { method: &'static str, interactive: bool },
    /// Leave the process with this status.
    Exit { status: u8 },
}

/// An [`Action`] as plain values.
pub enum ActionView {
    Emit(BackendResponseView),
    Connect,
    Send(RequestView),
    Close,
    Persist(StateUpdateView),
    Dispatch { method: Seq<char>, interactive: bool },
    Exit { status: u8 },
}

impl DeepView for Action {
    type V = ActionView;

    open spec fn deep_view(&self) -> ActionView {
        match *self {
            Action::Emit(response) => ActionView::Emit(response@),
            Action::Connect => ActionView::Connect,
            Action::Send(request) => ActionView::Send(request@),
            Action::Close => ActionView::Close,
            Action::Persist(update) => ActionView::Persist(update@),
            Action::Dispatch { method, interactive } => ActionView::Dispatch {
                method: method@,
                interactive,
            },
            Action::Exit { status } => ActionView::Exit { status },
        }
    }
}

/// The state of the engine as plain values.
pub struct Machine {
    /// The phase last announced to the user interface.
    pub phase: Phase,
    pub stage: Stage,
    /// How many prompts were shown since the process began.
    pub prompts: u64,
    /// The last informational or error text of the conversation that was not
    /// blank.
    pub detail: Option<Seq<char>>,
    /// What the conversation in flight is to launch.
    pub launch: LaunchView,
}

// ---------------------------------------------------------------------------
// What a conversation launches
// ---------------------------------------------------------------------------

/// No command, no environment, nothing to remember.
pub open spec fn no_launch() -> LaunchView {
    LaunchView {
        command: Seq::empty(),
        env: Seq::empty(),
        update: StateUpdateView { session_id: None, profile_id: None, locale: None },
    }
}

/// The variables that every session starts with.
pub open spec fn default_env() -> Seq<Pair> {
    put_all(
        Seq::empty(),
        seq![
            ("XDG_SESSION_TYPE"@, "wayland"@),
            ("XDG_SESSION_CLASS"@, "user"@),
            ("XDG_CURRENT_DESKTOP"@, "niri"@),
            ("XDG_SESSION_DESKTOP"@, "niri"@),
        ],
    )
}

/// The variables that a locale sets.
pub open spec fn locale_env(locale: Option<Seq<char>>) -> Seq<Pair> {
    match locale {
        Some(name) => seq![("LANG"@, name), ("LC_ALL"@, name)],
        None => Seq::empty(),
    }
}

/// The variables of a profile, where there is one.
pub open spec fn profile_env(profile: Option<ProfileView>) -> Seq<Pair> {
    match profile {
        Some(p) => p.env,
        None => Seq::empty(),
    }
}

/// The environment of a session: the defaults, overlaid by the profile's
/// variables, then by the request's, then by the locale's; written as lines
/// in the order of the names.
pub open spec fn session_env(
    profile: Option<ProfileView>,
    env: Seq<Pair>,
    locale: Option<Seq<char>>,
) -> Seq<Seq<char>> {
    lines(put_named(default_env(), profile_env(profile) + env + locale_env(locale)))
}

/// The profile that a request names.
pub open spec fn chosen_profile(cfg: SettingsView, profile_id: Option<Seq<char>>) -> Option<
    ProfileView,
> {
    match selected(profile_id) {
        Some(id) => profile_named(cfg.profiles, id),
        None => None,
    }
}

/// The session that a request names: its own, else the one of its profile.
pub open spec fn chosen_session(
    cfg: SettingsView,
    session_id: Option<Seq<char>>,
    profile_id: Option<Seq<char>>,
) -> Option<Seq<char>> {
    match selected(session_id) {
        Some(id) => Some(id),
        None => match chosen_profile(cfg, profile_id) {
            Some(profile) => selected(Some(profile.session)),
            None => None,
        },
    }
}

/// The command of a session: the request's own where it has one, else the
/// one configured for the chosen session, else the default command.
pub open spec fn session_command_line(
    cfg: SettingsView,
    command: Seq<Seq<char>>,
    session: Option<Seq<char>>,
) -> Seq<Seq<char>> {
    let named = match session {
        Some(id) => match session_command(cfg.sessions, id) {
            Some(line) => line,
            None => Seq::empty(),
        },
        None => Seq::empty(),
    };
    if command.len() > 0 {
        command
    } else if named.len() > 0 {
        named
    } else {
        cfg.default_command
    }
}

/// What an `auth` request launches under a configuration.
pub open spec fn resolved(
    cfg: SettingsView,
    command: Seq<Seq<char>>,
    env: Seq<Pair>,
    session_id: Option<Seq<char>>,
    profile_id: Option<Seq<char>>,
    locale: Option<Seq<char>>,
) -> LaunchView {
    let session = chosen_session(cfg, session_id, profile_id);
    LaunchView {
        command: session_command_line(cfg, command, session),
        env: session_env(chosen_profile(cfg, profile_id), env, selected(locale)),
        update: StateUpdateView {
            session_id: session,
            profile_id: selected(profile_id),
            locale: selected(locale),
        },
    }
}

// ---------------------------------------------------------------------------
// The transition function
// ---------------------------------------------------------------------------

/// The announcement of a phase.
pub open spec fn announce(phase: Phase) -> ActionView {
    ActionView::Emit(BackendResponseView::State { phase })
}

/// An error response.
pub open spec fn report(code: Seq<char>, message: Seq<char>) -> ActionView {
    ActionView::Emit(BackendResponseView::Error { code, message })
}

/// An error response that does not end anything.
pub open spec fn complain(message: Seq<char>) -> ActionView {
    report("pam_error"@, message)
}

/// The machine at rest in `phase`, with nothing left of a conversation.
pub open spec fn at_rest(m: Machine, phase: Phase) -> Machine {
    Machine { phase, stage: Stage::Ready, prompts: m.prompts, detail: None, launch: no_launch() }
}

/// The end of a conversation by failure. The socket is closed, after a
/// `cancel_session` where `cancel` asks for it. A soft failure is reported and
/// the machine returns to `idle`; a hard one moves it to `error` and is then
/// reported.
pub open spec fn failed(m: Machine, error: AuthErrorView, cancel: bool) -> (
    Machine,
    Seq<ActionView>,
) {
    let wire = if cancel {
        seq![ActionView::Send(RequestView::CancelSession), ActionView::Close]
    } else {
        seq![ActionView::Close]
    };
    let said = report(error.code.name(), error.message);
    if error.return_to_idle {
        (at_rest(m, Phase::Idle), wire + seq![said, announce(Phase::Idle)])
    } else {
        (at_rest(m, Phase::Error), wire + seq![announce(Phase::Error), said])
    }
}

/// The failure that an error of the daemon during authentication amounts to:
/// classified where the daemon calls it an `auth_error`, else a `pam_error`
/// that names the daemon's words and, in parentheses, the detail.
pub open spec fn daemon_failure(
    error_type: Seq<char>,
    description: Seq<char>,
    detail: Option<Seq<char>>,
) -> AuthErrorView {
    let said = match detail {
        Some(text) => text,
        None => Seq::empty(),
    };
    if error_type == "auth_error"@ {
        auth_failure_of(failure_kind(description, said), said)
    } else if said.len() == 0 {
        pam_error_of(error_type + ": "@ + description)
    } else {
        pam_error_of(error_type + ": "@ + description + " ("@ + said + ")"@)
    }
}

/// What is asked for to have a selection remembered: nothing where it holds
/// no field.
pub open spec fn remember(update: StateUpdateView) -> Seq<ActionView> {
    if update.session_id is None && update.profile_id is None && update.locale is None {
        Seq::empty()
    } else {
        seq![ActionView::Persist(update)]
    }
}

/// What a request for a power action leads to.
pub open spec fn power_actions(phase: Phase, action: Seq<char>, cfg: SettingsView) -> Seq<
    ActionView,
> {
    match verdict(phase, action, cfg) {
        PowerVerdictView::Refuse { code, message } => seq![report(code, message)],
        PowerVerdictView::Call { method, interactive } => seq![
            ActionView::Dispatch { method, interactive },
        ],
    }
}

/// The transition on an event of the daemon. While no answer of the daemon
/// is awaited, no such event is taken.
pub open spec fn on_daemon_spec(m: Machine, event: DaemonEventView) -> (Machine, Seq<ActionView>) {
    match m.stage {
        Stage::AwaitingDaemon => match event {
            DaemonEventView::Reply(ResponseView::Success) => (
                Machine {
                    phase: Phase::Waiting,
                    stage: Stage::Starting,
                    launch: LaunchView {
                        command: Seq::empty(),
                        env: Seq::empty(),
                        update: m.launch.update,
                    },
                    ..m
                },
                seq![
                    announce(Phase::Waiting),
                    ActionView::Send(
                        RequestView::StartSession { cmd: m.launch.command, env: m.launch.env },
                    ),
                ],
            ),
            DaemonEventView::Reply(ResponseView::AuthMessage { auth_message_type, auth_message }) => {
                if auth_message_type.asks() {
                    if m.prompts == u64::MAX {
                        failed(m, pam_error_of("prompt identifiers exhausted"@), true)
                    } else {
                        let id = (m.prompts + 1) as u64;
                        (
                            Machine { stage: Stage::AwaitingPrompt { id }, prompts: id, ..m },
                            seq![
                                ActionView::Emit(
                                    BackendResponseView::Prompt {
                                        id,
                                        kind: auth_message_type,
                                        message: trimmed(auth_message),
                                        echo: auth_message_type == AuthMessageType::Visible,
                                    },
                                ),
                            ],
                        )
                    }
                } else {
                    (
                        Machine {
                            detail: if blank(auth_message) {
                                m.detail
                            } else {
                                Some(auth_message)
                            },
                            ..m
                        },
                        seq![
                            ActionView::Emit(
                                BackendResponseView::Message {
                                    kind: auth_message_type,
                                    message: trimmed(auth_message),
                                },
                            ),
                            ActionView::Send(
                                RequestView::PostAuthMessageResponse { response: None },
                            ),
                        ],
                    )
                }
            },
            DaemonEventView::Reply(ResponseView::Error { error_type, description }) => failed(
                m,
                daemon_failure(error_type, description, m.detail),
                true,
            ),
            DaemonEventView::Failed(text) => failed(m, pam_error_of(text), false),
        },
        Stage::Starting => match event {
            DaemonEventView::Reply(ResponseView::Success) => (
                Machine {
                    phase: Phase::Success,
                    stage: Stage::AwaitingAck,
                    prompts: m.prompts,
                    detail: None,
                    launch: no_launch(),
                },
                seq![ActionView::Close] + remember(m.launch.update) + seq![
                    announce(Phase::Success),
                    ActionView::Emit(BackendResponseView::Success),
                ],
            ),
            DaemonEventView::Reply(ResponseView::Error { error_type, description }) => failed(
                m,
                pam_error_of(error_type + ": "@ + description),
                false,
            ),
            DaemonEventView::Reply(ResponseView::AuthMessage { auth_message, .. }) => failed(
                m,
                pam_error_of("unexpected auth message during start_session: "@ + auth_message),
                false,
            ),
            DaemonEventView::Failed(text) => failed(m, pam_error_of(text), false),
        },
        _ => (m, Seq::empty()),
    }
}

/// The transition on a request while no conversation is in flight.
pub open spec fn on_request_at_rest(m: Machine, cfg: SettingsView, request: UiRequestView) -> (
    Machine,
    Seq<ActionView>,
) {
    match request {
        UiRequestView::Hello { .. } => (Machine { phase: Phase::Idle, ..m }, seq![
            announce(Phase::Idle),
        ]),
        UiRequestView::Auth { username, command, env, session_id, profile_id, locale } => {
            if blank(username) {
                (
                    Machine { phase: Phase::Error, ..m },
                    seq![
                        announce(Phase::Auth),
                        announce(Phase::Error),
                        complain("username is required"@),
                    ],
                )
            } else {
                (
                    Machine {
                        phase: Phase::Auth,
                        stage: Stage::AwaitingDaemon,
                        prompts: m.prompts,
                        detail: None,
                        launch: resolved(cfg, command, env, session_id, profile_id, locale),
                    },
                    seq![
                        announce(Phase::Auth),
                        ActionView::Connect,
                        ActionView::Send(
                            RequestView::CreateSession { username: trimmed(username) },
                        ),
                    ],
                )
            }
        },
        UiRequestView::Start { command, .. } => (m, seq![
            complain("start not implemented: "@ + debug_text(command)),
        ]),
        UiRequestView::PromptResponse { .. } => (m, seq![complain("no active prompt"@)]),
        UiRequestView::Cancel => (m, seq![complain("no active auth session"@)]),
        UiRequestView::Ack { .. } => (m, seq![complain("unexpected ack"@)]),
        UiRequestView::Power { action } => (m, power_actions(m.phase, action, cfg)),
    }
}

/// The transition on a request while the prompt `id` is outstanding. The
/// answer to this prompt goes to the daemon; an answer without a text and a
/// `cancel` end the conversation; `hello` is passed over; every other
/// request, a request for a power action too, is answered with an error and
/// leaves the prompt outstanding.
pub open spec fn on_request_at_prompt(m: Machine, id: u64, request: UiRequestView) -> (
    Machine,
    Seq<ActionView>,
) {
    match request {
        UiRequestView::PromptResponse { id: answered, response } => {
            if answered == id {
                match response {
                    Some(answer) => (
                        Machine { stage: Stage::AwaitingDaemon, ..m },
                        seq![
                            ActionView::Send(
                                RequestView::PostAuthMessageResponse { response: Some(answer) },
                            ),
                        ],
                    ),
                    None => failed(m, pam_error_of("prompt response missing"@), true),
                }
            } else {
                (m, seq![complain("unexpected prompt id: "@ + decimal(answered as nat))])
            }
        },
        UiRequestView::Cancel => failed(m, cancelled_error(), true),
        UiRequestView::Hello { .. } => (m, Seq::empty()),
        _ => (m, seq![complain("auth in progress"@)]),
    }
}

/// The transition on an event of the user interface while no conversation
/// is in flight. The end of the input ends the process in good order; a
/// failure to read ends it with an error.
pub open spec fn on_event_at_rest(m: Machine, cfg: SettingsView, event: UiEventView) -> (
    Machine,
    Seq<ActionView>,
) {
    match event {
        UiEventView::Request(request) => on_request_at_rest(m, cfg, request),
        UiEventView::Invalid(text) => (m, seq![complain("invalid json: "@ + text)]),
        UiEventView::Eof => (Machine { stage: Stage::Finished, ..m }, seq![
            ActionView::Exit { status: 0 },
        ]),
        UiEventView::Timeout => (m, Seq::empty()),
        UiEventView::Failed(_) => (Machine { stage: Stage::Finished, ..m }, seq![
            ActionView::Exit { status: 1 },
        ]),
    }
}

/// The transition on an event of the user interface while the prompt `id` is
/// outstanding. The end of the input and a failure to read end the
/// conversation for good; the passing of the time allowed ends it softly.
pub open spec fn on_event_at_prompt(m: Machine, id: u64, event: UiEventView) -> (
    Machine,
    Seq<ActionView>,
) {
    match event {
        UiEventView::Request(request) => on_request_at_prompt(m, id, request),
        UiEventView::Invalid(text) => (m, seq![complain("invalid json: "@ + text)]),
        UiEventView::Eof => failed(m, pam_error_of("ui disconnected during auth"@), true),
        UiEventView::Timeout => failed(m, timeout_error(), true),
        UiEventView::Failed(text) => failed(m, pam_error_of(text), true),
    }
}

/// The transition on an event of the user interface while the
/// acknowledgement of success is awaited: the acknowledgement and the end of
/// the input end the process in good order, a failure to read ends it with
/// an error, and everything else is passed over.
pub open spec fn on_event_at_ack(m: Machine, event: UiEventView) -> (Machine, Seq<ActionView>) {
    match event {
        UiEventView::Request(UiRequestView::Ack { kind }) if kind == "success"@ => (
            Machine { stage: Stage::Finished, ..m },
            seq![ActionView::Exit { status: 0 }],
        ),
        UiEventView::Eof => (Machine { stage: Stage::Finished, ..m }, seq![
            ActionView::Exit { status: 0 },
        ]),
        UiEventView::Failed(_) => (Machine { stage: Stage::Finished, ..m }, seq![
            ActionView::Exit { status: 1 },
        ]),
        _ => (m, Seq::empty()),
    }
}

/// The transition on an event of the user interface. While the daemon's
/// answer is awaited, and once the process is to exit, no such event is
/// taken.
pub open spec fn on_ui_spec(m: Machine, cfg: SettingsView, event: UiEventView) -> (
    Machine,
    Seq<ActionView>,
) {
    match m.stage {
        Stage::Ready => on_event_at_rest(m, cfg, event),
        Stage::AwaitingPrompt { id } => on_event_at_prompt(m, id, event),
        Stage::AwaitingAck => on_event_at_ack(m, event),
        _ => (m, Seq::empty()),
    }
}

/// What holds of the machine between any two events: the stage and the phase
/// agree, an outstanding prompt is the one shown last, and at rest nothing is
/// left of a conversation.
pub open spec fn well_formed(m: Machine) -> bool {
    match m.stage {
        Stage::Ready => (m.phase == Phase::Idle || m.phase == Phase::Error) && m.detail is None
            && m.launch == no_launch(),
        Stage::AwaitingDaemon => m.phase == Phase::Auth,
        Stage::AwaitingPrompt { id } => m.phase == Phase::Auth && id == m.prompts && id >= 1,
        Stage::Starting => m.phase == Phase::Waiting,
        Stage::AwaitingAck => m.phase == Phase::Success,
        Stage::Finished => true,
    }
}

/// The machine as the process starts it.
pub open spec fn initial() -> Machine {
    Machine {
        phase: Phase::Idle,
        stage: Stage::Ready,
        prompts: 0,
        detail: None,
        launch: no_launch(),
    }
}

} // verus!
