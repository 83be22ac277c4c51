use tiss_greetd::engine::Engine;
use tiss_greetd::frame::{Request, Response};
use tiss_greetd::greetd::AuthMessageType;
use tiss_greetd::machine::{Action, DaemonEvent, Stage, UiEvent};
use tiss_greetd::phase::Phase;
use tiss_greetd::power::{power_gate, PowerVerdict};
use tiss_greetd::protocol::{BackendResponse, UiRequest};
use tiss_greetd::settings::Settings;
use tiss_greetd::state::{persist_state_update, PersistedState, StateUpdate};

fn settings() -> Settings {
    Settings {
        sessions: vec![],
        profiles: vec![],
        default_command: vec!["niri".to_string()],
        power_actions: vec!["poweroff".to_string(), "reboot".to_string()],
        power_allowed_states: vec!["idle".to_string()],
    }
}

fn state(phase: Phase) -> Action {
    Action::Emit(BackendResponse::State { phase })
}

fn error(code: &str, message: &str) -> Action {
    Action::Emit(BackendResponse::Error { code: code.to_string(), message: message.to_string() })
}

fn auth(username: &str, session_id: Option<&str>) -> UiEvent {
    UiEvent::Request(UiRequest::Auth {
        username: username.to_string(),
        command: vec![],
        env: vec![],
        session_id: session_id.map(|s| s.to_string()),
        profile_id: None,
        locale: None,
    })
}

fn answer(id: u64, response: Option<&str>) -> UiEvent {
    UiEvent::Request(UiRequest::PromptResponse { id, response: response.map(|s| s.to_string()) })
}

fn daemon_message(kind: AuthMessageType, text: &str) -> DaemonEvent {
    DaemonEvent::Reply(Response::AuthMessage {
        auth_message_type: kind,
        auth_message: text.to_string(),
    })
}

fn daemon_error(error_type: &str, description: &str) -> DaemonEvent {
    DaemonEvent::Reply(Response::Error {
        error_type: error_type.to_string(),
        description: description.to_string(),
    })
}

fn default_lines() -> Vec<String> {
    vec![
        "XDG_CURRENT_DESKTOP=niri".to_string(),
        "XDG_SESSION_CLASS=user".to_string(),
        "XDG_SESSION_DESKTOP=niri".to_string(),
        "XDG_SESSION_TYPE=wayland".to_string(),
    ]
}

/// An engine with the password prompt of `alice` outstanding.
fn at_password_prompt(cfg: &Settings) -> Engine {
    let (mut engine, _) = Engine::start();
    engine.on_ui(cfg, auth("alice", Some("niri")));
    engine.on_daemon(daemon_message(AuthMessageType::Secret, "Password:"));
    assert_eq!(engine.stage(), Stage::AwaitingPrompt { id: 1 });
    engine
}

#[test]
fn happy_path_with_one_password_prompt() {
    let cfg = settings();
    let (mut engine, boot) = Engine::start();
    assert_eq!(boot, vec![state(Phase::Idle)]);

    let hello = engine.on_ui(&cfg, UiEvent::Request(UiRequest::Hello { ui_version: 1 }));
    assert_eq!(hello, vec![state(Phase::Idle)]);

    let begun = engine.on_ui(&cfg, auth("alice", Some("niri")));
    assert_eq!(
        begun,
        vec![
            state(Phase::Auth),
            Action::Connect,
            Action::Send(Request::CreateSession { username: "alice".to_string() }),
        ]
    );
    assert!(engine.awaits_daemon());

    let prompted = engine.on_daemon(daemon_message(AuthMessageType::Secret, "Password:"));
    assert_eq!(
        prompted,
        vec![Action::Emit(BackendResponse::Prompt {
            id: 1,
            kind: AuthMessageType::Secret,
            message: "Password:".to_string(),
            echo: false,
        })]
    );
    assert_eq!(engine.awaited_prompt(), Some(1));

    let forwarded = engine.on_ui(&cfg, answer(1, Some("hunter2")));
    assert_eq!(
        forwarded,
        vec![Action::Send(Request::PostAuthMessageResponse {
            response: Some("hunter2".to_string())
        })]
    );

    let accepted = engine.on_daemon(DaemonEvent::Reply(Response::Success));
    assert_eq!(
        accepted,
        vec![
            state(Phase::Waiting),
            Action::Send(Request::StartSession {
                cmd: vec!["niri".to_string()],
                env: default_lines(),
            }),
        ]
    );

    let started = engine.on_daemon(DaemonEvent::Reply(Response::Success));
    let update = StateUpdate {
        session_id: Some("niri".to_string()),
        profile_id: None,
        locale: None,
    };
    assert_eq!(
        started,
        vec![
            Action::Close,
            Action::Persist(StateUpdate {
                session_id: Some("niri".to_string()),
                profile_id: None,
                locale: None,
            }),
            state(Phase::Success),
            Action::Emit(BackendResponse::Success),
        ]
    );
    assert_eq!(
        persist_state_update(PersistedState::empty(), &update),
        Some(PersistedState {
            last_session_id: Some("niri".to_string()),
            last_profile_id: None,
            last_locale: None,
        })
    );

    let done = engine.on_ui(
        &cfg,
        UiEvent::Request(UiRequest::Ack { kind: "success".to_string() }),
    );
    assert_eq!(done, vec![Action::Exit { status: 0 }]);
    assert!(engine.is_finished());
}

#[test]
fn bad_password_is_reported_and_the_engine_stays_ready() {
    let cfg = settings();
    let mut engine = at_password_prompt(&cfg);
    engine.on_ui(&cfg, answer(1, Some("wrong")));
    let refused = engine.on_daemon(daemon_error("auth_error", "PAM_AUTH_ERR"));
    assert_eq!(
        refused,
        vec![
            Action::Send(Request::CancelSession),
            Action::Close,
            state(Phase::Error),
            error("auth_failed", "Authentication failed"),
        ]
    );
    assert_eq!(engine.stage(), Stage::Ready);
    assert_eq!(engine.phase(), Phase::Error);

    let again = engine.on_ui(&cfg, auth("alice", Some("niri")));
    assert_eq!(again[0], state(Phase::Auth));
    assert!(engine.awaits_daemon());
}

#[test]
fn locked_account_is_recognised_from_an_info_message() {
    let cfg = settings();
    let (mut engine, _) = Engine::start();
    engine.on_ui(&cfg, auth("alice", None));
    let told = engine.on_daemon(daemon_message(
        AuthMessageType::Info,
        "Account locked due to repeated failures",
    ));
    assert_eq!(
        told,
        vec![
            Action::Emit(BackendResponse::Message {
                kind: AuthMessageType::Info,
                message: "Account locked due to repeated failures".to_string(),
            }),
            Action::Send(Request::PostAuthMessageResponse { response: None }),
        ]
    );
    let refused = engine.on_daemon(daemon_error("auth_error", "authentication failed"));
    assert_eq!(
        refused,
        vec![
            Action::Send(Request::CancelSession),
            Action::Close,
            state(Phase::Error),
            error(
                "account_locked",
                "Account locked or disabled (Account locked due to repeated failures)"
            ),
        ]
    );
}

#[test]
fn cancellation_during_a_prompt_is_a_soft_failure() {
    let cfg = settings();
    let mut engine = at_password_prompt(&cfg);
    let cancelled = engine.on_ui(&cfg, UiEvent::Request(UiRequest::Cancel));
    assert_eq!(
        cancelled,
        vec![
            Action::Send(Request::CancelSession),
            Action::Close,
            error("pam_error", "authentication cancelled"),
            state(Phase::Idle),
        ]
    );
    assert_eq!(engine.stage(), Stage::Ready);
    assert_eq!(engine.phase(), Phase::Idle);
}

#[test]
fn out_of_order_prompt_response_leaves_the_prompt_outstanding() {
    let cfg = settings();
    let mut engine = at_password_prompt(&cfg);
    let stray = engine.on_ui(&cfg, answer(42, Some("x")));
    assert_eq!(stray, vec![error("pam_error", "unexpected prompt id: 42")]);
    assert_eq!(engine.awaited_prompt(), Some(1));

    let forwarded = engine.on_ui(&cfg, answer(1, Some("x")));
    assert_eq!(
        forwarded,
        vec![Action::Send(Request::PostAuthMessageResponse { response: Some("x".to_string()) })]
    );
    assert!(engine.awaits_daemon());
}

#[test]
fn power_action_is_denied_during_auth() {
    let cfg = settings();
    assert_eq!(cfg.power_allowed_states, vec!["idle".to_string()]);
    assert_eq!(
        power_gate(Phase::Auth, "poweroff", &cfg),
        PowerVerdict::Refuse {
            code: "power_denied".to_string(),
            message: "power action not allowed during auth".to_string(),
        }
    );
}
