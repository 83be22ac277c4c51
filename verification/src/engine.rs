//! The conversation engine: it takes the events of the user interface and of
//! the session daemon one at a time and answers each with the actions to
//! perform, as the transition function of the state machine lays down.

use crate::frame::{text_of, Request, Response};
use crate::greetd::{classify_auth_failure, AuthError, AuthMessageType};
use crate::launch::{resolve, Launch};
use crate::machine::{
    announce, at_rest, complain, daemon_failure, failed, initial, on_daemon_spec,
    on_event_at_ack, on_event_at_prompt, on_event_at_rest, on_request_at_prompt,
    on_request_at_rest, on_ui_spec, power_actions, remember, report, well_formed, Action,
    ActionView, DaemonEvent, Machine, Stage, UiEvent,
};
use crate::phase::{Phase, PhaseTracker};
use crate::power::{power_gate, PowerVerdict};
use crate::protocol::{BackendResponse, UiRequest};
use crate::settings::Settings;
use crate::state::StateUpdate;
use crate::text::{debug_list, decimal_text, same_text, trim};
use vstd::prelude::*;

verus! {

/// The engine of one backend process. It holds no answer of the user: an
/// answer to a prompt passes through it into the request for the daemon.
#[derive(Debug)]
pub struct Engine {
    phase: PhaseTracker,
    stage: Stage,
    prompts: u64,
    detail: Option<String>,
    launch: Launch,
}

impl View for Engine {
    type V = Machine;

    closed spec fn view(&self) -> Machine {
        Machine {
            phase: self.phase@,
            stage: self.stage,
            prompts: self.prompts,
            detail: text_of(self.detail),
            launch: self.launch@,
        }
    }
}

fn ask(list: &mut Vec<Action>, action: Action)
    ensures
        final(list).deep_view() == old(list).deep_view().push(action.deep_view()),
{
    let ghost prev = list.deep_view();
    list.push(action);
    assert(list.deep_view() =~= prev.push(action.deep_view()));
}

fn none() -> (list: Vec<Action>)
    ensures
        list.deep_view() == Seq::<ActionView>::empty(),
{
    let list: Vec<Action> = Vec::new();
    assert(list.deep_view() =~= Seq::<ActionView>::empty());
    list
}

/// The response that reports an error.
pub fn send_error(code: &str, message: &str) -> (said: Action)
    ensures
        said.deep_view() == report(code@, message@),
{
    Action::Emit(BackendResponse::Error { code: code.to_owned(), message: message.to_owned() })
}

fn complaint(message: &str) -> (list: Vec<Action>)
    ensures
        list.deep_view() == seq![complain(message@)],
{
    let mut list = none();
    ask(&mut list, send_error("pam_error", message));
    assert(list.deep_view() =~= seq![complain(message@)]);
    list
}

fn leave(status: u8) -> (list: Vec<Action>)
    ensures
        list.deep_view() == seq![ActionView::Exit { status }],
{
    let mut list = none();
    ask(&mut list, Action::Exit { status });
    assert(list.deep_view() =~= seq![ActionView::Exit { status }]);
    list
}

/// The failure that an error of the daemon during authentication amounts to.
pub fn daemon_error(error_type: &str, description: &str, detail: &Option<String>) -> (e: AuthError)
    ensures
        e@ == daemon_failure(error_type@, description@, text_of(*detail)),
{
    let empty = String::new();
    let said: &str = match detail {
        Some(text) => text.as_str(),
        None => empty.as_str(),
    };
    if same_text(error_type, "auth_error") {
        let kind = classify_auth_failure(description, said);
        return AuthError::auth_failure(kind, said);
    }
    let mut message = error_type.to_owned();
    message.append(": ");
    message.append(description);
    if !said.is_empty() {
        message.append(" (");
        message.append(said);
        message.append(")");
    }
    AuthError::pam_error(message.as_str())
}

impl Engine {
    /// What holds of the engine between any two events.
    pub open spec fn wf(&self) -> bool {
        well_formed(self@)
    }

    /// The engine of a process that begins, and the announcement of its
    /// first phase.
    pub fn start() -> (r: (Self, Vec<Action>))
        ensures
            r.0@ == initial(),
            r.0.wf(),
            r.1.deep_view() == seq![announce(Phase::Idle)],
    {
        let mut phase = PhaseTracker::new();
        let said = phase.set_phase(Phase::Idle);
        let engine = Engine {
            phase,
            stage: Stage::Ready,
            prompts: 0,
            detail: None,
            launch: Launch::none(),
        };
        let mut list = none();
        ask(&mut list, Action::Emit(said));
        assert(list.deep_view() =~= seq![announce(Phase::Idle)]);
        (engine, list)
    }

    /// The phase last announced.
    pub fn phase(&self) -> (phase: Phase)
        ensures
            phase == self@.phase,
    {
        self.phase.get()
    }

    /// Where the conversation stands.
    pub fn stage(&self) -> (stage: Stage)
        ensures
            stage == self@.stage,
    {
        self.stage
    }

    /// Whether the next event is to come from the user interface.
    pub fn awaits_ui(&self) -> (b: bool)
        ensures
            b == self@.stage.awaits_ui(),
    {
        match self.stage {
            Stage::Ready | Stage::AwaitingPrompt { .. } | Stage::AwaitingAck => true,
            _ => false,
        }
    }

    /// Whether the next event is to come from the daemon.
    pub fn awaits_daemon(&self) -> (b: bool)
        ensures
            b == self@.stage.awaits_daemon(),
    {
        match self.stage {
            Stage::AwaitingDaemon | Stage::Starting => true,
            _ => false,
        }
    }

    /// The prompt that is outstanding, if one is.
    pub fn awaited_prompt(&self) -> (id: Option<u64>)
        ensures
            id == (match self@.stage {
                Stage::AwaitingPrompt { id } => Some(id),
                _ => None,
            }),
    {
        match self.stage {
            Stage::AwaitingPrompt { id } => Some(id),
            _ => None,
        }
    }

    /// Whether the process is to exit.
    pub fn is_finished(&self) -> (b: bool)
        ensures
            b == (self@.stage is Finished),
    {
        match self.stage {
            Stage::Finished => true,
            _ => false,
        }
    }

    fn announced(&mut self, list: &mut Vec<Action>, phase: Phase)
        ensures
            final(self)@ == (Machine { phase, ..old(self)@ }),
            final(list).deep_view() == old(list).deep_view().push(announce(phase)),
    {
        let said = self.phase.set_phase(phase);
        ask(list, Action::Emit(said));
    }

    fn rest(&mut self)
        ensures
            final(self)@ == at_rest(old(self)@, old(self)@.phase),
    {
        self.stage = Stage::Ready;
        self.detail = None;
        self.launch = Launch::none();
    }

    /// Ends the conversation by a failure.
    fn fail(&mut self, error: AuthError, cancel: bool) -> (list: Vec<Action>)
        ensures
            (final(self)@, list.deep_view()) == failed(old(self)@, error@, cancel),
    {
        let mut list = none();
        if cancel {
            ask(&mut list, Action::Send(Request::CancelSession));
        }
        ask(&mut list, Action::Close);
        let ghost wire = list.deep_view();
        let soft = error.return_to_idle();
        let said = send_error(error.code().as_str(), error.message());
        self.rest();
        if soft {
            ask(&mut list, said);
            self.announced(&mut list, Phase::Idle);
            assert(list.deep_view() =~= wire + seq![said.deep_view(), announce(Phase::Idle)]);
        } else {
            self.announced(&mut list, Phase::Error);
            ask(&mut list, said);
            assert(list.deep_view() =~= wire + seq![announce(Phase::Error), said.deep_view()]);
        }
        list
    }

    /// What a request for a power action leads to.
    fn power(&self, cfg: &Settings, action: &str) -> (list: Vec<Action>)
        ensures
            list.deep_view() == power_actions(self@.phase, action@, cfg@),
    {
        let mut list = none();
        match power_gate(self.phase.get(), action, cfg) {
            PowerVerdict::Refuse { code, message } => {
                ask(&mut list, send_error(code.as_str(), message.as_str()));
                assert(list.deep_view() =~= seq![report(code@, message@)]);
            },
            PowerVerdict::Call { method, interactive } => {
                ask(&mut list, Action::Dispatch { method, interactive });
                assert(list.deep_view() =~= seq![
                    ActionView::Dispatch { method: method@, interactive },
                ]);
            },
        }
        list
    }

    fn request_at_rest(&mut self, cfg: &Settings, request: UiRequest) -> (list: Vec<Action>)
        requires
            old(self)@.stage is Ready,
        ensures
            (final(self)@, list.deep_view()) == on_request_at_rest(old(self)@, cfg@, request@),
    {
        match request {
            UiRequest::Hello { .. } => {
                let mut list = none();
                self.announced(&mut list, Phase::Idle);
                assert(list.deep_view() =~= seq![announce(Phase::Idle)]);
                list
            },
            UiRequest::Auth { username, command, env, session_id, profile_id, locale } => {
                let mut list = none();
                self.announced(&mut list, Phase::Auth);
                let name = trim(username.as_str());
                if name.as_str().is_empty() {
                    self.announced(&mut list, Phase::Error);
                    ask(&mut list, send_error("pam_error", "username is required"));
                    assert(list.deep_view() =~= seq![
                        announce(Phase::Auth),
                        announce(Phase::Error),
                        complain("username is required"@),
                    ]);
                    return list;
                }
                self.launch = resolve(cfg, command, env, session_id, profile_id, locale);
                self.detail = None;
                self.stage = Stage::AwaitingDaemon;
                ask(&mut list, Action::Connect);
                ask(&mut list, Action::Send(Request::CreateSession { username: name }));
                assert(list.deep_view() =~= seq![
                    announce(Phase::Auth),
                    ActionView::Connect,
                    ActionView::Send(crate::frame::RequestView::CreateSession { username: name@ }),
                ]);
                list
            },
            UiRequest::Start { command, .. } => {
                let mut message = "start not implemented: ".to_owned();
                message.append(debug_list(&command).as_str());
                complaint(message.as_str())
            },
            UiRequest::PromptResponse { .. } => complaint("no active prompt"),
            UiRequest::Cancel => complaint("no active auth session"),
            UiRequest::Ack { .. } => complaint("unexpected ack"),
            UiRequest::Power { action } => self.power(cfg, action.as_str()),
        }
    }

    fn request_at_prompt(&mut self, id: u64, request: UiRequest) -> (list: Vec<Action>)
        ensures
            (final(self)@, list.deep_view()) == on_request_at_prompt(old(self)@, id, request@),
    {
        match request {
            UiRequest::PromptResponse { id: answered, response } => {
                if answered != id {
                    let mut message = "unexpected prompt id: ".to_owned();
                    message.append(decimal_text(answered).as_str());
                    return complaint(message.as_str());
                }
                match response {
                    Some(answer) => {
                        self.stage = Stage::AwaitingDaemon;
                        let mut list = none();
                        ask(
                            &mut list,
                            Action::Send(Request::PostAuthMessageResponse { response: Some(answer) }),
                        );
                        assert(list.deep_view() =~= seq![
                            ActionView::Send(
                                crate::frame::RequestView::PostAuthMessageResponse {
                                    response: Some(answer@),
                                },
                            ),
                        ]);
                        list
                    },
                    None => self.fail(AuthError::pam_error("prompt response missing"), true),
                }
            },
            UiRequest::Cancel => self.fail(AuthError::cancelled(), true),
            UiRequest::Hello { .. } => none(),
            _ => complaint("auth in progress"),
        }
    }

    /// Takes the next event while no conversation is in flight.
    fn next_request(&mut self, cfg: &Settings, event: UiEvent) -> (list: Vec<Action>)
        requires
            old(self)@.stage is Ready,
        ensures
            (final(self)@, list.deep_view()) == on_event_at_rest(old(self)@, cfg@, event@),
    {
        match event {
            UiEvent::Request(request) => self.request_at_rest(cfg, request),
            UiEvent::Invalid(text) => {
                let mut message = "invalid json: ".to_owned();
                message.append(text.as_str());
                complaint(message.as_str())
            },
            UiEvent::Eof => {
                self.stage = Stage::Finished;
                leave(0)
            },
            UiEvent::Timeout => none(),
            UiEvent::Failed(_) => {
                self.stage = Stage::Finished;
                leave(1)
            },
        }
    }

    /// Takes the next event while the answer to the prompt `id` is awaited.
    fn wait_prompt_response(&mut self, id: u64, event: UiEvent) -> (list: Vec<Action>)
        ensures
            (final(self)@, list.deep_view()) == on_event_at_prompt(old(self)@, id, event@),
    {
        match event {
            UiEvent::Request(request) => self.request_at_prompt(id, request),
            UiEvent::Invalid(text) => {
                let mut message = "invalid json: ".to_owned();
                message.append(text.as_str());
                complaint(message.as_str())
            },
            UiEvent::Eof => self.fail(AuthError::pam_error("ui disconnected during auth"), true),
            UiEvent::Timeout => self.fail(AuthError::timeout(), true),
            UiEvent::Failed(text) => self.fail(AuthError::pam_error(text.as_str()), true),
        }
    }

    /// Takes the next event while the acknowledgement of success is awaited.
    fn wait_for_ack(&mut self, event: UiEvent) -> (list: Vec<Action>)
        ensures
            (final(self)@, list.deep_view()) == on_event_at_ack(old(self)@, event@),
    {
        match event {
            UiEvent::Request(UiRequest::Ack { kind }) => {
                if same_text(kind.as_str(), "success") {
                    self.stage = Stage::Finished;
                    leave(0)
                } else {
                    none()
                }
            },
            UiEvent::Eof => {
                self.stage = Stage::Finished;
                leave(0)
            },
            UiEvent::Failed(_) => {
                self.stage = Stage::Finished;
                leave(1)
            },
            _ => none(),
        }
    }

    /// Takes an event of the user interface and returns what is to be done.
    /// While the daemon's answer is awaited, or once the process is to exit,
    /// the event is not taken: nothing changes and nothing is to be done.
    pub fn on_ui(&mut self, cfg: &Settings, event: UiEvent) -> (list: Vec<Action>)
        ensures
            (final(self)@, list.deep_view()) == on_ui_spec(old(self)@, cfg@, event@),
            old(self).wf() ==> final(self).wf(),
    {
        let list = match self.stage {
            Stage::Ready => self.next_request(cfg, event),
            Stage::AwaitingPrompt { id } => self.wait_prompt_response(id, event),
            Stage::AwaitingAck => self.wait_for_ack(event),
            _ => none(),
        };
        proof {
            if old(self).wf() && old(self)@.stage.awaits_ui() {
                crate::laws::lemma_ui_keeps_well_formed(old(self)@, cfg@, event@);
            }
        }
        list
    }

    fn reply_in_auth(&mut self, response: Response) -> (list: Vec<Action>)
        requires
            old(self)@.stage is AwaitingDaemon,
        ensures
            (final(self)@, list.deep_view()) == on_daemon_spec(
                old(self)@,
                crate::machine::DaemonEventView::Reply(response@),
            ),
    {
        match response {
            Response::Success => {
                let mut list = none();
                self.announced(&mut list, Phase::Waiting);
                self.stage = Stage::Starting;
                let mut cmd: Vec<String> = Vec::new();
                let mut env: Vec<String> = Vec::new();
                core::mem::swap(&mut cmd, &mut self.launch.command);
                core::mem::swap(&mut env, &mut self.launch.env);
                assert(self.launch.command.deep_view() =~= Seq::<Seq<char>>::empty());
                assert(self.launch.env.deep_view() =~= Seq::<Seq<char>>::empty());
                ask(&mut list, Action::Send(Request::StartSession { cmd, env }));
                assert(list.deep_view() =~= seq![
                    announce(Phase::Waiting),
                    ActionView::Send(
                        crate::frame::RequestView::StartSession {
                            cmd: old(self)@.launch.command,
                            env: old(self)@.launch.env,
                        },
                    ),
                ]);
                list
            },
            Response::AuthMessage { auth_message_type, auth_message } => {
                let message = trim(auth_message.as_str());
                if auth_message_type.is_prompt() {
                    if self.prompts == u64::MAX {
                        return self.fail(AuthError::pam_error("prompt identifiers exhausted"), true);
                    }
                    let id = self.prompts + 1;
                    self.prompts = id;
                    self.stage = Stage::AwaitingPrompt { id };
                    let echo = match auth_message_type {
                        AuthMessageType::Visible => true,
                        _ => false,
                    };
                    let mut list = none();
                    ask(
                        &mut list,
                        Action::Emit(
                            BackendResponse::Prompt { id, kind: auth_message_type, message, echo },
                        ),
                    );
                    assert(list.deep_view() =~= seq![
                        ActionView::Emit(
                            crate::protocol::BackendResponseView::Prompt {
                                id,
                                kind: auth_message_type,
                                message: message@,
                                echo,
                            },
                        ),
                    ]);
                    list
                } else {
                    if !message.as_str().is_empty() {
                        self.detail = Some(auth_message);
                    }
                    let mut list = none();
                    ask(
                        &mut list,
                        Action::Emit(BackendResponse::Message { kind: auth_message_type, message }),
                    );
                    ask(&mut list, Action::Send(Request::PostAuthMessageResponse { response: None }));
                    assert(list.deep_view() =~= seq![
                        ActionView::Emit(
                            crate::protocol::BackendResponseView::Message {
                                kind: auth_message_type,
                                message: message@,
                            },
                        ),
                        ActionView::Send(
                            crate::frame::RequestView::PostAuthMessageResponse { response: None },
                        ),
                    ]);
                    list
                }
            },
            Response::Error { error_type, description } => {
                let error = daemon_error(error_type.as_str(), description.as_str(), &self.detail);
                self.fail(error, true)
            },
        }
    }

    fn reply_in_start(&mut self, response: Response) -> (list: Vec<Action>)
        requires
            old(self)@.stage is Starting,
        ensures
            (final(self)@, list.deep_view()) == on_daemon_spec(
                old(self)@,
                crate::machine::DaemonEventView::Reply(response@),
            ),
    {
        match response {
            Response::Success => {
                let mut list = none();
                ask(&mut list, Action::Close);
                let mut update = StateUpdate { session_id: None, profile_id: None, locale: None };
                core::mem::swap(&mut update, &mut self.launch.update);
                if update.session_id.is_some() || update.profile_id.is_some()
                    || update.locale.is_some() {
                    ask(&mut list, Action::Persist(update));
                }
                let ghost sofar = list.deep_view();
                assert(sofar =~= seq![ActionView::Close] + remember(old(self)@.launch.update));
                self.stage = Stage::AwaitingAck;
                self.detail = None;
                self.launch = Launch::none();
                self.announced(&mut list, Phase::Success);
                ask(&mut list, Action::Emit(BackendResponse::Success));
                assert(list.deep_view() =~= sofar + seq![
                    announce(Phase::Success),
                    ActionView::Emit(crate::protocol::BackendResponseView::Success),
                ]);
                list
            },
            Response::Error { error_type, description } => {
                let mut message = error_type;
                message.append(": ");
                message.append(description.as_str());
                self.fail(AuthError::pam_error(message.as_str()), false)
            },
            Response::AuthMessage { auth_message, .. } => {
                let mut message = "unexpected auth message during start_session: ".to_owned();
                message.append(auth_message.as_str());
                self.fail(AuthError::pam_error(message.as_str()), false)
            },
        }
    }

    /// Takes an event of the daemon and returns what is to be done. While
    /// the daemon's answer is not awaited, the event is not taken: nothing
    /// changes and nothing is to be done.
    pub fn on_daemon(&mut self, event: DaemonEvent) -> (list: Vec<Action>)
        ensures
            (final(self)@, list.deep_view()) == on_daemon_spec(old(self)@, event@),
            old(self).wf() ==> final(self).wf(),
    {
        let list = match self.stage {
            Stage::AwaitingDaemon => match event {
                DaemonEvent::Reply(response) => self.reply_in_auth(response),
                DaemonEvent::Failed(text) => self.fail(AuthError::pam_error(text.as_str()), false),
            },
            Stage::Starting => match event {
                DaemonEvent::Reply(response) => self.reply_in_start(response),
                DaemonEvent::Failed(text) => self.fail(AuthError::pam_error(text.as_str()), false),
            },
            _ => none(),
        };
        proof {
            if old(self).wf() && old(self)@.stage.awaits_daemon() {
                crate::laws::lemma_daemon_keeps_well_formed(old(self)@, event@);
            }
        }
        list
    }
}

} // verus!
