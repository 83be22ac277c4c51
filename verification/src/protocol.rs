//! The messages exchanged with the user interface.

use crate::frame::text_of;
use crate::greetd::AuthMessageType;
use crate::phase::Phase;
use vstd::prelude::*;

verus! {

/// A request of the user interface.
#[derive(Debug, PartialEq, Eq)]
pub enum UiRequest {
    Hello { ui_version: u32 },
    Auth {
        username: String,
        command: Vec<String>,
        env: Vec<(String, String)>,
        session_id: Option<String>,
        profile_id: Option<String>,
        locale: Option<String>,
    },
    PromptResponse { id: u64, response: Option<String> },
    Cancel,
    Start { command: Vec<String>, env: Vec<(String, String)> },
    Power { action: String },
    Ack { kind: String },
}

/// A [`UiRequest`] as plain values.
pub enum UiRequestView {
    Hello { ui_version: u32 },
    Auth {
        username: Seq<char>,
        command: Seq<Seq<char>>,
        env: Seq<(Seq<char>, Seq<char>)>,
        session_id: Option<Seq<char>>,
        profile_id: Option<Seq<char>>,
        locale: Option<Seq<char>>,
    },
    PromptResponse { id: u64, response: Option<Seq<char>> },
    Cancel,
    Start { command: Seq<Seq<char>>, env: Seq<(Seq<char>, Seq<char>)> },
    Power { action: Seq<char> },
    Ack { kind: Seq<char> },
}

impl View for UiRequest {
    type V = UiRequestView;

    open spec fn view(&self) -> UiRequestView {
        match *self {
            UiRequest::Hello { ui_version } => UiRequestView::Hello { ui_version },
            UiRequest::Auth { username, command, env, session_id, profile_id, locale } => {
                UiRequestView::Auth {
                    username: username@,
                    command: command.deep_view(),
                    env: env.deep_view(),
                    session_id: text_of(session_id),
                    profile_id: text_of(profile_id),
                    locale: text_of(locale),
                }
            },
            UiRequest::PromptResponse { id, response } => UiRequestView::PromptResponse {
                id,
                response: text_of(response),
            },
            UiRequest::Cancel => UiRequestView::Cancel,
            UiRequest::Start { command, env } => UiRequestView::Start {
                command: command.deep_view(),
                env: env.deep_view(),
            },
            UiRequest::Power { action } => UiRequestView::Power { action: action@ },
            UiRequest::Ack { kind } => UiRequestView::Ack { kind: kind@ },
        }
    }
}

/// A response to the user interface.
#[derive(Debug, PartialEq, Eq)]
pub enum BackendResponse {
    State { phase: Phase },
    Prompt { id: u64, kind: AuthMessageType, message: String, echo: bool },
    Message { kind: AuthMessageType, message: String },
    Error { code: String, message: String },
    Success,
}

/// A [`BackendResponse`] as plain values.
pub enum BackendResponseView {
    State { phase: Phase },
    Prompt { id: u64, kind: AuthMessageType, message: Seq<char>, echo: bool },
    Message { kind: AuthMessageType, message: Seq<char> },
    Error { code: Seq<char>, message: Seq<char> },
    Success,
}

impl View for BackendResponse {
    type V = BackendResponseView;

    open spec fn view(&self) -> BackendResponseView {
        match *self {
            BackendResponse::State { phase } => BackendResponseView::State { phase },
            BackendResponse::Prompt { id, kind, message, echo } => BackendResponseView::Prompt {
                id,
                kind,
                message: message@,
                echo,
            },
            BackendResponse::Message { kind, message } => BackendResponseView::Message {
                kind,
                message: message@,
            },
            BackendResponse::Error { code, message } => BackendResponseView::Error {
                code: code@,
                message: message@,
            },
            BackendResponse::Success => BackendResponseView::Success,
        }
    }
}

/// The wire name of a prompt's kind.
pub open spec fn kind_name(kind: AuthMessageType) -> Seq<char> {
    match kind {
        AuthMessageType::Visible => "visible"@,
        AuthMessageType::Secret => "secret"@,
        AuthMessageType::Info => "info"@,
        AuthMessageType::Error => "error"@,
    }
}

/// The wire name of a prompt's kind, and whether its answer is echoed.
pub fn prompt_kind(kind: AuthMessageType) -> (r: (&'static str, bool))
    requires
        kind.asks(),
    ensures
        r.0@ == kind_name(kind),
        r.1 == (kind == AuthMessageType::Visible),
{
    match kind {
        AuthMessageType::Visible => ("visible", true),
        _ => ("secret", false),
    }
}

/// The wire name of the kind of a message that asks for no answer.
pub fn message_kind(kind: AuthMessageType) -> (r: &'static str)
    requires
        !kind.asks(),
    ensures
        r@ == kind_name(kind),
{
    match kind {
        AuthMessageType::Info => "info",
        _ => "error",
    }
}

} // verus!
