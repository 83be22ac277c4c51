//! What holds of every conversation, proved of the transition function.

use crate::frame::RequestView;
use crate::machine::{
    announce, failed, on_daemon_spec, on_ui_spec, well_formed, ActionView, DaemonEventView,
    Machine, Stage, UiEventView,
};
use crate::frame::ResponseView;
use crate::greetd::AuthErrorView;
use crate::phase::Phase;
use crate::protocol::{BackendResponseView, UiRequestView};
use crate::settings::SettingsView;
use vstd::prelude::*;

verus! {

/// The phases that a list of actions announces, in order.
pub open spec fn announced(actions: Seq<ActionView>) -> Seq<Phase>
    decreases actions.len(),
{
    if actions.len() == 0 {
        Seq::empty()
    } else {
        match actions.last() {
            ActionView::Emit(BackendResponseView::State { phase }) => announced(
                actions.drop_last(),
            ).push(phase),
            _ => announced(actions.drop_last()),
        }
    }
}

/// Each of `phases` is a legal successor of the one before it, the first of
/// `from`.
pub open spec fn follows(from: Phase, phases: Seq<Phase>) -> bool
    decreases phases.len(),
{
    phases.len() == 0 || (from.may_become(phases[0]) && follows(phases[0], phases.drop_first()))
}

/// The action touches the socket of the daemon.
pub open spec fn on_the_wire(action: ActionView) -> bool {
    action is Connect || action is Send || action is Close
}

/// None of the actions touches the socket of the daemon.
pub open spec fn off_the_wire(actions: Seq<ActionView>) -> bool {
    forall|i: int| 0 <= i < actions.len() ==> !on_the_wire(#[trigger] actions[i])
}

/// None of the actions shows a prompt.
pub open spec fn shows_no_prompt(actions: Seq<ActionView>) -> bool {
    forall|i: int|
        0 <= i < actions.len() ==> !(#[trigger] actions[i] matches ActionView::Emit(
            BackendResponseView::Prompt { .. },
        ))
}

/// The actions begin with a `cancel_session` and the closing of the socket,
/// and touch the socket no more after that.
pub open spec fn cancels_then_closes(actions: Seq<ActionView>) -> bool {
    &&& actions.len() >= 2
    &&& actions[0] == ActionView::Send(RequestView::CancelSession)
    &&& actions[1] == ActionView::Close
    &&& off_the_wire(actions.skip(2))
}

proof fn lemma_announced_of_failure(m: Machine, error: AuthErrorView, cancel: bool)
    ensures
        announced(failed(m, error, cancel).1) == seq![
            if error.return_to_idle {
                Phase::Idle
            } else {
                Phase::Error
            },
        ],
        cancel ==> cancels_then_closes(failed(m, error, cancel).1),
        shows_no_prompt(failed(m, error, cancel).1),
        failed(m, error, cancel).1.len() >= 3,
        !cancel ==> failed(m, error, cancel).1[0] == ActionView::Close && off_the_wire(
            failed(m, error, cancel).1.skip(1),
        ),
{
    let actions = failed(m, error, cancel).1;
    reveal_with_fuel(announced, 5);
    if cancel {
        assert(actions.len() == 4);
        assert(actions.drop_last().drop_last().drop_last().drop_last().len() == 0);
        assert(off_the_wire(actions.skip(2)));
    } else {
        assert(actions.len() == 3);
        assert(actions.drop_last().drop_last().drop_last().len() == 0);
        assert(off_the_wire(actions.skip(1)));
    }
}

/// An event of the user interface leaves the machine well formed.
pub proof fn lemma_ui_keeps_well_formed(m: Machine, cfg: SettingsView, event: UiEventView)
    requires
        well_formed(m),
    ensures
        well_formed(on_ui_spec(m, cfg, event).0),
{
}

/// An event of the daemon leaves the machine well formed.
pub proof fn lemma_daemon_keeps_well_formed(m: Machine, event: DaemonEventView)
    requires
        well_formed(m),
    ensures
        well_formed(on_daemon_spec(m, event).0),
{
}

// ---------------------------------------------------------------------------
// Prompts
// ---------------------------------------------------------------------------

/// A prompt that was shown is either answered, or cancelled, or still
/// outstanding. While prompt `id` is outstanding, every event of the user
/// interface has one of three outcomes: the prompt stays outstanding and the
/// daemon hears nothing; or the event is the answer to this very prompt, and
/// that answer, nothing else, is sent to the daemon; or the conversation ends,
/// with a `cancel_session` sent to the daemon before the socket is closed.
pub proof fn lemma_prompt_is_answered_or_cancelled(
    m: Machine,
    cfg: SettingsView,
    event: UiEventView,
    id: u64,
)
    requires
        well_formed(m),
        m.stage == (Stage::AwaitingPrompt { id }),
    ensures
        ({
            let (next, actions) = on_ui_spec(m, cfg, event);
            ||| next.stage == m.stage && off_the_wire(actions) && shows_no_prompt(actions)
            ||| event matches UiEventView::Request(
                UiRequestView::PromptResponse { id: answered, response: Some(answer) },
            ) && answered == id && next.stage is AwaitingDaemon && actions == seq![
                ActionView::Send(RequestView::PostAuthMessageResponse { response: Some(answer) }),
            ]
            ||| next.stage is Ready && cancels_then_closes(actions) && shows_no_prompt(actions)
        }),
{
    let (next, actions) = on_ui_spec(m, cfg, event);
    match event {
        UiEventView::Request(request) => match request {
            UiRequestView::PromptResponse { id: answered, response } => {
                if answered == id && response is None {
                    lemma_announced_of_failure(m, crate::greetd::pam_error_of("prompt response missing"@), true);
                }
            },
            UiRequestView::Cancel => {
                lemma_announced_of_failure(m, crate::greetd::cancelled_error(), true);
            },
            _ => {},
        },
        UiEventView::Eof => {
            lemma_announced_of_failure(
                m,
                crate::greetd::pam_error_of("ui disconnected during auth"@),
                true,
            );
        },
        UiEventView::Timeout => {
            lemma_announced_of_failure(m, crate::greetd::timeout_error(), true);
        },
        UiEventView::Failed(text) => {
            lemma_announced_of_failure(m, crate::greetd::pam_error_of(text), true);
        },
        UiEventView::Invalid(_) => {},
    }
}

/// Prompts are numbered as they are shown. An event of the daemon shows at
/// most one prompt; its number is one more than that of the prompt before
/// it, its kind asks for an answer, and it is outstanding afterwards.
pub proof fn lemma_prompts_are_numbered(m: Machine, event: DaemonEventView, i: int)
    requires
        well_formed(m),
        0 <= i < on_daemon_spec(m, event).1.len(),
        on_daemon_spec(m, event).1[i] matches ActionView::Emit(BackendResponseView::Prompt { .. }),
    ensures
        ({
            let (next, actions) = on_daemon_spec(m, event);
            &&& actions.len() == 1
            &&& actions[0] matches ActionView::Emit(
                BackendResponseView::Prompt { id, kind, echo, .. },
            ) && id == m.prompts + 1 && kind.asks() && echo == (kind
                == crate::greetd::AuthMessageType::Visible) && next.stage == (Stage::AwaitingPrompt {
                id,
            }) && next.prompts == id
        }),
{
    let (next, actions) = on_daemon_spec(m, event);
    match event {
        DaemonEventView::Reply(ResponseView::AuthMessage { auth_message_type, auth_message }) => {
            if m.stage is AwaitingDaemon && auth_message_type.asks() && m.prompts == u64::MAX {
                lemma_announced_of_failure(
                    m,
                    crate::greetd::pam_error_of("prompt identifiers exhausted"@),
                    true,
                );
            } else if m.stage is Starting {
                lemma_announced_of_failure(
                    m,
                    crate::greetd::pam_error_of(
                        "unexpected auth message during start_session: "@ + auth_message,
                    ),
                    false,
                );
            }
        },
        DaemonEventView::Reply(ResponseView::Error { error_type, description }) => {
            if m.stage is AwaitingDaemon {
                lemma_announced_of_failure(
                    m,
                    crate::machine::daemon_failure(error_type, description, m.detail),
                    true,
                );
            } else {
                lemma_announced_of_failure(
                    m,
                    crate::greetd::pam_error_of(error_type + ": "@ + description),
                    false,
                );
            }
        },
        DaemonEventView::Reply(ResponseView::Success) => {
            if m.stage is Starting {
                let r = crate::machine::remember(m.launch.update);
                assert(r.len() <= 1);
            }
        },
        DaemonEventView::Failed(text) => {
            lemma_announced_of_failure(m, crate::greetd::pam_error_of(text), false);
        },
    }
}

/// No event of the user interface shows a prompt, and the count of prompts
/// never goes down.
pub proof fn lemma_only_the_daemon_prompts(m: Machine, cfg: SettingsView, event: UiEventView)
    requires
        well_formed(m),
    ensures
        shows_no_prompt(on_ui_spec(m, cfg, event).1),
        on_ui_spec(m, cfg, event).0.prompts == m.prompts,
{
    match m.stage {
        Stage::AwaitingPrompt { id } => {
            lemma_prompt_is_answered_or_cancelled(m, cfg, event, id);
        },
        _ => {},
    }
}

// ---------------------------------------------------------------------------
// The start of the session
// ---------------------------------------------------------------------------

/// The action asks the daemon to start the session.
pub open spec fn starts_session(action: ActionView) -> bool {
    action matches ActionView::Send(RequestView::StartSession { .. })
}

/// `waiting` is announced exactly once, between the daemon's acceptance of
/// the credentials and the request to start the session. An event of the
/// daemon leads to that request if and only if it is the daemon's `success`
/// during authentication; the actions are then the announcement of `waiting`
/// followed by the request, and nothing else. No other event of the daemon
/// announces `waiting`.
pub proof fn lemma_waiting_precedes_start(m: Machine, event: DaemonEventView)
    requires
        well_formed(m),
    ensures
        ({
            let (next, actions) = on_daemon_spec(m, event);
            let accepted = m.stage is AwaitingDaemon && event == DaemonEventView::Reply(
                ResponseView::Success,
            );
            &&& accepted ==> actions == seq![
                announce(Phase::Waiting),
                ActionView::Send(
                    RequestView::StartSession { cmd: m.launch.command, env: m.launch.env },
                ),
            ] && next.stage is Starting
            &&& !accepted ==> forall|i: int|
                0 <= i < actions.len() ==> !starts_session(#[trigger] actions[i]) && actions[i]
                    != announce(Phase::Waiting)
        }),
{
    let (next, actions) = on_daemon_spec(m, event);
    match event {
        DaemonEventView::Reply(ResponseView::AuthMessage { auth_message_type, auth_message }) => {
            if m.stage is AwaitingDaemon && auth_message_type.asks() && m.prompts == u64::MAX {
                lemma_failure_shape(
                    m,
                    crate::greetd::pam_error_of("prompt identifiers exhausted"@),
                    true,
                );
            } else if m.stage is Starting {
                lemma_failure_shape(
                    m,
                    crate::greetd::pam_error_of(
                        "unexpected auth message during start_session: "@ + auth_message,
                    ),
                    false,
                );
            }
        },
        DaemonEventView::Reply(ResponseView::Error { error_type, description }) => {
            if m.stage is AwaitingDaemon {
                lemma_failure_shape(
                    m,
                    crate::machine::daemon_failure(error_type, description, m.detail),
                    true,
                );
            } else {
                lemma_failure_shape(
                    m,
                    crate::greetd::pam_error_of(error_type + ": "@ + description),
                    false,
                );
            }
        },
        DaemonEventView::Reply(ResponseView::Success) => {
            if m.stage is Starting {
                let r = crate::machine::remember(m.launch.update);
                assert(r.len() <= 1);
            }
        },
        DaemonEventView::Failed(text) => {
            lemma_failure_shape(m, crate::greetd::pam_error_of(text), false);
        },
    }
}

/// No event of the user interface announces `waiting` or asks the daemon to
/// start the session.
pub proof fn lemma_ui_never_starts_session(m: Machine, cfg: SettingsView, event: UiEventView)
    requires
        well_formed(m),
    ensures
        forall|i: int|
            0 <= i < on_ui_spec(m, cfg, event).1.len() ==> !starts_session(
                #[trigger] on_ui_spec(m, cfg, event).1[i],
            ) && on_ui_spec(m, cfg, event).1[i] != announce(Phase::Waiting),
{
    let (next, actions) = on_ui_spec(m, cfg, event);
    match m.stage {
        Stage::AwaitingPrompt { id } => match event {
            UiEventView::Request(request) => match request {
                UiRequestView::PromptResponse { id: answered, response } => {
                    if answered == id && response is None {
                        lemma_failure_shape(
                            m,
                            crate::greetd::pam_error_of("prompt response missing"@),
                            true,
                        );
                    }
                },
                UiRequestView::Cancel => {
                    lemma_failure_shape(m, crate::greetd::cancelled_error(), true);
                },
                _ => {},
            },
            UiEventView::Eof => {
                lemma_failure_shape(
                    m,
                    crate::greetd::pam_error_of("ui disconnected during auth"@),
                    true,
                );
            },
            UiEventView::Timeout => {
                lemma_failure_shape(m, crate::greetd::timeout_error(), true);
            },
            UiEventView::Failed(text) => {
                lemma_failure_shape(m, crate::greetd::pam_error_of(text), true);
            },
            UiEventView::Invalid(_) => {},
        },
        _ => {},
    }
}

proof fn lemma_failure_shape(m: Machine, error: AuthErrorView, cancel: bool)
    ensures
        forall|i: int|
            0 <= i < failed(m, error, cancel).1.len() ==> !starts_session(
                #[trigger] failed(m, error, cancel).1[i],
            ) && failed(m, error, cancel).1[i] != announce(Phase::Waiting),
{
}

// ---------------------------------------------------------------------------
// Phases
// ---------------------------------------------------------------------------

/// The phase that is current after `phases` were announced from `from` on.
pub open spec fn ends_in(from: Phase, phases: Seq<Phase>) -> Phase {
    if phases.len() > 0 {
        phases.last()
    } else {
        from
    }
}

proof fn lemma_announced_none(actions: Seq<ActionView>)
    requires
        forall|i: int|
            0 <= i < actions.len() ==> !(#[trigger] actions[i] matches ActionView::Emit(
                BackendResponseView::State { .. },
            )),
    ensures
        announced(actions) == Seq::<Phase>::empty(),
    decreases actions.len(),
{
    if actions.len() > 0 {
        lemma_announced_none(actions.drop_last());
    }
}

/// Within a conversation, what an event of the daemon announces follows the
/// legal transitions from the current phase on, and the phase announced last
/// is the current one afterwards.
pub proof fn lemma_daemon_phases_follow(m: Machine, event: DaemonEventView)
    requires
        well_formed(m),
    ensures
        follows(m.phase, announced(on_daemon_spec(m, event).1)),
        on_daemon_spec(m, event).0.phase == ends_in(
            m.phase,
            announced(on_daemon_spec(m, event).1),
        ),
{
    let (next, actions) = on_daemon_spec(m, event);
    reveal_with_fuel(announced, 6);
    reveal_with_fuel(follows, 3);
    if m.stage.awaits_daemon() {
        lemma_awaited_daemon_phases_follow(m, event);
    }
}

proof fn lemma_awaited_daemon_phases_follow(m: Machine, event: DaemonEventView)
    requires
        well_formed(m),
        m.stage.awaits_daemon(),
    ensures
        follows(m.phase, announced(on_daemon_spec(m, event).1)),
        on_daemon_spec(m, event).0.phase == ends_in(
            m.phase,
            announced(on_daemon_spec(m, event).1),
        ),
{
    let (next, actions) = on_daemon_spec(m, event);
    reveal_with_fuel(announced, 6);
    reveal_with_fuel(follows, 3);
    match event {
        DaemonEventView::Reply(ResponseView::AuthMessage { auth_message_type, auth_message }) => {
            if m.stage is AwaitingDaemon {
                if auth_message_type.asks() {
                    if m.prompts == u64::MAX {
                        lemma_announced_of_failure(
                            m,
                            crate::greetd::pam_error_of("prompt identifiers exhausted"@),
                            true,
                        );
                    } else {
                        lemma_announced_none(actions);
                    }
                } else {
                    lemma_announced_none(actions);
                }
            } else {
                lemma_announced_of_failure(
                    m,
                    crate::greetd::pam_error_of(
                        "unexpected auth message during start_session: "@ + auth_message,
                    ),
                    false,
                );
            }
        },
        DaemonEventView::Reply(ResponseView::Error { error_type, description }) => {
            if m.stage is AwaitingDaemon {
                lemma_announced_of_failure(
                    m,
                    crate::machine::daemon_failure(error_type, description, m.detail),
                    true,
                );
            } else {
                lemma_announced_of_failure(
                    m,
                    crate::greetd::pam_error_of(error_type + ": "@ + description),
                    false,
                );
            }
        },
        DaemonEventView::Reply(ResponseView::Success) => {
            if m.stage is Starting {
                let r = crate::machine::remember(m.launch.update);
                let head = seq![ActionView::Close] + r;
                let tail = seq![
                    announce(Phase::Success),
                    ActionView::Emit(BackendResponseView::Success),
                ];
                assert(actions == head + tail);
                lemma_announced_none(head);
                lemma_announced_concat(head, tail);
                assert(tail.drop_last().drop_last().len() == 0);
                assert(announced(tail) == seq![Phase::Success]);
                assert(announced(actions) == seq![Phase::Success]);
            } else {
                assert(actions.drop_last().drop_last().len() == 0);
                assert(announced(actions) == seq![Phase::Waiting]);
            }
        },
        DaemonEventView::Failed(text) => {
            lemma_announced_of_failure(m, crate::greetd::pam_error_of(text), false);
        },
    }
}

/// What an event of the user interface announces. Within a conversation it
/// follows the legal transitions from the current phase on. At rest it is
/// nothing, or `idle` alone, or the start of a conversation, which is
/// announced as if from `idle`: a return from `error` to `idle` is implied
/// by the next request and not announced. Once the session was started
/// nothing is announced any more. In each case the phase announced last is
/// the current one afterwards.
pub proof fn lemma_ui_phases_follow(m: Machine, cfg: SettingsView, event: UiEventView)
    requires
        well_formed(m),
    ensures
        ({
            let (next, actions) = on_ui_spec(m, cfg, event);
            let said = announced(actions);
            &&& next.phase == ends_in(m.phase, said)
            &&& m.stage.in_conversation() ==> follows(m.phase, said)
            &&& m.stage is Ready ==> said.len() == 0 || said == seq![Phase::Idle] || (said[0]
                == Phase::Auth && follows(Phase::Idle, said))
            &&& m.stage is AwaitingAck ==> said.len() == 0
        }),
{
    let (next, actions) = on_ui_spec(m, cfg, event);
    reveal_with_fuel(announced, 6);
    reveal_with_fuel(follows, 3);
    match m.stage {
        Stage::AwaitingPrompt { id } => match event {
            UiEventView::Request(request) => match request {
                UiRequestView::PromptResponse { id: answered, response } => {
                    if answered == id && response is None {
                        lemma_announced_of_failure(
                            m,
                            crate::greetd::pam_error_of("prompt response missing"@),
                            true,
                        );
                    } else {
                        lemma_announced_none(actions);
                    }
                },
                UiRequestView::Cancel => {
                    lemma_announced_of_failure(m, crate::greetd::cancelled_error(), true);
                },
                _ => {
                    lemma_announced_none(actions);
                },
            },
            UiEventView::Eof => {
                lemma_announced_of_failure(
                    m,
                    crate::greetd::pam_error_of("ui disconnected during auth"@),
                    true,
                );
            },
            UiEventView::Timeout => {
                lemma_announced_of_failure(m, crate::greetd::timeout_error(), true);
            },
            UiEventView::Failed(text) => {
                lemma_announced_of_failure(m, crate::greetd::pam_error_of(text), true);
            },
            UiEventView::Invalid(_) => {
                lemma_announced_none(actions);
            },
        },
        Stage::Ready => match event {
            UiEventView::Request(request) => match request {
                UiRequestView::Hello { .. } => {
                    assert(actions.drop_last().len() == 0);
                },
                UiRequestView::Auth { username, .. } => {
                    if crate::text::blank(username) {
                        assert(actions.drop_last().drop_last().drop_last().len() == 0);
                        assert(announced(actions) == seq![Phase::Auth, Phase::Error]);
                        assert(announced(actions).drop_first() == seq![Phase::Error]);
                    } else {
                        assert(actions.drop_last().drop_last().drop_last().len() == 0);
                        assert(announced(actions) == seq![Phase::Auth]);
                    }
                },
                _ => {
                    lemma_announced_none(actions);
                },
            },
            _ => {
                lemma_announced_none(actions);
            },
        },
        _ => {
            lemma_announced_none(actions);
        },
    }
}

proof fn lemma_announced_concat(a: Seq<ActionView>, b: Seq<ActionView>)
    ensures
        announced(a + b) == announced(a) + announced(b),
    decreases b.len(),
{
    if b.len() == 0 {
        assert(a + b == a);
        assert(announced(a) + announced(b) == announced(a));
    } else {
        lemma_announced_concat(a, b.drop_last());
        assert((a + b).drop_last() == a + b.drop_last());
        assert((a + b).last() == b.last());
        match b.last() {
            ActionView::Emit(BackendResponseView::State { phase }) => {
                assert((announced(a) + announced(b.drop_last())).push(phase) == announced(a)
                    + announced(b.drop_last()).push(phase));
            },
            _ => {},
        }
    }
}

// ---------------------------------------------------------------------------
// Whole runs
// ---------------------------------------------------------------------------

/// An event of either side.
pub enum EventView {
    Ui(UiEventView),
    Daemon(DaemonEventView),
}

/// One step of the machine.
pub open spec fn step(m: Machine, cfg: SettingsView, event: EventView) -> (
    Machine,
    Seq<ActionView>,
) {
    match event {
        EventView::Ui(e) => on_ui_spec(m, cfg, e),
        EventView::Daemon(e) => on_daemon_spec(m, e),
    }
}

/// An event of the side that is not awaited is not taken: it leaves the
/// machine as it is and nothing is to be done.
pub proof fn lemma_off_turn_events_are_not_taken(m: Machine, cfg: SettingsView, event: EventView)
    requires
        match event {
            EventView::Ui(_) => !m.stage.awaits_ui(),
            EventView::Daemon(_) => !m.stage.awaits_daemon(),
        },
    ensures
        step(m, cfg, event) == (m, Seq::<ActionView>::empty()),
{
}

/// The machine after a run of events, and all the actions of the run.
pub open spec fn run(m: Machine, cfg: SettingsView, events: Seq<EventView>) -> (
    Machine,
    Seq<ActionView>,
)
    decreases events.len(),
{
    if events.len() == 0 {
        (m, Seq::empty())
    } else {
        let (before, done) = run(m, cfg, events.drop_last());
        let (next, actions) = step(before, cfg, events.last());
        (next, done + actions)
    }
}

/// From one announced phase to the next: a legal transition; or `idle`
/// announced again while `idle`; or `auth` after `error`, where the return to
/// `idle` is implied by the new request.
pub open spec fn hop(from: Phase, to: Phase) -> bool {
    from.may_become(to) || (from == Phase::Idle && to == Phase::Idle) || (from == Phase::Error
        && to == Phase::Auth)
}

/// Each of `phases` is reached by a [`hop`] from the one before it, the first
/// from `from`.
pub open spec fn hops(from: Phase, phases: Seq<Phase>) -> bool
    decreases phases.len(),
{
    phases.len() == 0 || (hop(from, phases[0]) && hops(phases[0], phases.drop_first()))
}

proof fn lemma_follows_hops(from: Phase, phases: Seq<Phase>)
    requires
        follows(from, phases),
    ensures
        hops(from, phases),
    decreases phases.len(),
{
    if phases.len() > 0 {
        lemma_follows_hops(phases[0], phases.drop_first());
    }
}

proof fn lemma_hops_concat(from: Phase, p: Seq<Phase>, q: Seq<Phase>)
    requires
        hops(from, p),
        hops(ends_in(from, p), q),
    ensures
        hops(from, p + q),
        ends_in(from, p + q) == ends_in(ends_in(from, p), q),
    decreases p.len(),
{
    if p.len() == 0 {
        assert(p + q == q);
    } else {
        let rest = p.drop_first();
        assert(ends_in(p[0], rest) == ends_in(from, p));
        lemma_hops_concat(p[0], rest, q);
        assert((p + q).drop_first() == rest + q);
        assert((p + q)[0] == p[0]);
    }
}

/// One step leaves the machine well formed, and what it announces goes by
/// hops from the current phase on.
pub proof fn lemma_step_hops(m: Machine, cfg: SettingsView, event: EventView)
    requires
        well_formed(m),
    ensures
        well_formed(step(m, cfg, event).0),
        hops(m.phase, announced(step(m, cfg, event).1)),
        step(m, cfg, event).0.phase == ends_in(m.phase, announced(step(m, cfg, event).1)),
{
    let (next, actions) = step(m, cfg, event);
    let said = announced(actions);
    match event {
        EventView::Ui(e) => {
            if m.stage.awaits_ui() {
                lemma_ui_keeps_well_formed(m, cfg, e);
                lemma_ui_phases_follow(m, cfg, e);
                if m.stage.in_conversation() {
                    lemma_follows_hops(m.phase, said);
                } else if said.len() == 0 {
                } else if said == seq![Phase::Idle] {
                    reveal_with_fuel(hops, 2);
                } else {
                    lemma_follows_hops(Phase::Idle, said);
                }
            } else {
                reveal_with_fuel(announced, 1);
            }
        },
        EventView::Daemon(e) => {
            if m.stage.awaits_daemon() {
                lemma_daemon_keeps_well_formed(m, e);
                lemma_daemon_phases_follow(m, e);
                lemma_follows_hops(m.phase, said);
            } else {
                reveal_with_fuel(announced, 1);
            }
        },
    }
}

/// Over a whole run, whatever the events: the machine stays well formed, the
/// phases it announces go by hops from the phase it began in, never
/// backwards, and the phase announced last is its current one.
pub proof fn lemma_run_hops(m: Machine, cfg: SettingsView, events: Seq<EventView>)
    requires
        well_formed(m),
    ensures
        well_formed(run(m, cfg, events).0),
        hops(m.phase, announced(run(m, cfg, events).1)),
        run(m, cfg, events).0.phase == ends_in(m.phase, announced(run(m, cfg, events).1)),
    decreases events.len(),
{
    if events.len() == 0 {
    } else {
        let (before, done) = run(m, cfg, events.drop_last());
        let (next, actions) = step(before, cfg, events.last());
        lemma_run_hops(m, cfg, events.drop_last());
        lemma_step_hops(before, cfg, events.last());
        lemma_announced_concat(done, actions);
        lemma_hops_concat(m.phase, announced(done), announced(actions));
    }
}

/// In a list of actions every request to start the session comes right after
/// an announcement of `waiting`, and every announcement of `waiting` is
/// followed at once by a request to start the session.
pub open spec fn waiting_meets_start(actions: Seq<ActionView>) -> bool {
    forall|i: int|
        0 <= i < actions.len() ==> {
            &&& starts_session(#[trigger] actions[i]) ==> i > 0 && actions[i - 1] == announce(
                Phase::Waiting,
            )
            &&& actions[i] == announce(Phase::Waiting) ==> i + 1 < actions.len()
                && starts_session(actions[i + 1])
        }
}

proof fn lemma_step_waiting_meets_start(m: Machine, cfg: SettingsView, event: EventView)
    requires
        well_formed(m),
    ensures
        waiting_meets_start(step(m, cfg, event).1),
{
    match event {
        EventView::Ui(e) => {
            if m.stage.awaits_ui() {
                lemma_ui_never_starts_session(m, cfg, e);
            }
        },
        EventView::Daemon(e) => {
            if m.stage.awaits_daemon() {
                lemma_waiting_precedes_start(m, e);
            }
        },
    }
}

/// Over a whole run, whatever the events: `waiting` is announced exactly
/// once for each request to start the session, right before that request.
pub proof fn lemma_run_waiting_meets_start(m: Machine, cfg: SettingsView, events: Seq<EventView>)
    requires
        well_formed(m),
    ensures
        waiting_meets_start(run(m, cfg, events).1),
    decreases events.len(),
{
    if events.len() > 0 {
        let (before, done) = run(m, cfg, events.drop_last());
        let (next, actions) = step(before, cfg, events.last());
        lemma_run_waiting_meets_start(m, cfg, events.drop_last());
        lemma_run_hops(m, cfg, events.drop_last());
        lemma_step_waiting_meets_start(before, cfg, events.last());
        let all = done + actions;
        assert forall|i: int| 0 <= i < all.len() implies {
            &&& starts_session(#[trigger] all[i]) ==> i > 0 && all[i - 1] == announce(
                Phase::Waiting,
            )
            &&& all[i] == announce(Phase::Waiting) ==> i + 1 < all.len() && starts_session(
                all[i + 1],
            )
        } by {
            if i < done.len() {
                assert(all[i] == done[i]);
                if i > 0 {
                    assert(all[i - 1] == done[i - 1]);
                }
                if i + 1 < done.len() {
                    assert(all[i + 1] == done[i + 1]);
                }
            } else {
                let k = i - done.len();
                assert(all[i] == actions[k]);
                if k > 0 {
                    assert(all[i - 1] == actions[k - 1]);
                }
                if k + 1 < actions.len() {
                    assert(all[i + 1] == actions[k + 1]);
                }
            }
        }
    }
}

// ---------------------------------------------------------------------------
// Prompts, over whole runs
// ---------------------------------------------------------------------------

/// The action shows a prompt.
pub open spec fn shows_prompt(action: ActionView) -> bool {
    action matches ActionView::Emit(BackendResponseView::Prompt { .. })
}

/// The number of the prompt that an action shows.
pub open spec fn prompt_id(action: ActionView) -> u64 {
    match action {
        ActionView::Emit(BackendResponseView::Prompt { id, .. }) => id,
        _ => 0,
    }
}

/// The action sends the answer to a prompt on to the daemon.
pub open spec fn forwards_answer(action: ActionView) -> bool {
    action matches ActionView::Send(RequestView::PostAuthMessageResponse { response: Some(_) })
}

/// The prompt shown at index `i` was settled at index `j`: nothing touched
/// the socket in between, and at `j` either the answer went to the daemon, or
/// a `cancel_session` did and the socket was closed right after.
pub open spec fn settled_at(actions: Seq<ActionView>, i: int, j: int) -> bool {
    &&& 0 <= i < j < actions.len()
    &&& forall|k: int| i < k < j ==> !on_the_wire(#[trigger] actions[k])
    &&& (forwards_answer(actions[j]) || (actions[j] == ActionView::Send(
        RequestView::CancelSession,
    ) && j + 1 < actions.len() && actions[j + 1] == ActionView::Close))
}

/// The prompt shown at index `i` is still outstanding: the machine awaits
/// its answer, and nothing has touched the socket since it was shown.
pub open spec fn outstanding_at(m: Machine, actions: Seq<ActionView>, i: int) -> bool {
    &&& m.stage == (Stage::AwaitingPrompt { id: prompt_id(actions[i]) })
    &&& forall|k: int| i < k < actions.len() ==> !on_the_wire(#[trigger] actions[k])
}

/// Every prompt that the actions show was settled or is still outstanding.
pub open spec fn prompts_accounted(m: Machine, actions: Seq<ActionView>) -> bool {
    forall|i: int|
        0 <= i < actions.len() && shows_prompt(#[trigger] actions[i]) ==> (exists|j: int|
            settled_at(actions, i, j)) || outstanding_at(m, actions, i)
}

proof fn lemma_settled_stays(actions: Seq<ActionView>, more: Seq<ActionView>, i: int, j: int)
    requires
        settled_at(actions, i, j),
    ensures
        settled_at(actions + more, i, j),
{
    let all = actions + more;
    assert(all[j] == actions[j]);
    if j + 1 < actions.len() {
        assert(all[j + 1] == actions[j + 1]);
    }
    assert forall|k: int| i < k < j implies !on_the_wire(#[trigger] all[k]) by {
        assert(all[k] == actions[k]);
    }
}

proof fn lemma_daemon_prompts_or_not(m: Machine, event: DaemonEventView)
    requires
        well_formed(m),
        m.stage.awaits_daemon(),
    ensures
        ({
            let (next, actions) = on_daemon_spec(m, event);
            ||| shows_no_prompt(actions) && !(next.stage is AwaitingPrompt)
            ||| actions.len() == 1 && shows_prompt(actions[0]) && next.stage == (
            Stage::AwaitingPrompt { id: prompt_id(actions[0]) })
        }),
{
    let (next, actions) = on_daemon_spec(m, event);
    if exists|i: int| 0 <= i < actions.len() && shows_prompt(#[trigger] actions[i]) {
        let i = choose|i: int| 0 <= i < actions.len() && shows_prompt(#[trigger] actions[i]);
        lemma_prompts_are_numbered(m, event, i);
    } else {
        assert(shows_no_prompt(actions));
    }
}

proof fn lemma_step_accounts(
    m: Machine,
    cfg: SettingsView,
    done: Seq<ActionView>,
    event: EventView,
)
    requires
        well_formed(m),
        prompts_accounted(m, done),
    ensures
        prompts_accounted(step(m, cfg, event).0, done + step(m, cfg, event).1),
{
    let (next, actions) = step(m, cfg, event);
    let all = done + actions;
    // what the step itself does to a prompt that is outstanding
    let stays = next.stage == m.stage && off_the_wire(actions) && shows_no_prompt(actions);
    let answers = m.stage is AwaitingPrompt && actions.len() == 1 && forwards_answer(actions[0]);
    let cancels = m.stage is AwaitingPrompt && cancels_then_closes(actions) && shows_no_prompt(
        actions,
    );
    let prompts = !(m.stage is AwaitingPrompt) && actions.len() == 1 && shows_prompt(actions[0])
        && next.stage == (Stage::AwaitingPrompt { id: prompt_id(actions[0]) });
    let quiet = !(m.stage is AwaitingPrompt) && shows_no_prompt(actions) && !(next.stage
        is AwaitingPrompt);
    assert(stays || answers || cancels || prompts || quiet) by {
        match event {
            EventView::Ui(e) => {
                if m.stage.awaits_ui() {
                    match m.stage {
                        Stage::AwaitingPrompt { id } => {
                            lemma_prompt_is_answered_or_cancelled(m, cfg, e, id);
                        },
                        _ => {
                            lemma_only_the_daemon_prompts(m, cfg, e);
                        },
                    }
                }
            },
            EventView::Daemon(e) => {
                if m.stage.awaits_daemon() {
                    lemma_daemon_prompts_or_not(m, e);
                }
            },
        }
    }
    assert forall|i: int| 0 <= i < all.len() && shows_prompt(#[trigger] all[i]) implies (exists|
        j: int,
    |
        settled_at(all, i, j)) || outstanding_at(next, all, i) by {
        if i < done.len() {
            assert(all[i] == done[i]);
            if exists|j: int| settled_at(done, i, j) {
                let j = choose|j: int| settled_at(done, i, j);
                lemma_settled_stays(done, actions, i, j);
            } else {
                assert(outstanding_at(m, done, i));
                assert(m.stage is AwaitingPrompt);
                if stays {
                    assert forall|k: int| i < k < all.len() implies !on_the_wire(
                        #[trigger] all[k],
                    ) by {
                        if k < done.len() {
                            assert(all[k] == done[k]);
                        } else {
                            assert(all[k] == actions[k - done.len()]);
                        }
                    }
                } else {
                    let j = done.len() as int;
                    assert(all[j] == actions[0]);
                    if cancels {
                        assert(all[j + 1] == actions[1]);
                    }
                    assert forall|k: int| i < k < j implies !on_the_wire(#[trigger] all[k]) by {
                        assert(all[k] == done[k]);
                    }
                    assert(settled_at(all, i, j));
                }
            }
        } else {
            assert(all[i] == actions[i - done.len()]);
            assert(prompts);
            assert(i == done.len());
        }
    }
}

/// Over a whole run, whatever the events: every prompt that was shown is
/// accounted for. The first thing to touch the socket after it was shown is
/// its answer on the way to the daemon, or a `cancel_session` with the socket
/// closed right after; and where nothing has touched the socket yet, the
/// prompt is the one whose answer the machine awaits.
pub proof fn lemma_run_accounts_for_prompts(m: Machine, cfg: SettingsView, events: Seq<EventView>)
    requires
        well_formed(m),
    ensures
        prompts_accounted(run(m, cfg, events).0, run(m, cfg, events).1),
    decreases events.len(),
{
    if events.len() > 0 {
        let (before, done) = run(m, cfg, events.drop_last());
        lemma_run_accounts_for_prompts(m, cfg, events.drop_last());
        lemma_run_hops(m, cfg, events.drop_last());
        lemma_step_accounts(before, cfg, done, events.last());
    }
}

/// The prompts that the actions show are numbered upwards from `from`, each
/// number above the one before it and none above `upto`.
pub open spec fn prompts_numbered(from: u64, upto: u64, actions: Seq<ActionView>) -> bool {
    &&& from <= upto
    &&& forall|i: int|
        0 <= i < actions.len() && shows_prompt(#[trigger] actions[i]) ==> from < prompt_id(
            actions[i],
        ) <= upto
    &&& forall|i: int, j: int|
        0 <= i < j < actions.len() && shows_prompt(#[trigger] actions[i]) && shows_prompt(
            #[trigger] actions[j],
        ) ==> prompt_id(actions[i]) < prompt_id(actions[j])
}

/// Over a whole run, whatever the events: no two prompts bear the same
/// number. Each prompt is numbered above the one before it, so that an
/// answer names one prompt only.
pub proof fn lemma_run_numbers_prompts(m: Machine, cfg: SettingsView, events: Seq<EventView>)
    requires
        well_formed(m),
    ensures
        prompts_numbered(m.prompts, run(m, cfg, events).0.prompts, run(m, cfg, events).1),
    decreases events.len(),
{
    if events.len() > 0 {
        let (before, done) = run(m, cfg, events.drop_last());
        let (next, actions) = step(before, cfg, events.last());
        lemma_run_numbers_prompts(m, cfg, events.drop_last());
        lemma_run_hops(m, cfg, events.drop_last());
        let all = done + actions;
        // one step shows at most one prompt, numbered one above the count
        assert((shows_no_prompt(actions) && next.prompts >= before.prompts) || (actions.len() == 1
            && shows_prompt(actions[0]) && prompt_id(actions[0]) == before.prompts + 1
            && next.prompts == before.prompts + 1)) by {
            match events.last() {
                EventView::Ui(e) => {
                    if before.stage.awaits_ui() {
                        lemma_only_the_daemon_prompts(before, cfg, e);
                    }
                },
                EventView::Daemon(e) => {
                    if before.stage.awaits_daemon() {
                        lemma_daemon_prompts_or_not(before, e);
                        if !shows_no_prompt(actions) {
                            lemma_prompts_are_numbered(before, e, 0);
                        } else {
                            lemma_daemon_counts_up(before, e);
                        }
                    }
                },
            }
        }
        assert forall|i: int| 0 <= i < all.len() && shows_prompt(#[trigger] all[i]) implies m.prompts
            < prompt_id(all[i]) <= next.prompts by {
            if i < done.len() {
                assert(all[i] == done[i]);
            } else {
                assert(all[i] == actions[i - done.len()]);
            }
        }
        assert forall|i: int, j: int|
            0 <= i < j < all.len() && shows_prompt(#[trigger] all[i]) && shows_prompt(
                #[trigger] all[j],
            ) implies prompt_id(all[i]) < prompt_id(all[j]) by {
            assert(all[i] == done[i]);
            if j < done.len() {
                assert(all[j] == done[j]);
            } else {
                assert(all[j] == actions[j - done.len()]);
            }
        }
    }
}

proof fn lemma_daemon_counts_up(m: Machine, event: DaemonEventView)
    requires
        well_formed(m),
        m.stage.awaits_daemon(),
    ensures
        on_daemon_spec(m, event).0.prompts >= m.prompts,
{
}

// ---------------------------------------------------------------------------
// The socket, and the order of what is said
// ---------------------------------------------------------------------------

/// The socket of the daemon belongs to one conversation and is closed when
/// that conversation ends, however it ends: a step that leaves the
/// conversation asks for the socket to be closed. And the socket is opened
/// only by an `auth` request that arrives while no conversation is in flight.
pub proof fn lemma_socket_follows_conversation(m: Machine, cfg: SettingsView, event: EventView)
    requires
        well_formed(m),
    ensures
        ({
            let (next, actions) = step(m, cfg, event);
            &&& m.stage.in_conversation() && !next.stage.in_conversation() ==> actions.contains(
                ActionView::Close,
            )
            &&& actions.contains(ActionView::Connect) ==> m.stage is Ready
                && next.stage is AwaitingDaemon && (event matches EventView::Ui(
                UiEventView::Request(UiRequestView::Auth { .. }),
            ))
        }),
{
    let (next, actions) = step(m, cfg, event);
    if m.stage.in_conversation() && !next.stage.in_conversation() {
        // the conversation ended: by a failure, or by the start of the session
        if actions.len() >= 1 && actions[0] == ActionView::Close {
        } else {
            match event {
                EventView::Ui(e) => {
                    match m.stage {
                        Stage::AwaitingPrompt { id } => {
                            lemma_prompt_is_answered_or_cancelled(m, cfg, e, id);
                            assert(actions[1] == ActionView::Close);
                        },
                        _ => {},
                    }
                },
                EventView::Daemon(e) => {
                    lemma_daemon_closes(m, e);
                },
            }
        }
    }
    if actions.contains(ActionView::Connect) {
        let i = choose|i: int| 0 <= i < actions.len() && actions[i] == ActionView::Connect;
        match event {
            EventView::Ui(e) => {
                if m.stage.awaits_ui() {
                    match m.stage {
                        Stage::AwaitingPrompt { id } => {
                            lemma_prompt_is_answered_or_cancelled(m, cfg, e, id);
                            assert(on_the_wire(actions[i]));
                            if cancels_then_closes(actions) {
                                assert(i >= 2);
                                assert(actions.skip(2)[i - 2] == actions[i]);
                            }
                        },
                        _ => {},
                    }
                }
            },
            EventView::Daemon(e) => {
                if m.stage.awaits_daemon() {
                    lemma_daemon_never_connects(m, e, i);
                }
            },
        }
    }
}

proof fn lemma_daemon_closes(m: Machine, event: DaemonEventView)
    requires
        well_formed(m),
        m.stage.awaits_daemon(),
        !on_daemon_spec(m, event).0.stage.in_conversation(),
    ensures
        on_daemon_spec(m, event).1.contains(ActionView::Close),
{
    let (next, actions) = on_daemon_spec(m, event);
    if actions.len() >= 1 && actions[0] == ActionView::Close {
    } else {
        assert(actions.len() >= 2 && actions[1] == ActionView::Close);
    }
}

proof fn lemma_daemon_never_connects(m: Machine, event: DaemonEventView, i: int)
    requires
        well_formed(m),
        m.stage.awaits_daemon(),
        0 <= i < on_daemon_spec(m, event).1.len(),
    ensures
        on_daemon_spec(m, event).1[i] != ActionView::Connect,
{
    let (next, actions) = on_daemon_spec(m, event);
    match event {
        DaemonEventView::Reply(ResponseView::Success) => {
            if m.stage is Starting {
                let r = crate::machine::remember(m.launch.update);
                assert(r.len() <= 1);
            }
        },
        _ => {},
    }
}

/// A phase is announced before what it implies is said: `success` is
/// reported only as the last thing of a step, right after the announcement
/// of the phase `success`.
pub proof fn lemma_success_follows_its_announcement(
    m: Machine,
    cfg: SettingsView,
    event: EventView,
    i: int,
)
    requires
        well_formed(m),
        0 <= i < step(m, cfg, event).1.len(),
        step(m, cfg, event).1[i] == ActionView::Emit(BackendResponseView::Success),
    ensures
        i >= 1,
        i == step(m, cfg, event).1.len() - 1,
        step(m, cfg, event).1[i - 1] == announce(Phase::Success),
        step(m, cfg, event).0.phase == Phase::Success,
{
    let (next, actions) = step(m, cfg, event);
    match event {
        EventView::Ui(e) => {
            if m.stage.awaits_ui() {
                match m.stage {
                    Stage::AwaitingPrompt { id } => {
                        lemma_prompt_is_answered_or_cancelled(m, cfg, e, id);
                        lemma_ui_says_no_success(m, cfg, e, i);
                    },
                    _ => {},
                }
            }
        },
        EventView::Daemon(e) => {
            if m.stage.awaits_daemon() {
                match e {
                    DaemonEventView::Reply(ResponseView::Success) => {
                        if m.stage is Starting {
                            let r = crate::machine::remember(m.launch.update);
                            assert(r.len() <= 1);
                        }
                    },
                    _ => {},
                }
            }
        },
    }
}

proof fn lemma_ui_says_no_success(m: Machine, cfg: SettingsView, event: UiEventView, i: int)
    requires
        well_formed(m),
        m.stage is AwaitingPrompt,
        0 <= i < on_ui_spec(m, cfg, event).1.len(),
    ensures
        on_ui_spec(m, cfg, event).1[i] != ActionView::Emit(BackendResponseView::Success),
{
}

// ---------------------------------------------------------------------------
// The environment of a session
// ---------------------------------------------------------------------------

/// The environment of a session lists each name once, in the order of the
/// names, and holds for each name what the overlay says: the locale's value
/// before the request's, the request's before the profile's, the profile's
/// before the default.
pub proof fn lemma_session_env_is_an_overlay(
    profile: Option<crate::settings::ProfileView>,
    env: Seq<crate::env::Pair>,
    locale: Option<Seq<char>>,
    key: Seq<char>,
)
    ensures
        ({
            let over = crate::machine::profile_env(profile) + env + crate::machine::locale_env(
                locale,
            );
            let listing = crate::env::put_named(crate::machine::default_env(), over);
            &&& crate::machine::session_env(profile, env, locale) == crate::env::lines(listing)
            &&& crate::env::in_order(listing)
            &&& crate::env::lookup(listing, key) == crate::env::overlaid(
                crate::machine::default_env(),
                over,
                key,
            )
        }),
{
    let over = crate::machine::profile_env(profile) + env + crate::machine::locale_env(locale);
    let defaults = seq![
        ("XDG_SESSION_TYPE"@, "wayland"@),
        ("XDG_SESSION_CLASS"@, "user"@),
        ("XDG_CURRENT_DESKTOP"@, "niri"@),
        ("XDG_SESSION_DESKTOP"@, "niri"@),
    ];
    assert(crate::env::in_order(Seq::<crate::env::Pair>::empty()));
    crate::env::lemma_put_all_keeps_order(Seq::empty(), defaults);
    crate::env::lemma_put_all_keeps_order(crate::machine::default_env(), over);
    crate::env::lemma_put_named_overlays(crate::machine::default_env(), over, key);
}

// ---------------------------------------------------------------------------
// Secrets
// ---------------------------------------------------------------------------

/// The machine keeps nothing of an answer. Whatever the answer to a prompt
/// says, the machine is in the same state after it; the answer is found in
/// the request for the daemon and nowhere else. So once that request and the
/// buffers it was written from are overwritten, no trace of the answer is
/// left.
pub proof fn lemma_answers_leave_no_trace(
    m: Machine,
    cfg: SettingsView,
    id: u64,
    one: Seq<char>,
    other: Seq<char>,
)
    requires
        well_formed(m),
    ensures
        ({
            let first = on_ui_spec(
                m,
                cfg,
                UiEventView::Request(UiRequestView::PromptResponse { id, response: Some(one) }),
            );
            let second = on_ui_spec(
                m,
                cfg,
                UiEventView::Request(UiRequestView::PromptResponse { id, response: Some(other) }),
            );
            &&& first.0 == second.0
            &&& first.1.len() == second.1.len()
            &&& forall|i: int|
                0 <= i < first.1.len() ==> #[trigger] first.1[i] == second.1[i] || (first.1[i]
                    == ActionView::Send(
                    RequestView::PostAuthMessageResponse { response: Some(one) },
                ) && second.1[i] == ActionView::Send(
                    RequestView::PostAuthMessageResponse { response: Some(other) },
                ))
        }),
{
}

// ---------------------------------------------------------------------------
// What is said while a prompt is outstanding
// ---------------------------------------------------------------------------

/// The action is an error response with the code `pam_error`.
pub open spec fn complains(action: ActionView) -> bool {
    action matches ActionView::Emit(BackendResponseView::Error { code, .. }) && code
        == "pam_error"@
}

/// While a prompt is outstanding nothing is dispatched to the system bus,
/// whatever the configuration allows. An event that leaves the prompt
/// outstanding leaves the whole machine as it is; it is answered with nothing
/// where it is `hello`, and with exactly one `pam_error` response otherwise. A
/// request for a power action is such an event: its answer is "auth in
/// progress".
pub proof fn lemma_outstanding_prompt_is_kept(
    m: Machine,
    cfg: SettingsView,
    event: UiEventView,
    id: u64,
)
    requires
        m.stage == (Stage::AwaitingPrompt { id }),
    ensures
        ({
            let (next, actions) = on_ui_spec(m, cfg, event);
            &&& forall|i: int| 0 <= i < actions.len() ==> !(#[trigger] actions[i] is Dispatch)
            &&& next.stage == m.stage ==> next == m
            &&& next.stage == m.stage && (event matches UiEventView::Request(
                UiRequestView::Hello { .. },
            )) ==> actions.len() == 0
            &&& next.stage == m.stage && !(event matches UiEventView::Request(
                UiRequestView::Hello { .. },
            )) ==> actions.len() == 1 && complains(actions[0])
            &&& (event matches UiEventView::Request(UiRequestView::Power { .. })) ==> next == m
                && actions == seq![crate::machine::complain("auth in progress"@)]
        }),
{
}

/// As long as a prompt number is left, a message of the daemon that asks for
/// an answer shows exactly one prompt and nothing else: numbered one above
/// the last, of the kind and with the trimmed text of the message, echoed
/// where the kind is `visible`. The answer to that prompt that comes next is
/// sent to the daemon as it is, and nothing else is. Once `u64::MAX` prompts
/// were shown no number is left, and the conversation ends instead.
pub proof fn lemma_asking_message_is_prompted_and_answered(
    m: Machine,
    cfg: SettingsView,
    kind: crate::greetd::AuthMessageType,
    text: Seq<char>,
    answer: Seq<char>,
)
    requires
        m.stage is AwaitingDaemon,
        kind.asks(),
        m.prompts < u64::MAX,
    ensures
        ({
            let id = (m.prompts + 1) as u64;
            let (shown, prompt) = on_daemon_spec(
                m,
                DaemonEventView::Reply(
                    ResponseView::AuthMessage { auth_message_type: kind, auth_message: text },
                ),
            );
            let (next, forward) = on_ui_spec(
                shown,
                cfg,
                UiEventView::Request(UiRequestView::PromptResponse { id, response: Some(answer) }),
            );
            &&& prompt == seq![
                ActionView::Emit(
                    BackendResponseView::Prompt {
                        id,
                        kind,
                        message: crate::text::trimmed(text),
                        echo: kind == crate::greetd::AuthMessageType::Visible,
                    },
                ),
            ]
            &&& shown.stage == (Stage::AwaitingPrompt { id })
            &&& forward == seq![
                ActionView::Send(RequestView::PostAuthMessageResponse { response: Some(answer) }),
            ]
            &&& next.stage is AwaitingDaemon
        }),
{
}

// ---------------------------------------------------------------------------
// The phases of one conversation
// ---------------------------------------------------------------------------

/// Every event of the run is taken while a conversation is in flight.
pub open spec fn within_conversation(m: Machine, cfg: SettingsView, events: Seq<EventView>) -> bool
    decreases events.len(),
{
    events.len() == 0 || (within_conversation(m, cfg, events.drop_last()) && run(
        m,
        cfg,
        events.drop_last(),
    ).0.stage.in_conversation())
}

proof fn lemma_follows_concat(from: Phase, p: Seq<Phase>, q: Seq<Phase>)
    requires
        follows(from, p),
        follows(ends_in(from, p), q),
    ensures
        follows(from, p + q),
        ends_in(from, p + q) == ends_in(ends_in(from, p), q),
    decreases p.len(),
{
    if p.len() == 0 {
        assert(p + q == q);
    } else {
        let rest = p.drop_first();
        assert(ends_in(p[0], rest) == ends_in(from, p));
        lemma_follows_concat(p[0], rest, q);
        assert((p + q).drop_first() == rest + q);
        assert((p + q)[0] == p[0]);
    }
}

/// Within one conversation the phases follow the graph of legal transitions
/// and nothing else: over a run of events that are all taken while the
/// conversation is in flight, each phase announced is a legal successor of
/// the one before it, the first of the phase the run began in. No phase is
/// announced twice in a row, none follows `success`, and none goes back
/// but to `idle`.
pub proof fn lemma_conversation_follows_the_graph(
    m: Machine,
    cfg: SettingsView,
    events: Seq<EventView>,
)
    requires
        well_formed(m),
        within_conversation(m, cfg, events),
    ensures
        follows(m.phase, announced(run(m, cfg, events).1)),
        run(m, cfg, events).0.phase == ends_in(m.phase, announced(run(m, cfg, events).1)),
    decreases events.len(),
{
    if events.len() > 0 {
        let (before, done) = run(m, cfg, events.drop_last());
        let (next, actions) = step(before, cfg, events.last());
        lemma_conversation_follows_the_graph(m, cfg, events.drop_last());
        lemma_run_hops(m, cfg, events.drop_last());
        match events.last() {
            EventView::Ui(e) => {
                lemma_ui_phases_follow(before, cfg, e);
            },
            EventView::Daemon(e) => {
                lemma_daemon_phases_follow(before, e);
            },
        }
        lemma_announced_concat(done, actions);
        lemma_follows_concat(m.phase, announced(done), announced(actions));
    }
}

/// A conversation begins at rest with an `auth` request, from `idle`: where
/// the phase was `error`, the return to `idle` is implied by the request.
/// From there on, through the request and all the events that are taken
/// while the conversation is in flight, the phases announced follow the
/// graph of legal transitions, beginning with `auth`.
pub proof fn lemma_conversation_begins_at_idle(
    m: Machine,
    cfg: SettingsView,
    request: UiRequestView,
    events: Seq<EventView>,
)
    requires
        well_formed(m),
        m.stage is Ready,
        request is Auth,
        within_conversation(on_ui_spec(m, cfg, UiEventView::Request(request)).0, cfg, events),
    ensures
        ({
            let (begun, first) = on_ui_spec(m, cfg, UiEventView::Request(request));
            let said = announced(first + run(begun, cfg, events).1);
            &&& said.len() > 0 && said[0] == Phase::Auth
            &&& follows(Phase::Idle, said)
            &&& run(begun, cfg, events).0.phase == said.last()
        }),
{
    let (begun, first) = on_ui_spec(m, cfg, UiEventView::Request(request));
    let (ended, rest) = run(begun, cfg, events);
    lemma_ui_keeps_well_formed(m, cfg, UiEventView::Request(request));
    lemma_ui_phases_follow(m, cfg, UiEventView::Request(request));
    lemma_conversation_follows_the_graph(begun, cfg, events);
    lemma_announced_concat(first, rest);
    let head = announced(first);
    assert(head.len() > 0 && head[0] == Phase::Auth) by {
        reveal_with_fuel(announced, 6);
        if let UiRequestView::Auth { username, .. } = request {
            if crate::text::blank(username) {
                assert(first.drop_last().drop_last().drop_last().len() == 0);
            } else {
                assert(first.drop_last().drop_last().drop_last().len() == 0);
            }
        }
    }
    assert(begun.phase == ends_in(Phase::Idle, head));
    lemma_follows_concat(Phase::Idle, head, announced(rest));
    assert((head + announced(rest))[0] == head[0]);
}

} // verus!
