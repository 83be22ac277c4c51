use tiss_greetd::phase::{Phase, PhaseTracker};
use tiss_greetd::protocol::{message_kind, prompt_kind, BackendResponse};
use tiss_greetd::greetd::AuthMessageType;

const ALL: [Phase; 5] = [Phase::Idle, Phase::Auth, Phase::Waiting, Phase::Success, Phase::Error];

#[test]
fn phases_have_their_wire_names() {
    assert_eq!(Phase::Idle.as_str(), "idle");
    assert_eq!(Phase::Auth.as_str(), "auth");
    assert_eq!(Phase::Waiting.as_str(), "waiting");
    assert_eq!(Phase::Success.as_str(), "success");
    assert_eq!(Phase::Error.as_str(), "error");
}

#[test]
fn legal_transitions() {
    let legal = [
        (Phase::Idle, Phase::Auth),
        (Phase::Auth, Phase::Waiting),
        (Phase::Auth, Phase::Error),
        (Phase::Auth, Phase::Idle),
        (Phase::Waiting, Phase::Success),
        (Phase::Waiting, Phase::Error),
        (Phase::Error, Phase::Idle),
    ];
    for from in ALL {
        for to in ALL {
            assert_eq!(from.can_become(to), legal.contains(&(from, to)));
        }
    }
}

#[test]
fn success_is_terminal() {
    for to in ALL {
        assert!(!Phase::Success.can_become(to));
    }
}

#[test]
fn tracker_stores_and_announces() {
    let mut tracker = PhaseTracker::new();
    assert_eq!(tracker.get(), Phase::Idle);
    assert_eq!(tracker.set_phase(Phase::Auth), BackendResponse::State { phase: Phase::Auth });
    assert_eq!(tracker.get(), Phase::Auth);
    assert_eq!(tracker.set_phase(Phase::Waiting), BackendResponse::State { phase: Phase::Waiting });
    assert_eq!(tracker.get(), Phase::Waiting);
}

#[test]
fn kinds_have_their_wire_names() {
    assert_eq!(prompt_kind(AuthMessageType::Visible), ("visible", true));
    assert_eq!(prompt_kind(AuthMessageType::Secret), ("secret", false));
    assert_eq!(message_kind(AuthMessageType::Info), "info");
    assert_eq!(message_kind(AuthMessageType::Error), "error");
}
