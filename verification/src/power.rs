//! The power gate: which power actions are let through to the system bus,
//! and how a failure there is reported.

use crate::phase::Phase;
use crate::settings::{has_name, normal_name, normalise, Settings, SettingsView};
use crate::text::{ascii_lowercase, ascii_lowered, chars_of, contains_text, occurs, same_text};
use vstd::prelude::*;

verus! {

/// What becomes of a request for a power action.
#[derive(Debug, PartialEq, Eq)]
pub enum PowerVerdict {
    /// The request is answered with an error and nothing is called.
    Refuse { code: String, message: String },
    /// The method is called on the login manager, with this one argument.
    Call { method: &'static str, interactive: bool },
}

/// A [`PowerVerdict`] as plain values.
pub enum PowerVerdictView {
    Refuse { code: Seq<char>, message: Seq<char> },
    Call { method: Seq<char>, interactive: bool },
}

impl View for PowerVerdict {
    type V = PowerVerdictView;

    open spec fn view(&self) -> PowerVerdictView {
        match *self {
            PowerVerdict::Refuse { code, message } => PowerVerdictView::Refuse {
                code: code@,
                message: message@,
            },
            PowerVerdict::Call { method, interactive } => PowerVerdictView::Call {
                method: method@,
                interactive,
            },
        }
    }
}

/// The bus method that carries out an action.
pub open spec fn method_of(action: Seq<char>) -> Option<Seq<char>> {
    if action == "poweroff"@ {
        Some("PowerOff"@)
    } else if action == "reboot"@ {
        Some("Reboot"@)
    } else if action == "suspend"@ {
        Some("Suspend"@)
    } else {
        None
    }
}

/// The bus method that carries out an action, if the action is a known one.
pub fn power_method(action: &str) -> (r: Option<&'static str>)
    ensures
        match r {
            Some(method) => method_of(action@) == Some(method@),
            None => method_of(action@) is None,
        },
{
    if same_text(action, "poweroff") {
        Some("PowerOff")
    } else if same_text(action, "reboot") {
        Some("Reboot")
    } else if same_text(action, "suspend") {
        Some("Suspend")
    } else {
        None
    }
}

/// Whether an error text speaks of missing permission.
pub open spec fn speaks_of_permission(message: Seq<char>) -> bool {
    let lowered = ascii_lowered(message);
    occurs(lowered, "accessdenied"@) || occurs(lowered, "notauthorized"@) || occurs(
        lowered,
        "not authorized"@,
    ) || occurs(lowered, "permission"@) || occurs(lowered, "polkit"@)
}

/// The code under which a failed power action is reported.
pub open spec fn error_code_of(message: Seq<char>) -> Seq<char> {
    if speaks_of_permission(message) {
        "power_denied"@
    } else {
        "power_error"@
    }
}

/// The code under which a failed power action is reported: `power_denied`
/// where the error text speaks of missing permission, else `power_error`.
pub fn power_error_code(message: &str) -> (code: &'static str)
    ensures
        code@ == error_code_of(message@),
{
    let v = chars_of(message);
    let lowered = ascii_lowercase(&v);
    if contains_text(&lowered, "accessdenied") || contains_text(&lowered, "notauthorized")
        || contains_text(&lowered, "not authorized") || contains_text(&lowered, "permission")
        || contains_text(&lowered, "polkit") {
        "power_denied"
    } else {
        "power_error"
    }
}

/// What becomes of a request for `action` in `phase`: refused where no action
/// is named, where the phase is not one of the allowed ones, where the action
/// is not enabled, or where it is unknown; else the call that carries it out.
pub open spec fn verdict(phase: Phase, action: Seq<char>, cfg: SettingsView) -> PowerVerdictView {
    let name = normal_name(action);
    if name.len() == 0 {
        PowerVerdictView::Refuse { code: "power_error"@, message: "power action missing"@ }
    } else if !cfg.power_allowed_states.contains(phase.name()) {
        PowerVerdictView::Refuse {
            code: "power_denied"@,
            message: "power action not allowed during "@ + phase.name(),
        }
    } else if !cfg.power_actions.contains(name) {
        PowerVerdictView::Refuse {
            code: "power_denied"@,
            message: "power action not allowed: "@ + name,
        }
    } else {
        match method_of(name) {
            Some(method) => PowerVerdictView::Call { method, interactive: false },
            None => PowerVerdictView::Refuse {
                code: error_code_of("unknown power action: "@ + name),
                message: "unknown power action: "@ + name,
            },
        }
    }
}

/// Decides a request for a power action.
pub fn power_gate(phase: Phase, action: &str, cfg: &Settings) -> (r: PowerVerdict)
    ensures
        r@ == verdict(phase, action@, cfg@),
{
    let name = normalise(action);
    if name.as_str().is_empty() {
        return PowerVerdict::Refuse {
            code: "power_error".to_owned(),
            message: "power action missing".to_owned(),
        };
    }
    if !has_name(&cfg.power_allowed_states, phase.as_str()) {
        let mut message = "power action not allowed during ".to_owned();
        message.append(phase.as_str());
        return PowerVerdict::Refuse { code: "power_denied".to_owned(), message };
    }
    if !has_name(&cfg.power_actions, name.as_str()) {
        let mut message = "power action not allowed: ".to_owned();
        message.append(name.as_str());
        return PowerVerdict::Refuse { code: "power_denied".to_owned(), message };
    }
    match power_method(name.as_str()) {
        Some(method) => PowerVerdict::Call { method, interactive: false },
        None => {
            let mut message = "unknown power action: ".to_owned();
            message.append(name.as_str());
            let code = power_error_code(message.as_str());
            PowerVerdict::Refuse { code: code.to_owned(), message }
        },
    }
}

/// Nothing is called unless the phase is one of the allowed ones and the
/// action is enabled.
pub proof fn lemma_calls_are_gated(phase: Phase, action: Seq<char>, cfg: SettingsView)
    requires
        verdict(phase, action, cfg) is Call,
    ensures
        cfg.power_allowed_states.contains(phase.name()),
        cfg.power_actions.contains(normal_name(action)),
        method_of(normal_name(action)) == Some(verdict(phase, action, cfg)->method),
        verdict(phase, action, cfg)->interactive == false,
{
}

} // verus!
