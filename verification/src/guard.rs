//! Decisions of the gateway's middleware: the key guard, where a static
//! shared secret gates every non-read request, and the colour class the
//! request logger paints a response status with.

use vstd::prelude::*;

verus! {

/// What the guard decides for one inbound request.
#[derive(PartialEq, Eq, Structural, Clone, Copy, Debug)]
pub enum GuardDecision {
    /// Let the request through.
    Allow,
    /// Reject: a non-read request arrived without a key.
    MissingKey,
    /// Reject: the presented key does not match the shared secret.
    WrongKey,
}

/// Decide whether an inbound request may pass the key guard.
///
/// Read requests always pass.  Any other request must present a key, and
/// passes exactly when the key equals the shared secret.
pub fn key_guard_decision(is_read: bool, presented: Option<&String>, secret: &str) -> (r:
    GuardDecision)
    ensures
        is_read ==> r == GuardDecision::Allow,
        !is_read ==> match presented {
            None => r == GuardDecision::MissingKey,
            Some(k) => if k@ == secret@ {
                r == GuardDecision::Allow
            } else {
                r == GuardDecision::WrongKey
            },
        },
{
    if is_read {
        return GuardDecision::Allow;
    }
    match presented {
        None => GuardDecision::MissingKey,
        Some(k) => {
            let expected: String = secret.to_owned();
            if *k == expected {
                GuardDecision::Allow
            } else {
                GuardDecision::WrongKey
            }
        },
    }
}

/// The colour class the request logger paints a response status with.
#[derive(PartialEq, Eq, Structural, Clone, Copy, Debug)]
pub enum StatusColor {
    /// A success status.
    Green,
    /// A client or server error.
    Red,
    /// Anything else: informational and redirect statuses.
    Yellow,
}

/// Classify a response status code for the log line: green for the
/// successes, red for the errors, yellow for the rest.
pub fn status_color(status: u16) -> (r: StatusColor)
    ensures
        200 <= status < 300 ==> r == StatusColor::Green,
        status >= 400 ==> r == StatusColor::Red,
        !(200 <= status < 300) && status < 400 ==> r == StatusColor::Yellow,
{
    if 200 <= status && status < 300 {
        StatusColor::Green
    } else if status >= 400 {
        StatusColor::Red
    } else {
        StatusColor::Yellow
    }
}

} // verus!
