//! How a log line labels its state on the console.

use vstd::prelude::*;

use crate::text::str_eq;

verus! {

/// The colour of a console label.
#[derive(Clone, Copy, Debug, PartialEq, Eq, Structural)]
pub enum Tint {
    BrightYellow,
    BrightRed,
    BrightGreen,
    BrightWhite,
}

/// The label and colour the console shows for a log `state`.
pub open spec fn label_of(state: Seq<char>) -> (Seq<char>, Tint) {
    if state == "warning"@ {
        ("WARNING"@, Tint::BrightYellow)
    } else if state == "error"@ {
        ("ERROR"@, Tint::BrightRed)
    } else if state == "creating"@ {
        ("CREATING"@, Tint::BrightGreen)
    } else if state == "loading"@ {
        ("LOADING"@, Tint::BrightGreen)
    } else if state == "successfully"@ {
        ("SUCCESSFULLY"@, Tint::BrightGreen)
    } else if state == "starting"@ {
        ("STARTING"@, Tint::BrightGreen)
    } else {
        ("INFO"@, Tint::BrightWhite)
    }
}

/// The console label for a log `state`: warnings in yellow, errors in red,
/// the progress states (creating, loading, successfully, starting) upper-cased
/// in green, anything else as white "INFO".
pub fn console_label(state: &str) -> (r: (&'static str, Tint))
    ensures
        (r.0@, r.1) == label_of(state@),
{
    if str_eq(state, "warning") {
        ("WARNING", Tint::BrightYellow)
    } else if str_eq(state, "error") {
        ("ERROR", Tint::BrightRed)
    } else if str_eq(state, "creating") {
        ("CREATING", Tint::BrightGreen)
    } else if str_eq(state, "loading") {
        ("LOADING", Tint::BrightGreen)
    } else if str_eq(state, "successfully") {
        ("SUCCESSFULLY", Tint::BrightGreen)
    } else if str_eq(state, "starting") {
        ("STARTING", Tint::BrightGreen)
    } else {
        ("INFO", Tint::BrightWhite)
    }
}

} // verus!
