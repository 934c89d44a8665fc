use masterserver::logger::{console_label, Tint};
use masterserver::text::str_eq;

#[test]
fn console_labels() {
    assert_eq!(console_label("warning"), ("WARNING", Tint::BrightYellow));
    assert_eq!(console_label("error"), ("ERROR", Tint::BrightRed));
    assert_eq!(console_label("creating"), ("CREATING", Tint::BrightGreen));
    assert_eq!(console_label("loading"), ("LOADING", Tint::BrightGreen));
    assert_eq!(console_label("successfully"), ("SUCCESSFULLY", Tint::BrightGreen));
    assert_eq!(console_label("starting"), ("STARTING", Tint::BrightGreen));
    assert_eq!(console_label("info"), ("INFO", Tint::BrightWhite));
    assert_eq!(console_label("Warning"), ("INFO", Tint::BrightWhite));
}

#[test]
fn string_equality() {
    assert!(str_eq("abc", "abc"));
    assert!(!str_eq("abc", "abd"));
    assert!(!str_eq("abc", "ab"));
    assert!(str_eq("", ""));
}
