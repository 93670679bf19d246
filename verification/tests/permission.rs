//! Permission requests.

use claude_session::session::permission::fingerprint_of;
use claude_session::session::permission::option_entry;
use claude_session::session::permission::permission_fingerprint;
use claude_session::session::permission::PendingPermission;
use claude_session::terminal::PermissionDecision;
use claude_session::terminal::PermissionDialog;
use claude_session::terminal::PermissionOption;

fn option(accelerator: &str, label: &str, decision: &str) -> PermissionOption {
    PermissionOption {
        accelerator: accelerator.to_string(),
        label: label.to_string(),
        decision: PermissionDecision {
            name: decision.to_string(),
        },
    }
}

#[test]
fn fingerprint_holds_title_and_answers() {
    let dialog = PermissionDialog {
        title: "Run \"ls\"?".to_string(),
        options: vec![
            option("1", "Yes\tplease", "AllowOnce"),
            option("2", "No", "Reject"),
        ],
    };
    assert_eq!(
        permission_fingerprint(&dialog),
        "Run \"ls\"?::[(\"1\", \"Yes\\tplease\", AllowOnce), (\"2\", \"No\", Reject)]"
    );
}

#[test]
fn fingerprint_of_a_request_without_answers() {
    let dialog = PermissionDialog {
        title: "t".to_string(),
        options: vec![],
    };
    assert_eq!(permission_fingerprint(&dialog), "t::[]");
}

#[test]
fn fingerprint_is_the_debug_form_of_the_answers() {
    let dialog = PermissionDialog {
        title: "é".to_string(),
        options: vec![option("a'\\", "\u{0}\u{200b}", "X")],
    };
    assert_eq!(
        permission_fingerprint(&dialog),
        format!("é::[({:?}, {:?}, X)]", "a'\\", "\u{0}\u{200b}")
    );
}

#[test]
fn unhandled_request_is_named() {
    let pending = PendingPermission {
        session_id: "s-1".to_string(),
        dialog: PermissionDialog {
            title: "Edit file".to_string(),
            options: vec![],
        },
    };
    assert_eq!(
        pending.unhandled_message("Agent"),
        "Agent requested permission before transcript completion for session s-1: Edit file"
    );
}

#[test]
fn fingerprints_tell_titles_and_answers_apart() {
    let base = PermissionDialog {
        title: "t".to_string(),
        options: vec![option("1", "Yes", "Allow")],
    };
    let print = permission_fingerprint(&base);
    assert!(print.starts_with("t::"));
    assert_eq!(permission_fingerprint(&base.clone()), print);
    let mut titled = base.clone();
    titled.title = "u".to_string();
    assert_ne!(permission_fingerprint(&titled), print);
    for other in [
        vec![],
        vec![option("2", "Yes", "Allow")],
        vec![option("1", "Yes.", "Allow")],
        vec![option("1", "Yes", "Reject")],
        vec![option("1", "Yes", "Allow"), option("1", "Yes", "Allow")],
        vec![option("1\", \"Yes", "", "Allow")],
    ] {
        let mut answered = base.clone();
        answered.options = other;
        assert_ne!(permission_fingerprint(&answered), print);
    }
}

#[test]
fn entries_are_put_together() {
    assert_eq!(option_entry("\"1\"", "\"No\"", "Reject"), "(\"1\", \"No\", Reject)");
    assert_eq!(option_entry("", "", ""), "(, , )");
}

#[test]
fn fingerprints_are_put_together() {
    assert_eq!(fingerprint_of("t", &vec![]), "t::[]");
    assert_eq!(fingerprint_of("t", &vec!["a".to_string()]), "t::[a]");
    assert_eq!(
        fingerprint_of("", &vec!["a".to_string(), String::new(), "b".to_string()]),
        "::[a, , b]"
    );
}

#[test]
fn one_decision_tells_requests_apart() {
    let dialog = |decision: &str| PermissionDialog {
        title: "t".to_string(),
        options: vec![option("1", "Yes", "Allow"), option("2", "No", decision)],
    };
    assert_eq!(
        permission_fingerprint(&dialog("Reject")),
        permission_fingerprint(&dialog("Reject"))
    );
    assert_ne!(
        permission_fingerprint(&dialog("Reject")),
        permission_fingerprint(&dialog("Allow"))
    );
}
