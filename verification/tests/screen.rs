//! What is read off the screen.

use claude_session::session::screen::assistant_text_from_line;
use claude_session::session::screen::assistant_text_from_screen;
use claude_session::session::screen::strip_duration_suffix;

#[test]
fn assistant_text_from_screen_requires_assistant_line_shape() {
    let screen = "user typed a marker: ⏺ not assistant\n  ⏺ OK. (1.0s)\n";
    assert_eq!(assistant_text_from_screen(screen).as_deref(), Some("OK."));
}

#[test]
fn assistant_text_from_screen_uses_latest_assistant_line() {
    let screen = "  ⏺ stale text\n  ⏺ current text\n";
    assert_eq!(
        assistant_text_from_screen(screen).as_deref(),
        Some("current text")
    );
}

#[test]
fn assistant_text_from_screen_preserves_non_duration_parenthetical() {
    let screen = "  ⏺ use foo (bar) now\n";
    assert_eq!(
        assistant_text_from_screen(screen).as_deref(),
        Some("use foo (bar) now")
    );
}

#[test]
fn assistant_text_from_screen_rejects_marker_inside_non_assistant_line() {
    let screen = "tool output mentions ⏺ but is not an assistant line\n";
    assert_eq!(assistant_text_from_screen(screen), None);
}

#[test]
fn assistant_text_from_screen_rejects_empty_assistant_line() {
    assert_eq!(assistant_text_from_screen("⏺   \n"), None);
}

#[test]
fn earlier_line_counts_where_later_ones_say_nothing() {
    let screen = "⏺ kept (0.5s)\n⏺   \n⏺no space\n> \r\n";
    assert_eq!(assistant_text_from_screen(screen).as_deref(), Some("kept"));
    assert_eq!(assistant_text_from_screen(""), None);
}

#[test]
fn line_that_is_only_a_duration_keeps_it() {
    // Trimming takes the space before the parenthesis, so no duration is seen.
    assert_eq!(
        assistant_text_from_line("⏺  (2s)").as_deref(),
        Some("(2s)")
    );
    assert_eq!(assistant_text_from_line("⏺"), None);
    assert_eq!(assistant_text_from_line("⏺\tx"), None);
}

#[test]
fn durations_are_dropped_from_the_end_alone() {
    assert_eq!(strip_duration_suffix("done (12.34s)"), "done");
    assert_eq!(strip_duration_suffix("done (s)"), "done");
    assert_eq!(strip_duration_suffix("done (1.2.3s)"), "done");
    assert_eq!(strip_duration_suffix("a (1s) (2s)"), "a (1s)");
    assert_eq!(strip_duration_suffix("done (12ms)"), "done (12ms)");
    assert_eq!(strip_duration_suffix("done ()"), "done ()");
    assert_eq!(strip_duration_suffix("done(1s)"), "done(1s)");
    assert_eq!(strip_duration_suffix("done (1s"), "done (1s");
    assert_eq!(strip_duration_suffix("done (١s)"), "done (١s)");
    assert_eq!(strip_duration_suffix(" (1s)"), "");
    assert_eq!(strip_duration_suffix(""), "");
}

#[test]
fn lower_screen_counts() {
    let upper = "\u{23fa} one\r";
    let lower = "\u{23fa} two";
    let both = format!("{upper}\n{lower}");
    assert_eq!(assistant_text_from_screen(&both).as_deref(), Some("two"));
    let alone = format!("{upper}\n> ");
    assert_eq!(assistant_text_from_screen(&alone).as_deref(), Some("one"));
    assert_eq!(assistant_text_from_screen(upper).as_deref(), Some("one"));
}
