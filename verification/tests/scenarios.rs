use rv_vectorize_tui::app::{
    policy_name, vector_width_name, App, EntryStatus, HistoryEntry, ViewMode, FIELD_COUNT,
    HISTORY_CAP,
};
use rv_vectorize_tui::diff::{build_diff_rows, RowKind};
use rv_vectorize_tui::keys::{Key, KeyInput, MouseWheel};
use rv_vectorize_tui::run::RunRequest;
use rv_vectorize_tui::text_field::TextField;

#[test]
fn text_editor_handles_unicode_boundaries() {
    let mut field = TextField::new("aλ");
    field.move_left();
    field.backspace();
    assert_eq!(field.value, "λ");
    assert_eq!(field.cursor, 0);
    field.delete();
    assert!(field.value.is_empty());
}

#[test]
fn command_uses_policy_for_automatic_width() {
    let app = App::default();
    assert_eq!(
        app.command_arguments(),
        [
            "--policy",
            "balanced",
            "--report",
            "tests/fixtures/vectorizable.ll",
            "-o",
            "build/tui-vectorized.ll"
        ]
    );
}

#[test]
fn command_uses_forced_width_and_toggles() {
    let app = App {
        vector_width: 3,
        verify: false,
        emit_bitcode: true,
        ..App::default()
    };
    let arguments = app.command_arguments();
    assert!(arguments.windows(2).any(|pair| pair == ["--vf", "8"]));
    assert!(arguments.iter().any(|argument| argument == "--no-verify"));
    assert!(arguments.iter().any(|argument| argument == "--emit-bitcode"));
    assert!(!arguments.iter().any(|argument| argument == "--policy"));
}

#[test]
fn navigation_wraps_in_both_directions() {
    let mut app = App::default();
    app.previous_field();
    assert_eq!(app.focused, FIELD_COUNT - 1);
    app.next_field();
    assert_eq!(app.focused, 0);
}

#[test]
fn selectors_cycle_in_both_directions() {
    let mut app = App {
        focused: 2,
        ..App::default()
    };
    app.cycle_selected(false);
    assert_eq!(policy_name(app.policy), "aggressive");
    app.cycle_selected(true);
    assert_eq!(policy_name(app.policy), "balanced");

    app.focused = 3;
    app.cycle_selected(false);
    assert_eq!(vector_width_name(app.vector_width), "16");
}

#[test]
fn immediate_validation_failure_is_recorded_without_spawning_a_worker() {
    let mut app = App {
        input: TextField::new(""),
        ..App::default()
    };
    assert_eq!(app.request_run(), RunRequest::Rejected);
    assert!(!app.running);
    assert_eq!(app.history.len(), 1);
    assert_eq!(app.history[0].status, EntryStatus::Failed);
}

#[test]
fn history_is_capped() {
    let mut app = App::default();
    for _ in 0..(HISTORY_CAP + 3) {
        app.push_history(HistoryEntry {
            command: "x".to_owned(),
            status: EntryStatus::Success,
            detail: String::new(),
        });
    }
    assert_eq!(app.history.len(), HISTORY_CAP);
}

/// Pretend the last render measured `content` rows in a `viewport`-row pane.
fn measured(content: u16, viewport: u16) -> App {
    let mut app = App::default();
    app.transcript_content = content;
    app.transcript_viewport = viewport;
    app
}

#[test]
fn transcript_scroll_is_clamped_to_measured_content() {
    let mut app = measured(50, 20);
    assert_eq!(app.transcript_max_scroll(), 30);
    app.scroll_transcript(1000);
    assert_eq!(app.transcript_scroll, 30);
    app.scroll_transcript(-1000);
    assert_eq!(app.transcript_scroll, 0);
}

#[test]
fn short_transcripts_cannot_scroll_at_all() {
    let mut app = measured(5, 20);
    app.scroll_transcript(10);
    assert_eq!(app.transcript_offset(), 0);
    assert_eq!(app.transcript_max_scroll(), 0);
}

#[test]
fn scrolling_up_stops_following_and_returning_to_the_bottom_resumes_it() {
    let mut app = measured(50, 20);
    assert!(app.transcript_follow);
    app.scroll_transcript(-5);
    assert!(!app.transcript_follow);
    assert_eq!(app.transcript_offset(), 25);
    app.scroll_transcript(5);
    assert!(app.transcript_follow);
}

#[test]
fn new_output_returns_to_the_newest_entry() {
    let mut app = measured(50, 20);
    app.scroll_transcript_to_top();
    assert!(!app.transcript_follow);
    app.push_history(HistoryEntry {
        command: "x".to_owned(),
        status: EntryStatus::Success,
        detail: String::new(),
    });
    assert!(app.transcript_follow);
    assert_eq!(app.transcript_offset(), app.transcript_max_scroll());
}

#[test]
fn a_grown_transcript_keeps_a_pinned_offset_in_range() {
    let mut app = measured(50, 20);
    app.scroll_transcript(-10);
    assert_eq!(app.transcript_offset(), 20);
    // The pane shrinks; the stale offset must not point past the content.
    app.transcript_content = 25;
    assert_eq!(app.transcript_offset(), 5);
}

#[test]
fn mouse_wheel_scrolls_the_session_pane() {
    let mut app = measured(50, 20);
    app.handle_mouse(MouseWheel::ScrollUp);
    assert_eq!(app.transcript_offset(), 27);
    assert!(!app.transcript_follow);
}

#[test]
fn diff_view_is_unreachable_without_a_completed_run() {
    let mut app = App::default();
    app.toggle_diff_view();
    assert_eq!(app.view, ViewMode::Config);
}

#[test]
fn diff_rows_align_context_additions_and_removals() {
    let original = "a\nb\nc\n";
    let optimized = "a\nb2\nc\nd\n";
    let rows = build_diff_rows(original, optimized).expect("line numbers fit");

    // "a" and "c" are unchanged context lines present on both sides.
    assert!(rows.iter().any(|row| row.left_kind == RowKind::Context
        && row.left_text == "a"
        && row.right_text == "a"));
    // "b" -> "b2" shows as a removal paired with an addition.
    assert!(rows
        .iter()
        .any(|row| row.left_kind == RowKind::Removed && row.left_text == "b"));
    assert!(rows
        .iter()
        .any(|row| row.right_kind == RowKind::Added && row.right_text == "b2"));
    // The trailing "d" is a pure addition with an empty left side.
    assert!(rows.iter().any(|row| row.right_text == "d"
        && row.right_kind == RowKind::Added
        && row.left_kind == RowKind::Empty));
}

#[test]
fn view_diff_button_only_activates_once_a_diff_exists() {
    let mut app = App {
        focused: 8,
        ..App::default()
    };
    app.handle_key(KeyInput::new(Key::Enter));
    assert_eq!(app.view, ViewMode::Config);

    app.diff_labels = Some(("in.ll".to_owned(), "out.ll".to_owned()));
    app.handle_key(KeyInput::new(Key::Enter));
    assert_eq!(app.view, ViewMode::Diff);
}
