use rv_vectorize_tui::app::{App, EntryStatus, HistoryEntry, ViewMode, HISTORY_CAP};
use rv_vectorize_tui::command::{command_line, shell_quote};
use rv_vectorize_tui::diff::{build_diff_rows, diff_rows_from_ops, LineOp, RowKind};
use rv_vectorize_tui::display::{diff_pane_lines, PaneTone, Side, TranscriptLine};
use rv_vectorize_tui::keys::{Command, Key, KeyAction, KeyInput, MouseWheel};
use rv_vectorize_tui::path::file_label;
use rv_vectorize_tui::run::{RunRequest, WorkerResult};
use rv_vectorize_tui::text::{char_len_utf8, decimal_string};
use rv_vectorize_tui::text_field::TextField;

fn entry(command: &str, status: EntryStatus, detail: &str) -> HistoryEntry {
    HistoryEntry {
        command: command.to_owned(),
        status,
        detail: detail.to_owned(),
    }
}

fn key(code: Key) -> KeyInput {
    KeyInput::new(code)
}

fn ctrl(code: Key) -> KeyInput {
    KeyInput {
        code,
        press: true,
        control: true,
        alt: false,
    }
}

#[test]
fn typing_then_backspace_restores_the_field() {
    let mut field = TextField::new("añb");
    field.move_left();
    let before = field.clone();
    field.insert('€');
    assert_eq!(field.value, "añ€b");
    assert_eq!(field.cursor, "añ€".len());
    field.backspace();
    assert_eq!(field.value, before.value);
    assert_eq!(field.cursor, before.cursor);
}

#[test]
fn typing_moving_left_and_deleting_restores_the_field() {
    let mut field = TextField::new("xy");
    field.move_home();
    field.insert('🦀');
    field.move_left();
    field.delete();
    assert_eq!(field.value, "xy");
    assert_eq!(field.cursor, 0);
}

#[test]
fn caret_moves_over_whole_characters() {
    let mut field = TextField::new("λ🦀z");
    assert_eq!(field.cursor, 7);
    assert_eq!(field.cursor_column(), 3);
    field.move_left();
    assert_eq!(field.cursor, 6);
    field.move_left();
    assert_eq!(field.cursor, 2);
    assert_eq!(field.cursor_column(), 1);
    field.move_right();
    assert_eq!(field.cursor, 6);
    field.move_end();
    assert_eq!(field.cursor, 7);
    field.move_right();
    assert_eq!(field.cursor, 7);
    field.move_home();
    field.move_left();
    assert_eq!(field.cursor, 0);
}

#[test]
fn editing_at_the_edges_does_nothing() {
    let mut field = TextField::new("ab");
    field.delete();
    assert_eq!(field.value, "ab");
    field.move_home();
    field.backspace();
    assert_eq!(field.value, "ab");
    assert_eq!(field.cursor, 0);
}

#[test]
fn character_widths_follow_utf8() {
    assert_eq!(char_len_utf8('a'), 1);
    assert_eq!(char_len_utf8('λ'), 2);
    assert_eq!(char_len_utf8('€'), 3);
    assert_eq!(char_len_utf8('🦀'), 4);
    let field = TextField::new("aλ€🦀");
    assert_eq!(field.cursor, 10);
}

#[test]
fn detail_lines_are_split_like_str_lines() {
    let mut app = App::default();
    app.push_history(entry("", EntryStatus::Failed, "a\r\nb\n\nc\r"));
    let details: Vec<String> = app
        .transcript_lines()
        .iter()
        .filter_map(|line| match line {
            TranscriptLine::Detail(text) => Some(text.clone()),
            _ => None,
        })
        .collect();
    assert_eq!(details, vec!["  a", "  b", "  ", "  c\r"]);
    let mut trailing = App::default();
    trailing.push_history(entry("", EntryStatus::Failed, "only\n"));
    assert_eq!(trailing.transcript_lines().len(), 3);
}

#[test]
fn whitespace_only_paths_are_blank() {
    let mut app = App { input: TextField::new("\u{3000}\t \n"), ..App::default() };
    assert_eq!(app.request_run(), RunRequest::Rejected);
    let mut padded = App { input: TextField::new("  x  "), ..App::default() };
    assert_eq!(padded.request_run(), RunRequest::Ready);
}

#[test]
fn decimals_are_written_like_display() {
    assert_eq!(decimal_string(0), "0");
    assert_eq!(decimal_string(137), "137");
    assert_eq!(decimal_string(-5), "-5");
    assert_eq!(decimal_string(i32::MIN), i32::MIN.to_string());
    assert_eq!(decimal_string(i32::MAX), i32::MAX.to_string());
}

#[test]
fn shell_quoting_keeps_plain_words_and_quotes_the_rest() {
    assert_eq!(shell_quote("build/out.ll"), "build/out.ll");
    assert_eq!(shell_quote("--vf=8"), "--vf=8");
    assert_eq!(shell_quote(""), "''");
    assert_eq!(shell_quote("a b"), "'a b'");
    assert_eq!(shell_quote("it's"), "'it'\\''s'");
    assert_eq!(shell_quote("λ"), "'λ'");
}

#[test]
fn command_line_quotes_each_argument() {
    let arguments = vec!["--policy".to_owned(), "my file.ll".to_owned()];
    assert_eq!(
        command_line("/bin/rv-vectorize", &arguments),
        "/bin/rv-vectorize --policy 'my file.ll'"
    );
    assert_eq!(command_line("rv", &Vec::new()), "rv ");
}

#[test]
fn file_labels_use_the_file_name() {
    assert_eq!(file_label("tests/fixtures/vectorizable.ll"), "vectorizable.ll");
    assert_eq!(file_label("out.ll"), "out.ll");
    assert_eq!(file_label("dir/sub/"), "sub");
    assert_eq!(file_label("a/b/."), "b");
    assert_eq!(file_label("a/.."), "a/..");
    assert_eq!(file_label("/"), "/");
    assert_eq!(file_label(""), "");
}

#[test]
fn key_table_reads_keys_as_commands() {
    let app = App::default();
    assert_eq!(app.key_command(&ctrl(Key::Char('c'))), Command::Quit);
    assert_eq!(app.key_command(&key(Key::Tab)), Command::NextField);
    assert_eq!(app.key_command(&key(Key::Up)), Command::PreviousField);
    assert_eq!(app.key_command(&ctrl(Key::Up)), Command::ScrollTranscript(-1));
    assert_eq!(app.key_command(&key(Key::PageDown)), Command::ScrollTranscript(5));
    assert_eq!(app.key_command(&key(Key::Left)), Command::CaretLeft);
    assert_eq!(app.key_command(&key(Key::Char('x'))), Command::Type('x'));
    assert_eq!(app.key_command(&ctrl(Key::Char('x'))), Command::Ignore);
    assert_eq!(app.key_command(&ctrl(Key::Char('r'))), Command::Run);
    let released = KeyInput { press: false, ..key(Key::Esc) };
    assert_eq!(app.key_command(&released), Command::Ignore);

    let toggles = App { focused: 5, ..App::default() };
    assert_eq!(toggles.key_command(&key(Key::Char(' '))), Command::Toggle);
    assert_eq!(toggles.key_command(&key(Key::Enter)), Command::Toggle);
    assert_eq!(toggles.key_command(&key(Key::Home)), Command::ScrollTop);
    assert_eq!(toggles.key_command(&key(Key::Left)), Command::CycleBackward);

    let diff = App { view: ViewMode::Diff, ..App::default() };
    assert_eq!(diff.key_command(&key(Key::Char('q'))), Command::CloseDiff);
    assert_eq!(
        diff.key_command(&key(Key::PageUp)),
        Command::ScrollDiff { up: true, rows: 10 }
    );
    assert_eq!(diff.key_command(&ctrl(Key::Char('r'))), Command::Run);

    let run_button = App { focused: 7, ..App::default() };
    assert_eq!(run_button.key_command(&key(Key::Char(' '))), Command::Run);
    assert_eq!(run_button.key_command(&key(Key::Enter)), Command::Run);
}

#[test]
fn keys_edit_the_focused_field() {
    let mut app = App::default();
    app.handle_key(key(Key::Home));
    app.handle_key(key(Key::Char('.')));
    app.handle_key(key(Key::Char('/')));
    assert_eq!(app.input.value, "./tests/fixtures/vectorizable.ll");
    app.handle_key(key(Key::Tab));
    app.handle_key(key(Key::End));
    app.handle_key(key(Key::Backspace));
    assert_eq!(app.output.value, "build/tui-vectorized.l");
    app.handle_key(key(Key::Tab));
    app.handle_key(key(Key::Right));
    assert_eq!(app.policy, 1);
    app.handle_key(key(Key::Tab));
    app.handle_key(key(Key::Tab));
    app.handle_key(key(Key::Char(' ')));
    assert!(!app.report);
    app.handle_key(key(Key::Esc));
    assert!(app.quit);
}

#[test]
fn run_requests_are_granted_only_for_a_complete_form() {
    let mut app = App::default();
    assert_eq!(app.request_run(), RunRequest::Ready);
    assert!(app.history.is_empty());

    let mut blank = App { output: TextField::new(" \t"), ..App::default() };
    assert_eq!(blank.request_run(), RunRequest::Rejected);
    assert_eq!(blank.history[0].detail, "Input and output paths are required.");
    assert_eq!(blank.history[0].command, "");

    let mut busy = App { running: true, ..App::default() };
    assert_eq!(busy.request_run(), RunRequest::AlreadyRunning);
    assert!(busy.history.is_empty());

    let mut focused_run = App { focused: 7, ..App::default() };
    assert_eq!(focused_run.handle_key(key(Key::Enter)), KeyAction::StartRun);
    assert_eq!(busy.handle_key(ctrl(Key::Char('r'))), KeyAction::Nothing);
}

#[test]
fn a_run_is_recorded_and_its_outcome_written() {
    let mut app = App::default();
    let arguments = app.start_run("/bin/rv-vectorize");
    assert_eq!(arguments.len(), 6);
    assert!(app.running);
    assert_eq!(app.run_input, "tests/fixtures/vectorizable.ll");
    assert_eq!(app.history[0].status, EntryStatus::Running);
    assert_eq!(
        app.history[0].command,
        "/bin/rv-vectorize --policy balanced --report tests/fixtures/vectorizable.ll -o build/tui-vectorized.ll"
    );
    assert!(app.tick());
    assert_eq!(app.spinner_frame, 1);
    assert_eq!(app.tick_count, 1);

    let result = WorkerResult {
        success: false,
        code: Some(-3),
        stdout: "  report line \n".to_owned(),
        stderr: "\nwarning: x\n".to_owned(),
        spawn_error: None,
    };
    assert!(!app.finish_run(&result));
    assert!(!app.running);
    assert_eq!(app.history[0].status, EntryStatus::Failed);
    assert_eq!(
        app.history[0].detail,
        "rv-vectorize exited with status -3.\nwarning: x\n\nstdout:\nreport line"
    );
    assert!(!app.tick());
    assert_eq!(app.spinner_frame, 1);
}

#[test]
fn outcomes_of_success_signal_and_spawn_failure() {
    let mut app = App::default();
    app.push_history(entry("cmd", EntryStatus::Running, ""));
    let ok = WorkerResult {
        success: true,
        code: Some(0),
        stdout: String::new(),
        stderr: String::new(),
        spawn_error: None,
    };
    assert!(app.finish_run(&ok));
    assert_eq!(app.history[0].status, EntryStatus::Success);
    assert_eq!(app.history[0].detail, "wrote output successfully.");
    assert_eq!(app.history[0].command, "cmd");

    app.push_history(entry("cmd2", EntryStatus::Running, ""));
    let killed = WorkerResult { success: false, code: None, ..ok.clone() };
    assert!(!app.finish_run(&killed));
    assert_eq!(app.history[1].detail, "rv-vectorize exited with status signal.");

    app.push_history(entry("cmd3", EntryStatus::Running, ""));
    let unstarted = WorkerResult {
        success: false,
        spawn_error: Some("not found".to_owned()),
        ..ok.clone()
    };
    assert!(!app.finish_run(&unstarted));
    assert_eq!(app.history[2].detail, "Could not start rv-vectorize: not found");
    assert_eq!(app.history[2].status, EntryStatus::Failed);
}

#[test]
fn history_keeps_the_newest_entries() {
    let mut app = App::default();
    for index in 0..(HISTORY_CAP + 2) {
        app.push_history(entry(&index.to_string(), EntryStatus::Success, ""));
    }
    assert_eq!(app.history.len(), HISTORY_CAP);
    assert_eq!(app.history[0].command, "2");
    assert_eq!(app.history[HISTORY_CAP - 1].command, (HISTORY_CAP + 1).to_string());
}

#[test]
fn scrolling_back_returns_to_the_same_offset() {
    let mut app = App::default();
    app.transcript_content = 40;
    app.transcript_viewport = 10;
    app.scroll_transcript(-12);
    assert_eq!(app.transcript_offset(), 18);
    app.scroll_transcript(12);
    assert_eq!(app.transcript_offset(), 30);
    assert!(app.transcript_follow);
    app.scroll_transcript_to_top();
    assert_eq!(app.transcript_offset(), 0);
    app.scroll_transcript_to_bottom();
    assert_eq!(app.transcript_offset(), 30);
}

#[test]
fn mouse_scrolls_the_diff_on_the_diff_screen() {
    let mut app = App { view: ViewMode::Diff, ..App::default() };
    app.handle_mouse(MouseWheel::ScrollDown);
    assert_eq!(app.diff_scroll, 3);
    app.handle_mouse(MouseWheel::ScrollUp);
    app.handle_mouse(MouseWheel::ScrollUp);
    assert_eq!(app.diff_scroll, 0);
    app.handle_mouse(MouseWheel::Other);
    assert_eq!(app.diff_scroll, 0);
}

#[test]
fn toggles_flip_back_and_selectors_wrap() {
    let mut app = App { focused: 6, ..App::default() };
    app.toggle_selected();
    assert!(app.emit_bitcode);
    app.toggle_selected();
    assert!(!app.emit_bitcode);
    app.focused = 3;
    for _ in 0..5 {
        app.cycle_selected(true);
    }
    assert_eq!(app.vector_width, 0);
    app.focused = 8;
    app.next_field();
    assert_eq!(app.focused, 0);
}

#[test]
fn diff_rows_follow_the_steps() {
    let old = vec!["a".to_owned(), "b".to_owned()];
    let new = vec!["x".to_owned()];
    let ops = vec![
        LineOp::Equal { old_index: 0, new_index: 0, len: 1 },
        LineOp::Replace { old_index: 1, old_len: 1, new_index: 0, new_len: 2 },
    ];
    let rows = diff_rows_from_ops(&old, &new, &ops);
    assert_eq!(rows.len(), 3);
    assert_eq!((rows[0].left_no, rows[0].right_no), (Some(1), Some(1)));
    assert_eq!(rows[0].right_text, "a");
    assert_eq!(rows[1].left_kind, RowKind::Removed);
    assert_eq!(rows[1].right_text, "x");
    assert_eq!(rows[2].left_kind, RowKind::Empty);
    assert_eq!(rows[2].right_no, Some(2));
    assert_eq!(rows[2].right_text, "");
}

#[test]
fn identical_texts_diff_to_context_rows() {
    let rows = build_diff_rows("x\ny\n", "x\ny\n").unwrap();
    assert_eq!(rows.len(), 2);
    assert!(rows.iter().all(|r| r.left_kind == RowKind::Context && r.left_text == r.right_text));
    assert!(build_diff_rows("", "").unwrap().is_empty());
}

#[test]
fn diff_panes_show_numbers_and_markers() {
    let rows = build_diff_rows("a\nb\n", "a\nc\n").unwrap();
    let left = diff_pane_lines(&rows, Side::Left);
    let right = diff_pane_lines(&rows, Side::Right);
    assert_eq!(left[0].prefix, "   1   ");
    assert_eq!(left[1].prefix, "   2 - ");
    assert_eq!(right[1].prefix, "   2 + ");
    assert_eq!(right[1].text, "c");
}

#[test]
fn showing_a_diff_labels_it_with_the_run_paths() {
    let mut app = App::default();
    app.start_run("rv");
    app.show_diff(build_diff_rows("a\n", "b\n").unwrap());
    assert_eq!(
        app.diff_labels,
        Some(("tests/fixtures/vectorizable.ll".to_owned(), "build/tui-vectorized.ll".to_owned()))
    );
    app.toggle_diff_view();
    assert_eq!(app.view, ViewMode::Diff);
    app.handle_key(key(Key::Esc));
    assert_eq!(app.view, ViewMode::Config);
}

#[test]
fn transcript_lines_and_geometry() {
    let mut app = App::default();
    assert!(matches!(app.transcript_lines()[..], [TranscriptLine::Placeholder]));
    assert_eq!(app.transcript_tone(), PaneTone::Idle);
    app.push_history(entry("run", EntryStatus::Success, "one\ntwo"));
    let lines = app.transcript_lines();
    assert_eq!(lines.len(), 5);
    assert!(matches!(&lines[3], TranscriptLine::Detail(d) if d == "  two"));
    assert_eq!(app.transcript_tone(), PaneTone::Success);
    app.record_geometry(100_000, 1);
    assert_eq!(app.transcript_content, u16::MAX);
    assert_eq!(app.transcript_viewport, 0);
    app.record_geometry(30, 12);
    assert!(app.transcript_overflows());
    assert_eq!(app.transcript_title(), " Session ");
    app.scroll_transcript(-1);
    assert_eq!(app.transcript_title(), " Session (scrolled) ");
}

#[test]
fn caret_position_on_screen() {
    let mut app = App::default();
    app.input = TextField::new("aλ");
    assert_eq!(app.cursor_position(2, 3, 100, 10), Some((16, 3)));
    assert_eq!(app.cursor_position(2, 3, 16, 10), None);
    app.focused = 1;
    assert_eq!(app.cursor_position(0, 0, 100, 10), Some((35, 1)));
    app.focused = 4;
    assert_eq!(app.cursor_position(0, 0, 100, 10), None);
}

#[test]
fn diff_rows_are_never_blank_on_both_sides() {
    let rows = build_diff_rows("a\nb\nc\nd\n", "x\nb\ny\nz\nw\n").unwrap();
    assert!(rows
        .iter()
        .all(|row| row.left_kind != RowKind::Empty || row.right_kind != RowKind::Empty));
    assert!(rows
        .iter()
        .filter(|row| row.left_kind == RowKind::Context)
        .all(|row| row.left_text == row.right_text));
}

#[test]
fn a_run_in_flight_ignores_further_requests() {
    let mut app = App::default();
    app.start_run("rv");
    let before = app.history.len();
    assert_eq!(app.handle_key(ctrl(Key::Char('r'))), KeyAction::Nothing);
    assert_eq!(app.history.len(), before);
}

#[test]
fn footer_offers_the_diff_key_once_a_diff_exists() {
    let mut app = App::default();
    let keys: Vec<&str> = app.footer_hints().iter().map(|(k, _)| *k).collect();
    assert_eq!(keys, vec!["tab/↑↓", "←→", "enter/space", "ctrl-r", "wheel/pgup/pgdn", "esc"]);
    assert_eq!(app.diff_button_label(), "View diff");
    app.diff_labels = Some(("a".to_owned(), "b".to_owned()));
    assert!(app.footer_hints().iter().any(|(k, _)| *k == "ctrl-d"));
    app.view = ViewMode::Diff;
    assert_eq!(app.footer_hints().len(), 3);
    assert_eq!(app.diff_button_label(), "Hide diff");
}

#[test]
fn space_on_the_run_button_and_ctrl_r_on_the_diff_screen_start_a_run() {
    let mut on_button = App { focused: 7, ..App::default() };
    assert_eq!(on_button.handle_key(key(Key::Char(' '))), KeyAction::StartRun);
    let mut on_diff = App { view: ViewMode::Diff, ..App::default() };
    assert_eq!(on_diff.handle_key(ctrl(Key::Char('r'))), KeyAction::StartRun);
    assert_eq!(on_diff.view, ViewMode::Diff);
}

#[test]
fn unreadable_files_leave_the_diff_empty() {
    let mut app = App::default();
    app.start_run("rv");
    app.load_diff(Some("a\n"), Some("b\n"));
    assert_eq!(app.diff_rows.len(), 1);
    assert!(app.diff_labels.is_some());
    app.diff_scroll = 4;
    app.load_diff(Some("a\n"), None);
    assert!(app.diff_rows.is_empty());
    assert_eq!(
        app.diff_labels,
        Some(("tests/fixtures/vectorizable.ll".to_owned(), "build/tui-vectorized.ll".to_owned()))
    );
    assert_eq!(app.diff_scroll, 4);
    app.load_diff(None, None);
    assert!(app.diff_rows.is_empty());
    assert_eq!(app.diff_scroll, 4);
}

#[test]
fn each_side_numbers_its_lines_in_order() {
    let original = "a\nb\nc\nd\n";
    let optimized = "x\nb\ny\nz\nw\n";
    let rows = build_diff_rows(original, optimized).unwrap();
    let left: Vec<(usize, String)> = rows
        .iter()
        .filter_map(|r| r.left_no.map(|n| (n, r.left_text.clone())))
        .collect();
    let right: Vec<(usize, String)> = rows
        .iter()
        .filter_map(|r| r.right_no.map(|n| (n, r.right_text.clone())))
        .collect();
    let number = |text: &str| -> Vec<(usize, String)> {
        text.lines().enumerate().map(|(i, l)| (i + 1, l.to_owned())).collect()
    };
    assert_eq!(left, number(original));
    assert_eq!(right, number(optimized));
}
