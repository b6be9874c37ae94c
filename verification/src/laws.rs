//! What holds of the front end across operations.

use vstd::prelude::*;

use crate::app::{
    policy_name_spec, vector_width_name_spec, App, HistoryEntry, ViewMode, FIELD_COUNT, HISTORY_CAP,
    POLICY_COUNT, SPINNER_FRAMES, VECTOR_WIDTH_COUNT,
};
use crate::diff::{
    line_at, numbers_fit, op_row, op_rows, row_count, rows_of, DiffRow, LineOp, RowKind, RowModel,
};
use crate::history::capped;
use crate::keys::{applied, command_spec, mouse_effect, Command, Key, KeyAction, KeyInput, MouseWheel};
use crate::run::{outcome_detail, RunRequest, WorkerResult};
use crate::scroll::clamp;
use crate::display::{entry_lines_spec, gutter, marker, pane_line_spec, LineModel, Side, GUTTER_WIDTH};
use crate::text::{decimal, decimal_digits, lines_of, trimmed};

verus! {

/// Moving the focus forward and then backward, or backward and then
/// forward, leaves it where it was; from the first control, backward goes to
/// the last.
pub proof fn law_focus_round_trip(app: App)
    requires
        app.focused < FIELD_COUNT,
    ensures
        app.focus_next().focus_previous() == app,
        app.focus_previous().focus_next() == app,
        app.focused == 0 ==> app.focus_previous().focused == FIELD_COUNT - 1,
        app.focused == FIELD_COUNT - 1 ==> app.focus_next().focused == 0,
        app.focus_next().focused < FIELD_COUNT,
        app.focus_previous().focused < FIELD_COUNT,
{
}

/// Stepping a selector forward and then backward, or backward and then
/// forward, restores its choice, and the choice stays in range.
pub proof fn law_selector_round_trip(app: App)
    requires
        app.policy < POLICY_COUNT,
        app.vector_width < VECTOR_WIDTH_COUNT,
    ensures
        app.cycled(true).cycled(false) == app,
        app.cycled(false).cycled(true) == app,
        app.cycled(true).policy < POLICY_COUNT,
        app.cycled(false).policy < POLICY_COUNT,
        app.cycled(true).vector_width < VECTOR_WIDTH_COUNT,
        app.cycled(false).vector_width < VECTOR_WIDTH_COUNT,
{
}

/// Flipping a toggle twice, or switching screens twice, changes nothing.
pub proof fn law_toggles_are_involutions(app: App)
    ensures
        app.toggled().toggled() == app,
        app.diff_toggled().diff_toggled() == app,
{
}

/// Without a diff to show, the diff screen cannot be reached.
pub proof fn law_no_diff_screen_without_diff(app: App)
    requires
        app.diff_labels is None,
    ensures
        app.diff_toggled() == app,
{
}

/// The pane is never drawn past the end of the measured content, whatever
/// the stored offset.
pub proof fn law_offset_within_content(app: App)
    ensures
        0 <= app.offset() <= app.max_scroll(),
{
}

/// After any scroll the offset is within the content, and the pane follows
/// new output exactly when the reader is at the bottom.
pub proof fn law_scroll_stays_in_range(app: App, delta: int)
    ensures
        0 <= app.scrolled_by(delta).offset() <= app.max_scroll(),
        app.scrolled_by(delta).transcript_follow == (app.scrolled_by(delta).offset()
            == app.max_scroll()),
        app.scrolled_by(delta).offset() == clamp(app.offset() + delta, 0, app.max_scroll()),
{
}

/// Scrolling by some rows and back by as many returns to the same offset,
/// when the first scroll was not stopped at either end.
pub proof fn law_scroll_back_returns(app: App, delta: int)
    requires
        0 <= app.offset() + delta <= app.max_scroll(),
    ensures
        app.scrolled_by(delta).scrolled_by(-delta).offset() == app.offset(),
{
}

/// Jumping to the bottom follows the newest output; jumping to the top
/// shows the oldest, and follows only when everything fits.
pub proof fn law_jumps(app: App)
    ensures
        app.scrolled_to_bottom().transcript_follow,
        app.scrolled_to_bottom().offset() == app.max_scroll(),
        app.scrolled_to_top().offset() == 0,
        app.scrolled_to_top().transcript_follow == (app.max_scroll() == 0),
{
}

/// The transcript keeps at most `HISTORY_CAP` entries, the newest of which
/// is the one just added; below the cap nothing is dropped.
pub proof fn law_history_capped(entries: Seq<HistoryEntry>, entry: HistoryEntry)
    ensures
        capped(entries.push(entry)).len() <= HISTORY_CAP,
        capped(entries.push(entry)).last() == entry,
        entries.len() < HISTORY_CAP ==> capped(entries.push(entry)) == entries.push(entry),
        entries.len() >= HISTORY_CAP ==> capped(entries.push(entry)) == entries.push(
            entry,
        ).skip(entries.len() + 1 - HISTORY_CAP),
{
}

/// When new output makes the pane follow, it is drawn at the newest entry.
pub proof fn law_following_shows_newest(app: App)
    requires
        app.transcript_follow,
    ensures
        app.offset() == app.max_scroll(),
{
}


/// While a run is in flight, no command starts another, and a run request
/// changes nothing.
pub proof fn law_no_overlapping_runs(old: App, new: App, command: Command, action: KeyAction)
    requires
        applied(old, new, command, action),
        old.running,
    ensures
        action == KeyAction::Nothing,
        command == Command::Run ==> new == old,
{
}

/// A run starts only from a complete form: when a command asks to start a
/// run, neither path is blank and none was in flight.
pub proof fn law_runs_start_from_complete_forms(
    old: App,
    new: App,
    command: Command,
    action: KeyAction,
)
    requires
        applied(old, new, command, action),
        action == KeyAction::StartRun,
    ensures
        command == Command::Run,
        old.run_request() == RunRequest::Ready,
        !old.running,
        new == old,
{
}

/// Every command keeps a sound state sound.
pub proof fn law_commands_keep_state_sound(old: App, new: App, command: Command, action: KeyAction)
    requires
        applied(old, new, command, action),
        old.wf(),
    ensures
        new.wf(),
{
}

/// The spinner frame stays among the frames.
pub proof fn law_spinner_in_range(frame: int)
    requires
        0 <= frame < SPINNER_FRAMES,
    ensures
        0 <= (frame + 1) % (SPINNER_FRAMES as int) < SPINNER_FRAMES,
{
}

/// The arguments of a run: the policy for the automatic width, else the
/// fixed width, never both; the paths come last, the output after `-o`.
pub proof fn law_argument_shape(app: App)
    ensures
        app.arguments().len() >= 5,
        app.vector_width == 0 ==> app.arguments()[0] == "--policy"@ && app.arguments()[1]
            == policy_name_spec(app.policy as int),
        app.vector_width != 0 ==> app.arguments()[0] == "--vf"@ && app.arguments()[1]
            == vector_width_name_spec(app.vector_width as int),
        app.arguments()[app.arguments().len() - 3] == app.input.value@,
        app.arguments()[app.arguments().len() - 2] == "-o"@,
        app.arguments().last() == app.output.value@,
{
}

/// No diff row is blank on both sides.
pub open spec fn row_shows_a_line(row: RowModel) -> bool {
    row.left_kind != RowKind::Empty || row.right_kind != RowKind::Empty
}

/// Every row of the side-by-side diff shows a line on at least one side; an
/// unchanged line shows the same text on both.
pub proof fn law_rows_are_never_blank(old: Seq<Seq<char>>, new: Seq<Seq<char>>, ops: Seq<LineOp>)
    ensures
        forall|i: int|
            0 <= i < rows_of(old, new, ops).len() ==> row_shows_a_line(
                #[trigger] rows_of(old, new, ops)[i],
            ),
        forall|i: int|
            0 <= i < rows_of(old, new, ops).len() && (#[trigger] rows_of(old, new, ops)[i]).left_kind
                == RowKind::Context ==> rows_of(old, new, ops)[i].left_text == rows_of(
                old,
                new,
                ops,
            )[i].right_text,
    decreases ops.len(),
{
    if ops.len() > 0 {
        law_rows_are_never_blank(old, new, ops.drop_last());
        let before = rows_of(old, new, ops.drop_last());
        let last = op_rows(old, new, ops.last());
        assert forall|i: int| 0 <= i < rows_of(old, new, ops).len() implies row_shows_a_line(
            #[trigger] rows_of(old, new, ops)[i],
        ) && (rows_of(old, new, ops)[i].left_kind == RowKind::Context ==> rows_of(
            old,
            new,
            ops,
        )[i].left_text == rows_of(old, new, ops)[i].right_text) by {
            if i >= before.len() {
                let k = i - before.len();
                assert(rows_of(old, new, ops)[i] == last[k]);
                assert(last[k] == op_row(old, new, ops.last(), k));
                assert(0 <= k < row_count(ops.last()));
            } else {
                assert(rows_of(old, new, ops)[i] == before[i]);
            }
        }
    }
}

/// The colours of the diff tell the sides apart: the left side shows old
/// lines, as context or as removed, never as added; the right side shows new
/// lines, as context or as added, never as removed. A side is blank exactly
/// when it has no line number, and a row is context on one side exactly when
/// it is context on the other.
pub proof fn law_row_sides_keep_their_colours(
    old: Seq<Seq<char>>,
    new: Seq<Seq<char>>,
    ops: Seq<LineOp>,
)
    ensures
        forall|i: int|
            0 <= i < rows_of(old, new, ops).len() ==> {
                let row = #[trigger] rows_of(old, new, ops)[i];
                &&& row.left_kind != RowKind::Added
                &&& row.right_kind != RowKind::Removed
                &&& (row.left_kind == RowKind::Empty) == (row.left_no is None)
                &&& (row.right_kind == RowKind::Empty) == (row.right_no is None)
                &&& (row.left_kind == RowKind::Context) == (row.right_kind == RowKind::Context)
            },
    decreases ops.len(),
{
    if ops.len() > 0 {
        law_row_sides_keep_their_colours(old, new, ops.drop_last());
        let before = rows_of(old, new, ops.drop_last());
        let last = op_rows(old, new, ops.last());
        assert forall|i: int| 0 <= i < rows_of(old, new, ops).len() implies {
            let row = #[trigger] rows_of(old, new, ops)[i];
            &&& row.left_kind != RowKind::Added
            &&& row.right_kind != RowKind::Removed
            &&& (row.left_kind == RowKind::Empty) == (row.left_no is None)
            &&& (row.right_kind == RowKind::Empty) == (row.right_no is None)
            &&& (row.left_kind == RowKind::Context) == (row.right_kind == RowKind::Context)
        } by {
            if i >= before.len() {
                let k = i - before.len();
                assert(rows_of(old, new, ops)[i] == last[k]);
                assert(last[k] == op_row(old, new, ops.last(), k));
            } else {
                assert(rows_of(old, new, ops)[i] == before[i]);
            }
        }
    }
}

/// Each line that a deletion covers is shown on the left, under its own
/// number and with its own text, as removed, across from a blank right
/// side; each line that an insertion covers is shown on the right, under its
/// own number and with its own text, as added, across from a blank left side.
pub proof fn law_deleted_and_inserted_lines(
    old: Seq<Seq<char>>,
    new: Seq<Seq<char>>,
    op: LineOp,
    k: int,
)
    requires
        numbers_fit(op),
        0 <= k < row_count(op),
    ensures
        op matches LineOp::Delete { old_index, .. } ==> {
            let row = op_rows(old, new, op)[k];
            &&& row.left_kind == RowKind::Removed
            &&& row.left_no is Some
            &&& row.left_no.unwrap() == old_index + k + 1
            &&& row.left_text == line_at(old, old_index + k)
            &&& row.right_kind == RowKind::Empty
            &&& row.right_no is None
            &&& row.right_text.len() == 0
        },
        op matches LineOp::Insert { new_index, .. } ==> {
            let row = op_rows(old, new, op)[k];
            &&& row.right_kind == RowKind::Added
            &&& row.right_no is Some
            &&& row.right_no.unwrap() == new_index + k + 1
            &&& row.right_text == line_at(new, new_index + k)
            &&& row.left_kind == RowKind::Empty
            &&& row.left_no is None
            &&& row.left_text.len() == 0
        },
        op matches LineOp::Equal { old_index, new_index, .. } ==> {
            let row = op_rows(old, new, op)[k];
            &&& row.left_kind == RowKind::Context
            &&& row.right_kind == RowKind::Context
            &&& row.left_no is Some
            &&& row.right_no is Some
            &&& row.left_no.unwrap() == old_index + k + 1
            &&& row.right_no.unwrap() == new_index + k + 1
            &&& row.left_text == line_at(old, old_index + k)
            &&& row.right_text == row.left_text
        },
        op matches LineOp::Replace { old_index, old_len, new_index, new_len } ==> {
            let row = op_rows(old, new, op)[k];
            &&& (k < old_len ==> row.left_kind == RowKind::Removed && row.left_no is Some
                && row.left_no.unwrap() == old_index + k + 1 && row.left_text == line_at(
                old,
                old_index + k,
            ))
            &&& (k >= old_len ==> row.left_kind == RowKind::Empty && row.left_no is None)
            &&& (k < new_len ==> row.right_kind == RowKind::Added && row.right_no is Some
                && row.right_no.unwrap() == new_index + k + 1 && row.right_text == line_at(
                new,
                new_index + k,
            ))
            &&& (k >= new_len ==> row.right_kind == RowKind::Empty && row.right_no is None)
        },
{
}

/// Flipping a toggle changes exactly the flag of the focused toggle: the
/// report flag at the fifth control, verification at the sixth, bitcode at
/// the seventh, and nothing at all elsewhere.
pub proof fn law_toggle_flips_only_the_focused_flag(app: App)
    ensures
        app.toggled().report == (app.report != (app.focused == 4)),
        app.toggled().verify == (app.verify != (app.focused == 5)),
        app.toggled().emit_bitcode == (app.emit_bitcode != (app.focused == 6)),
        (App {
            report: app.report,
            verify: app.verify,
            emit_bitcode: app.emit_bitcode,
            ..app.toggled()
        }) == app,
        !(4 <= app.focused <= 6) ==> app.toggled() == app,
{
}

/// The number of flags that the toggles add to a run's arguments.
pub open spec fn flag_count(app: App) -> int {
    (if app.report { 1int } else { 0int }) + (if !app.verify { 1int } else { 0int }) + (if app.emit_bitcode {
        1int
    } else {
        0int
    })
}

/// The flags of a run: what stands between the width or policy choice and
/// the paths.
pub open spec fn flags_of(app: App) -> Seq<Seq<char>> {
    app.arguments().subrange(2, app.arguments().len() - 3)
}

/// Each toggle adds its own flag and no other: `--report` is passed exactly
/// when the report toggle is on, `--no-verify` exactly when verification is
/// off, `--emit-bitcode` exactly when bitcode is asked for, each at most
/// once, in that order, and nothing else stands among the flags.
pub proof fn law_flags_follow_the_toggles(app: App)
    ensures
        app.arguments().len() == 5 + flag_count(app),
        flags_of(app).len() == flag_count(app),
        flags_of(app).contains("--report"@) == app.report,
        flags_of(app).contains("--no-verify"@) == !app.verify,
        flags_of(app).contains("--emit-bitcode"@) == app.emit_bitcode,
        forall|i: int|
            0 <= i < flags_of(app).len() ==> {
                let flag = #[trigger] flags_of(app)[i];
                flag == "--report"@ || flag == "--no-verify"@ || flag == "--emit-bitcode"@
            },
        app.report ==> flags_of(app)[0] == "--report"@,
        app.emit_bitcode ==> flags_of(app).last() == "--emit-bitcode"@,
{
    reveal_strlit("--report");
    reveal_strlit("--no-verify");
    reveal_strlit("--emit-bitcode");
    let report = if app.report { seq!["--report"@] } else { Seq::<Seq<char>>::empty() };
    let verify = if !app.verify { seq!["--no-verify"@] } else { Seq::<Seq<char>>::empty() };
    let bitcode = if app.emit_bitcode { seq!["--emit-bitcode"@] } else { Seq::<Seq<char>>::empty() };
    assert(flags_of(app) =~= report + verify + bitcode);
    let flags = report + verify + bitcode;
    assert(flags.contains("--report"@) == app.report) by {
        if app.report {
            assert(flags[0] == "--report"@);
        }
        if flags.contains("--report"@) {
            let i = choose|i: int| 0 <= i < flags.len() && flags[i] == "--report"@;
            assert(flags[i].len() == "--report"@.len());
        }
    }
    assert(flags.contains("--no-verify"@) == !app.verify) by {
        if !app.verify {
            assert(flags[report.len() as int] == "--no-verify"@);
        }
        if flags.contains("--no-verify"@) {
            let i = choose|i: int| 0 <= i < flags.len() && flags[i] == "--no-verify"@;
            assert(flags[i].len() == "--no-verify"@.len());
        }
    }
    assert(flags.contains("--emit-bitcode"@) == app.emit_bitcode) by {
        if app.emit_bitcode {
            assert(flags[flags.len() - 1] == "--emit-bitcode"@);
        }
        if flags.contains("--emit-bitcode"@) {
            let i = choose|i: int| 0 <= i < flags.len() && flags[i] == "--emit-bitcode"@;
            assert(flags[i].len() == "--emit-bitcode"@.len());
        }
    }
}

/// `text` ends with `tail`.
pub open spec fn ends_with(text: Seq<char>, tail: Seq<char>) -> bool {
    tail.len() <= text.len() && text.subrange(text.len() - tail.len(), text.len() as int) == tail
}

/// `text` starts with `head`.
pub open spec fn starts_with(text: Seq<char>, head: Seq<char>) -> bool {
    head.len() <= text.len() && text.subrange(0, head.len() as int) == head
}

/// What a finished run printed is kept under it, whether or not it
/// succeeded: the detail opens with the status line, the trimmed standard
/// error follows on a line of its own when there is any, and the trimmed
/// standard output comes last, under a `stdout:` heading, when there is any.
pub proof fn law_detail_keeps_what_the_run_printed(result: WorkerResult)
    ensures
        ({
            let detail = outcome_detail(result);
            let errors = trimmed(result.stderr@);
            let output = trimmed(result.stdout@);
            let tail = "\n\nstdout:\n"@ + output;
            &&& output.len() > 0 ==> ends_with(detail, tail)
            &&& errors.len() > 0 && output.len() == 0 ==> ends_with(detail, seq!['\n'] + errors)
            &&& errors.len() > 0 && output.len() > 0 ==> ends_with(
                detail.subrange(0, detail.len() - tail.len()),
                seq!['\n'] + errors,
            )
            &&& result.success ==> starts_with(detail, "wrote output successfully."@)
            &&& !result.success ==> starts_with(
                detail,
                "rv-vectorize exited with status "@ + (match result.code {
                    Some(code) => decimal(code as int),
                    None => "signal"@,
                }) + "."@,
            )
            &&& result.success && errors.len() == 0 && output.len() == 0 ==> detail
                == "wrote output successfully."@
        }),
{
    let detail = outcome_detail(result);
    let errors = trimmed(result.stderr@);
    let output = trimmed(result.stdout@);
    let tail = "\n\nstdout:\n"@ + output;
    let head = if result.success {
        "wrote output successfully."@
    } else {
        "rv-vectorize exited with status "@ + (match result.code {
            Some(code) => decimal(code as int),
            None => "signal"@,
        }) + "."@
    };
    let middle = if errors.len() > 0 { seq!['\n'] + errors } else { Seq::empty() };
    let end = if output.len() > 0 { tail } else { Seq::empty() };
    assert(detail == head + middle + end);
    if output.len() > 0 {
        assert(detail.subrange(detail.len() - tail.len(), detail.len() as int) =~= tail);
        assert(detail.subrange(0, detail.len() - tail.len()) =~= head + middle);
    } else {
        assert(detail =~= head + middle);
    }
    if errors.len() > 0 {
        assert((head + middle).subrange(
            (head + middle).len() - middle.len(),
            (head + middle).len() as int,
        ) =~= middle);
    }
    assert(detail.subrange(0, head.len() as int) =~= head);
}

/// The keys that edit a path field or move its caret.
pub open spec fn edits_path(code: Key) -> bool {
    match code {
        Key::Char(_) | Key::Backspace | Key::Delete | Key::Left | Key::Right | Key::Home
        | Key::End => true,
        _ => false,
    }
}

/// On the form, with a path field focused, the editing keys act on that
/// field alone. Delete erases the character after the caret and leaves the
/// caret where it is; Backspace erases the one before it and moves the caret
/// back over it; a typed character goes in at the caret, which moves past
/// it; the arrows move the caret by one character, stopping at the ends, and
/// Home and End move it to the ends.
pub proof fn law_path_field_keys(old: App, new: App, key: KeyInput, action: KeyAction)
    requires
        applied(old, new, command_spec(old.view, old.focused, key), action),
        old.accepts_keys(),
        old.view == ViewMode::Config,
        old.focused <= 1,
        key.press,
        !key.control,
        !key.alt,
    ensures
        ({
            let before = old.focused_field()@;
            let after = new.focused_field()@;
            let (text, caret) = (before.text, before.caret);
            &&& key.code == Key::Delete ==> after.caret == caret && after.text == (if caret
                < text.len() {
                text.take(caret) + text.skip(caret + 1)
            } else {
                text
            })
            &&& key.code == Key::Backspace ==> if caret > 0 {
                after.caret == caret - 1 && after.text == text.take(caret - 1) + text.skip(caret)
            } else {
                after == before
            }
            &&& (key.code matches Key::Char(c) ==> after.caret == caret + 1 && after.text
                == text.take(caret).push(c) + text.skip(caret))
            &&& key.code == Key::Left ==> after.text == text && after.caret == (if caret > 0 {
                caret - 1
            } else {
                0
            })
            &&& key.code == Key::Right ==> after.text == text && after.caret == (if caret
                < text.len() {
                caret + 1
            } else {
                caret
            })
            &&& key.code == Key::Home ==> after.text == text && after.caret == 0
            &&& key.code == Key::End ==> after.text == text && after.caret == text.len()
        }),
        edits_path(key.code) ==> {
            &&& action == KeyAction::Nothing
            &&& new.focused_field().wf()
            &&& (App { input: old.input, output: old.output, ..new }) == old
            &&& old.focused == 0 ==> new.output == old.output
            &&& old.focused == 1 ==> new.input == old.input
        },
{
    let before = old.focused_field()@;
    crate::text_field::law_field_model_valid(old.focused_field());
    let text = before.text;
    let caret = before.caret;
    if key.code == Key::Delete && caret < text.len() {
        assert(text.remove(caret) =~= text.take(caret) + text.skip(caret + 1));
    }
    if key.code == Key::Backspace && caret > 0 {
        assert(text.remove(caret - 1) =~= text.take(caret - 1) + text.skip(caret));
    }
    if let Key::Char(c) = key.code {
        assert(text.insert(caret, c) =~= text.take(caret).push(c) + text.skip(caret));
    }
}

/// On the form, without modifiers: Tab and Down move the focus to the next
/// control and BackTab and Up to the previous one, wrapping around; Esc
/// quits; on a selector the arrows step its choice; on a toggle Space and
/// Enter flip that toggle's flag; on the Run button they ask for a run,
/// which starts exactly when none is in flight and both paths are filled
/// in; Enter on the diff button opens the diff once there is one. Away from
/// the path fields, Home and End jump the session pane to its ends, the
/// editing keys do nothing, and Page Up and Page Down scroll the pane by
/// five rows.
pub proof fn law_form_control_keys(old: App, new: App, key: KeyInput, action: KeyAction)
    requires
        applied(old, new, command_spec(old.view, old.focused, key), action),
        old.view == ViewMode::Config,
        old.focused < FIELD_COUNT,
        key.press,
        !key.control,
        !key.alt,
    ensures
        key.code == Key::Tab || key.code == Key::Down ==> new == (App {
            focused: ((old.focused + 1) % 9) as usize,
            ..old
        }),
        key.code == Key::BackTab || key.code == Key::Up ==> new == (App {
            focused: ((old.focused + 8) % 9) as usize,
            ..old
        }),
        key.code == Key::Esc ==> new == (App { quit: true, ..old }),
        old.focused == 2 && key.code == Key::Right ==> new == (App {
            policy: ((old.policy + 1) % 3) as usize,
            ..old
        }),
        old.focused == 2 && key.code == Key::Left ==> new == (App {
            policy: ((old.policy + 2) % 3) as usize,
            ..old
        }),
        old.focused == 3 && key.code == Key::Right ==> new == (App {
            vector_width: ((old.vector_width + 1) % 5) as usize,
            ..old
        }),
        old.focused == 3 && key.code == Key::Left ==> new == (App {
            vector_width: ((old.vector_width + 4) % 5) as usize,
            ..old
        }),
        4 <= old.focused <= 6 && (key.code == Key::Enter || key.code == Key::Char(' ')) ==> {
            &&& new.report == (old.report != (old.focused == 4))
            &&& new.verify == (old.verify != (old.focused == 5))
            &&& new.emit_bitcode == (old.emit_bitcode != (old.focused == 6))
            &&& (App {
                report: old.report,
                verify: old.verify,
                emit_bitcode: old.emit_bitcode,
                ..new
            }) == old
        },
        old.focused == 7 && (key.code == Key::Enter || key.code == Key::Char(' ')) ==> {
            &&& (action == KeyAction::StartRun) == (!old.running && trimmed(old.input.value@).len()
                > 0 && trimmed(old.output.value@).len() > 0)
            &&& action == KeyAction::StartRun ==> new == old
        },
        old.focused == 8 && key.code == Key::Enter ==> new == (App {
            view: if old.diff_labels is Some {
                ViewMode::Diff
            } else {
                ViewMode::Config
            },
            ..old
        }),
        old.focused >= 2 && (key.code == Key::Backspace || key.code == Key::Delete) ==> new
            == old,
        old.focused >= 2 && (key.code matches Key::Char(c) && !(c == ' ' && 4 <= old.focused
            <= 7)) ==> new == old,
        old.focused >= 2 && key.code == Key::Home ==> new.offset() == 0 && (App {
            transcript_scroll: old.transcript_scroll,
            transcript_follow: old.transcript_follow,
            ..new
        }) == old,
        old.focused >= 2 && key.code == Key::End ==> new.offset() == old.max_scroll()
            && new.transcript_follow && (App {
            transcript_scroll: old.transcript_scroll,
            transcript_follow: old.transcript_follow,
            ..new
        }) == old,
        key.code == Key::PageUp || key.code == Key::PageDown ==> {
            &&& new.offset() == clamp(
                old.offset() + (if key.code == Key::PageUp {
                    -5int
                } else {
                    5int
                }),
                0,
                old.max_scroll(),
            )
            &&& (App {
                transcript_scroll: old.transcript_scroll,
                transcript_follow: old.transcript_follow,
                ..new
            }) == old
        },
        !(old.focused == 7 && (key.code == Key::Enter || key.code == Key::Char(' '))) ==> action
            == KeyAction::Nothing,
{
}

/// On the diff screen, without Control: Esc and `q` go back to the form;
/// the arrows scroll the diff by one row and Page Up and Page Down by ten,
/// stopping at the top and at the largest offset; every other key is
/// ignored.
pub proof fn law_diff_screen_keys(old: App, new: App, key: KeyInput, action: KeyAction)
    requires
        applied(old, new, command_spec(old.view, old.focused, key), action),
        old.view == ViewMode::Diff,
        key.press,
        !key.control,
    ensures
        action == KeyAction::Nothing,
        key.code == Key::Esc || key.code == Key::Char('q') ==> new == (App {
            view: ViewMode::Config,
            ..old
        }),
        key.code == Key::Up || key.code == Key::PageUp ==> {
            let rows: int = if key.code == Key::Up {
                1
            } else {
                10
            };
            &&& new.diff_scroll == (if old.diff_scroll >= rows {
                old.diff_scroll - rows
            } else {
                0
            })
            &&& new == (App { diff_scroll: new.diff_scroll, ..old })
        },
        key.code == Key::Down || key.code == Key::PageDown ==> {
            let rows: int = if key.code == Key::Down {
                1
            } else {
                10
            };
            &&& new.diff_scroll == (if old.diff_scroll + rows <= 65535 {
                old.diff_scroll + rows
            } else {
                65535
            })
            &&& new == (App { diff_scroll: new.diff_scroll, ..old })
        },
        !(key.code == Key::Esc || key.code == Key::Char('q') || key.code == Key::Up || key.code
            == Key::PageUp || key.code == Key::Down || key.code == Key::PageDown) ==> new == old,
{
}

/// Control-C quits and Control-D switches between the form and the diff
/// screen, once there is a diff, wherever the user is; Control-R asks for a
/// run from anywhere, and it starts exactly when none is in flight and both
/// paths are filled in. Anything but a press is ignored.
pub proof fn law_keys_that_work_everywhere(old: App, new: App, key: KeyInput, action: KeyAction)
    requires
        applied(old, new, command_spec(old.view, old.focused, key), action),
    ensures
        !key.press ==> new == old && action == KeyAction::Nothing,
        key.press && key.control && key.code == Key::Char('c') ==> new == (App {
            quit: true,
            ..old
        }) && action == KeyAction::Nothing,
        key.press && key.control && key.code == Key::Char('d') ==> action == KeyAction::Nothing
            && new == (App {
            view: if old.diff_labels is None {
                old.view
            } else if old.view == ViewMode::Config {
                ViewMode::Diff
            } else {
                ViewMode::Config
            },
            ..old
        }),
        key.press && key.control && key.code == Key::Char('r') ==> {
            &&& (action == KeyAction::StartRun) == (!old.running && trimmed(old.input.value@).len()
                > 0 && trimmed(old.output.value@).len() > 0)
            &&& action == KeyAction::StartRun ==> new == old
            &&& old.running ==> new == old
        },
{
}

/// Each line of a diff pane shows the number, text and kind of its side of
/// the row: the number right-aligned in a gutter at least four columns wide
/// (blank without a number), then the change marker between two spaces,
/// which is `-` exactly for a removed line and `+` exactly for an added one.
pub proof fn law_pane_lines_show_their_side(row: DiffRow, side: Side)
    ensures
        ({
            let (prefix, text, kind) = pane_line_spec(row, side);
            let (number, own_text, own_kind) = match side {
                Side::Left => (row.left_no, row.left_text@, row.left_kind),
                Side::Right => (row.right_no, row.right_text@, row.right_kind),
            };
            let gutter_text = prefix.subrange(0, prefix.len() - 3);
            let mark = prefix[prefix.len() - 2];
            &&& text == own_text
            &&& kind == own_kind
            &&& prefix.len() >= GUTTER_WIDTH + 3
            &&& prefix[prefix.len() - 3] == ' '
            &&& prefix[prefix.len() - 1] == ' '
            &&& (mark == '-') == (kind == RowKind::Removed)
            &&& (mark == '+') == (kind == RowKind::Added)
            &&& (mark == ' ') == (kind == RowKind::Context || kind == RowKind::Empty)
            &&& (number matches Some(n) ==> ends_with(gutter_text, decimal_digits(n as nat)) && forall|
                i: int,
            |
                0 <= i < gutter_text.len() - decimal_digits(n as nat).len() ==> #[trigger] gutter_text[i]
                    == ' ')
            &&& (number is None ==> gutter_text.len() == GUTTER_WIDTH && forall|i: int|
                0 <= i < gutter_text.len() ==> #[trigger] gutter_text[i] == ' ')
        }),
{
    let (prefix, text, kind) = pane_line_spec(row, side);
    let (number, own_text, own_kind) = match side {
        Side::Left => (row.left_no, row.left_text@, row.left_kind),
        Side::Right => (row.right_no, row.right_text@, row.right_kind),
    };
    let g = gutter(number);
    assert(prefix == g + seq![' ', marker(kind), ' ']);
    assert(prefix.subrange(0, prefix.len() - 3) =~= g);
    assert(prefix[prefix.len() - 2] == marker(kind));
    match number {
        Some(n) => {
            let digits = decimal_digits(n as nat);
            if digits.len() < GUTTER_WIDTH {
                let pad = Seq::new((GUTTER_WIDTH - digits.len()) as nat, |i: int| ' ');
                assert(g == pad + digits);
                assert(g.subrange(g.len() - digits.len(), g.len() as int) =~= digits);
                assert forall|i: int| 0 <= i < g.len() - digits.len() implies #[trigger] g[i] == ' ' by {
                    assert(g[i] == pad[i]);
                }
            } else {
                assert(g == digits);
                assert(g.subrange(0, g.len() as int) =~= digits);
            }
        },
        None => {},
    }
}

/// Scrolling the session pane by `delta` rows moves the drawn offset by
/// `delta`, stopping at the top and at the largest offset, and changes
/// nothing but where the pane stands.
pub proof fn law_scroll_moves_by_delta(app: App, delta: int)
    ensures
        ({
            let target = app.offset() + delta;
            let after = app.scrolled_by(delta);
            &&& after.offset() == (if target < 0 {
                0
            } else if target > app.max_scroll() {
                app.max_scroll()
            } else {
                target
            })
            &&& after.max_scroll() == app.max_scroll()
            &&& (App {
                transcript_scroll: app.transcript_scroll,
                transcript_follow: app.transcript_follow,
                ..after
            }) == app
        }),
{
}

/// An entry of the session transcript opens with its command line, when it
/// has one, then its status; each line of its detail follows, in order and
/// indented by two spaces; a blank line closes it.
pub proof fn law_entry_lines(entry: HistoryEntry)
    ensures
        ({
            let lines = entry_lines_spec(entry);
            let details = lines_of(entry.detail@);
            let first: int = if entry.command@.len() > 0 {
                1
            } else {
                0
            };
            &&& lines.len() == first + details.len() + 2
            &&& entry.command@.len() > 0 ==> lines[0] == LineModel::Command(entry.command@)
            &&& lines[first] == LineModel::Status(entry.status)
            &&& forall|i: int|
                0 <= i < details.len() ==> #[trigger] lines[first + 1 + i] == LineModel::Detail(
                    seq![' ', ' '] + details[i],
                )
            &&& lines.last() == LineModel::Blank
        }),
{
    let lines = entry_lines_spec(entry);
    let details = lines_of(entry.detail@);
    let head: Seq<LineModel> = if entry.command@.len() > 0 {
        seq![LineModel::Command(entry.command@)]
    } else {
        Seq::empty()
    };
    let body = details.map_values(|l: Seq<char>| LineModel::Detail(seq![' ', ' '] + l));
    assert(lines == head + seq![LineModel::Status(entry.status)] + body + seq![LineModel::Blank]);
    let first = head.len() as int;
    assert forall|i: int| 0 <= i < details.len() implies #[trigger] lines[first + 1 + i]
        == LineModel::Detail(seq![' ', ' '] + details[i]) by {
        assert(lines[first + 1 + i] == body[i]);
    }
}

/// On the form, Control with the up and down arrows scrolls the session
/// pane by one row instead of moving the focus, and a character typed with
/// Control or Alt is never inserted into a path field.
pub proof fn law_modified_keys_on_the_form(old: App, new: App, key: KeyInput, action: KeyAction)
    requires
        applied(old, new, command_spec(old.view, old.focused, key), action),
        old.view == ViewMode::Config,
        key.press,
    ensures
        key.control && (key.code == Key::Up || key.code == Key::Down) ==> {
            &&& new.offset() == clamp(
                old.offset() + (if key.code == Key::Up {
                    -1int
                } else {
                    1int
                }),
                0,
                old.max_scroll(),
            )
            &&& (App {
                transcript_scroll: old.transcript_scroll,
                transcript_follow: old.transcript_follow,
                ..new
            }) == old
            &&& action == KeyAction::Nothing
        },
        old.focused <= 1 && (key.control || key.alt) && (key.code matches Key::Char(c) && !(
        key.control && (c == 'c' || c == 'd' || c == 'r'))) ==> new == old && action
            == KeyAction::Nothing,
{
}

/// The mouse wheel scrolls the diff by three rows on the diff screen,
/// stopping at the top and at the largest offset, and the session pane by
/// three rows on the form; nothing else changes.
pub proof fn law_wheel_scrolls_three_rows(app: App, wheel: MouseWheel)
    ensures
        app.view == ViewMode::Diff && wheel == MouseWheel::ScrollUp ==> mouse_effect(app, wheel)
            == (App {
            diff_scroll: (if app.diff_scroll >= 3 {
                app.diff_scroll - 3
            } else {
                0
            }) as u16,
            ..app
        }),
        app.view == ViewMode::Diff && wheel == MouseWheel::ScrollDown ==> mouse_effect(app, wheel)
            == (App {
            diff_scroll: (if app.diff_scroll + 3 <= 65535 {
                app.diff_scroll + 3
            } else {
                65535
            }) as u16,
            ..app
        }),
        app.view == ViewMode::Config && wheel != MouseWheel::Other ==> {
            let after = mouse_effect(app, wheel);
            &&& after.offset() == clamp(
                app.offset() + (if wheel == MouseWheel::ScrollUp {
                    -3int
                } else {
                    3int
                }),
                0,
                app.max_scroll(),
            )
            &&& (App {
                transcript_scroll: app.transcript_scroll,
                transcript_follow: app.transcript_follow,
                ..after
            }) == app
        },
        mouse_effect(app, MouseWheel::Other) == app,
{
}

/// Different choices of a selector pass different names: the policies are
/// `balanced`, `conservative` and `aggressive`, and the widths the
/// automatic choice, then 2, 4, 8 and 16 lanes.
pub proof fn law_choice_names(i: int, j: int)
    ensures
        0 <= i < POLICY_COUNT && 0 <= j < POLICY_COUNT && i != j ==> policy_name_spec(i)
            != policy_name_spec(j),
        0 <= i < VECTOR_WIDTH_COUNT && 0 <= j < VECTOR_WIDTH_COUNT && i != j
            ==> vector_width_name_spec(i) != vector_width_name_spec(j),
        policy_name_spec(0) == "balanced"@,
        policy_name_spec(1) == "conservative"@,
        policy_name_spec(2) == "aggressive"@,
        vector_width_name_spec(0) == "auto"@,
        vector_width_name_spec(1) == "2"@,
        vector_width_name_spec(2) == "4"@,
        vector_width_name_spec(3) == "8"@,
        vector_width_name_spec(4) == "16"@,
{
    reveal_strlit("balanced");
    reveal_strlit("conservative");
    reveal_strlit("aggressive");
    reveal_strlit("auto");
    reveal_strlit("2");
    reveal_strlit("4");
    reveal_strlit("8");
    reveal_strlit("16");
    assert("balanced"@.len() == 8 && "conservative"@.len() == 12 && "aggressive"@.len() == 10);
    assert("auto"@.len() == 4 && "16"@.len() == 2);
    assert("2"@.len() == 1 && "4"@.len() == 1 && "8"@.len() == 1);
    assert("2"@ != "4"@ && "2"@ != "8"@ && "4"@ != "8"@) by {
        assert("2"@[0] != "4"@[0]);
        assert("2"@[0] != "8"@[0]);
        assert("4"@[0] != "8"@[0]);
    }
}

} // verus!
