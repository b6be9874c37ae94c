//! What the panes show, as text: the transcript lines, the geometry that the
//! last render measured, where the caret is drawn, and the rows of each side
//! of the diff. Colours and drawing are left to the caller.

use vstd::prelude::*;

use crate::app::{App, EntryStatus, HistoryEntry, ViewMode};
use crate::diff::{DiffRow, RowKind};
use crate::text::{decimal_digits, lines_of, split_lines, string_push, views};

verus! {

/// Width of the labels in front of the path fields.
pub const LABEL_WIDTH: u16 = 12;

/// Width of the line-number gutter of the diff panes.
pub const GUTTER_WIDTH: usize = 4;

/// One line of the session transcript, before styling.
#[derive(Clone, Debug)]
pub enum TranscriptLine {
    /// Shown while there is no entry yet.
    Placeholder,
    /// The command line an entry ran.
    Command(String),
    /// The outcome of an entry.
    Status(EntryStatus),
    /// A line of an entry's captured output, already indented.
    Detail(String),
    /// The blank line after each entry.
    Blank,
}

/// A transcript line as a reader sees it.
pub enum LineModel {
    Placeholder,
    Command(Seq<char>),
    Status(EntryStatus),
    Detail(Seq<char>),
    Blank,
}

impl View for TranscriptLine {
    type V = LineModel;

    open spec fn view(&self) -> LineModel {
        match self {
            TranscriptLine::Placeholder => LineModel::Placeholder,
            TranscriptLine::Command(c) => LineModel::Command(c@),
            TranscriptLine::Status(s) => LineModel::Status(*s),
            TranscriptLine::Detail(d) => LineModel::Detail(d@),
            TranscriptLine::Blank => LineModel::Blank,
        }
    }
}

/// The models of `lines`.
pub open spec fn line_models(lines: Seq<TranscriptLine>) -> Seq<LineModel> {
    lines.map_values(|l: TranscriptLine| l@)
}

/// The transcript lines of one entry: its command if it has one, its status,
/// each line of its detail indented by two spaces, and a blank line.
pub open spec fn entry_lines_spec(entry: HistoryEntry) -> Seq<LineModel> {
    (if entry.command@.len() > 0 {
        seq![LineModel::Command(entry.command@)]
    } else {
        Seq::empty()
    }) + seq![LineModel::Status(entry.status)] + lines_of(entry.detail@).map_values(
        |l: Seq<char>| LineModel::Detail(seq![' ', ' '] + l),
    ) + seq![LineModel::Blank]
}

/// The transcript lines of all of `entries`, oldest first.
pub open spec fn entries_lines(entries: Seq<HistoryEntry>) -> Seq<LineModel>
    decreases entries.len(),
{
    if entries.len() == 0 {
        Seq::empty()
    } else {
        entries_lines(entries.drop_last()) + entry_lines_spec(entries.last())
    }
}

/// What colour the transcript border takes.
#[derive(Clone, Copy, Debug, PartialEq, Eq, Structural)]
pub enum PaneTone {
    Pending,
    Success,
    Failure,
    Idle,
}

/// Which side of the diff a pane shows.
#[derive(Clone, Copy, Debug, PartialEq, Eq, Structural)]
pub enum Side {
    Left,
    Right,
}

/// One line of a diff pane: the line-number gutter and the change marker,
/// then the text, coloured by its kind.
#[derive(Clone, Debug)]
pub struct PaneLine {
    pub prefix: String,
    pub text: String,
    pub kind: RowKind,
}

/// `s` padded on the left with spaces to `width` characters.
pub open spec fn pad_left(s: Seq<char>, width: nat) -> Seq<char> {
    if s.len() >= width {
        s
    } else {
        Seq::new((width - s.len()) as nat, |i: int| ' ') + s
    }
}

/// The gutter of a diff line: its number right-aligned, or blank.
pub open spec fn gutter(number: Option<usize>) -> Seq<char> {
    match number {
        Some(n) => pad_left(decimal_digits(n as nat), GUTTER_WIDTH as nat),
        None => pad_left(Seq::empty(), GUTTER_WIDTH as nat),
    }
}

/// The change marker of a diff line.
pub open spec fn marker(kind: RowKind) -> char {
    match kind {
        RowKind::Removed => '-',
        RowKind::Added => '+',
        _ => ' ',
    }
}

/// The line of `row` on `side`.
pub open spec fn pane_line_spec(row: DiffRow, side: Side) -> (Seq<char>, Seq<char>, RowKind) {
    let (number, text, kind) = match side {
        Side::Left => (row.left_no, row.left_text@, row.left_kind),
        Side::Right => (row.right_no, row.right_text@, row.right_kind),
    };
    (gutter(number) + seq![' ', marker(kind), ' '], text, kind)
}

fn entry_lines(entry: &HistoryEntry, lines: &mut Vec<TranscriptLine>)
    ensures
        line_models(final(lines)@) == line_models(old(lines)@) + entry_lines_spec(*entry),
{
    let ghost start = line_models(lines@);
    if entry.command.as_str().unicode_len() > 0 {
        lines.push(TranscriptLine::Command(entry.command.clone()));
    }
    lines.push(TranscriptLine::Status(entry.status));
    let ghost head = line_models(lines@);
    proof {
        assert(head =~= start + (if entry.command@.len() > 0 {
            seq![LineModel::Command(entry.command@)]
        } else {
            Seq::empty()
        }) + seq![LineModel::Status(entry.status)]);
    }
    let detail = split_lines(entry.detail.as_str());
    let ghost details = lines_of(entry.detail@).map_values(
        |l: Seq<char>| LineModel::Detail(seq![' ', ' '] + l),
    );
    let mut i: usize = 0;
    while i < detail.len()
        invariant
            i <= detail.len(),
            views(detail@) == lines_of(entry.detail@),
            details == lines_of(entry.detail@).map_values(
                |l: Seq<char>| LineModel::Detail(seq![' ', ' '] + l),
            ),
            line_models(lines@) == head + details.take(i as int),
        decreases detail.len() - i,
    {
        let mut text = String::new();
        string_push(&mut text, ' ');
        string_push(&mut text, ' ');
        text.append(detail[i].as_str());
        assert(text@ =~= seq![' ', ' '] + detail@[i as int]@);
        let ghost before = lines@;
        lines.push(TranscriptLine::Detail(text));
        proof {
            assert(views(detail@)[i as int] == detail@[i as int]@);
            assert(line_models(lines@) =~= line_models(before).push(
                LineModel::Detail(seq![' ', ' '] + detail@[i as int]@),
            ));
            assert(details.take(i + 1) =~= details.take(i as int).push(details[i as int]));
        }
        i = i + 1;
    }
    let ghost before = lines@;
    lines.push(TranscriptLine::Blank);
    proof {
        assert(details.take(detail.len() as int) =~= details);
        assert(line_models(lines@) =~= line_models(before).push(LineModel::Blank));
        assert(line_models(lines@) =~= start + entry_lines_spec(*entry));
    }
}

fn unsigned_decimal(n: usize) -> (s: String)
    ensures
        s@ == decimal_digits(n as nat),
{
    let mut s = String::new();
    crate::text::push_decimal_digits(&mut s, n as u64);
    s
}

impl App {
    /// The lines of the session transcript: a placeholder while nothing has
    /// run, else the lines of every entry, oldest first.
    pub fn transcript_lines(&self) -> (lines: Vec<TranscriptLine>)
        ensures
            line_models(lines@) == (if self.history@.len() == 0 {
                seq![LineModel::Placeholder]
            } else {
                entries_lines(self.history@)
            }),
    {
        let mut lines: Vec<TranscriptLine> = Vec::new();
        if self.history.len() == 0 {
            lines.push(TranscriptLine::Placeholder);
            proof {
                assert(line_models(lines@) =~= seq![LineModel::Placeholder]);
            }
            return lines;
        }
        let mut i: usize = 0;
        proof {
            assert(self.history@.take(0) =~= Seq::<HistoryEntry>::empty());
            assert(line_models(lines@) =~= Seq::<LineModel>::empty());
        }
        while i < self.history.len()
            invariant
                i <= self.history.len(),
                line_models(lines@) == entries_lines(self.history@.take(i as int)),
            decreases self.history.len() - i,
        {
            entry_lines(&self.history[i], &mut lines);
            proof {
                assert(self.history@.take(i + 1).drop_last() =~= self.history@.take(i as int));
            }
            i = i + 1;
        }
        proof {
            assert(self.history@.take(self.history.len() as int) =~= self.history@);
        }
        lines
    }

    /// Records what the last render measured: `rows` wrapped transcript rows
    /// (counted up to `u16::MAX`) in a pane `pane_height` rows high, whose
    /// border takes two of them.
    pub fn record_geometry(&mut self, rows: usize, pane_height: u16)
        ensures
            *final(self) == (App {
                transcript_content: if rows > u16::MAX as usize {
                    u16::MAX
                } else {
                    rows as u16
                },
                transcript_viewport: if pane_height >= 2 {
                    (pane_height - 2) as u16
                } else {
                    0
                },
                ..*old(self)
            }),
    {
        self.transcript_content = if rows > u16::MAX as usize {
            u16::MAX
        } else {
            rows as u16
        };
        self.transcript_viewport = pane_height.saturating_sub(2);
    }

    /// The transcript overflows its pane, so that a scrollbar is drawn.
    pub fn transcript_overflows(&self) -> (overflows: bool)
        ensures
            overflows == (self.transcript_content > self.transcript_viewport),
    {
        self.transcript_content > self.transcript_viewport
    }

    /// The title of the transcript pane, which says when the reader has
    /// scrolled away from the newest output.
    pub fn transcript_title(&self) -> (title: &'static str)
        ensures
            title@ == (if self.transcript_content > self.transcript_viewport
                && !self.transcript_follow {
                " Session (scrolled) "@
            } else {
                " Session "@
            }),
    {
        if self.transcript_content > self.transcript_viewport && !self.transcript_follow {
            " Session (scrolled) "
        } else {
            " Session "
        }
    }

    /// The tone of the transcript border: pending while a run is in flight,
    /// else that of the newest entry, idle when there is none.
    pub fn transcript_tone(&self) -> (tone: PaneTone)
        ensures
            tone == (if self.running {
                PaneTone::Pending
            } else if self.history@.len() == 0 {
                PaneTone::Idle
            } else {
                match self.history@.last().status {
                    EntryStatus::Running => PaneTone::Pending,
                    EntryStatus::Success => PaneTone::Success,
                    EntryStatus::Failed => PaneTone::Failure,
                }
            }),
    {
        if self.running {
            return PaneTone::Pending;
        }
        let n = self.history.len();
        if n == 0 {
            return PaneTone::Idle;
        }
        match self.history[n - 1].status {
            EntryStatus::Running => PaneTone::Pending,
            EntryStatus::Success => PaneTone::Success,
            EntryStatus::Failed => PaneTone::Failure,
        }
    }

    /// Where the caret of the focused path field is drawn, given the area of
    /// the form's fields (from `x`, `y` up to `right`, `bottom`, exclusive);
    /// nothing when no path field has the focus or the caret falls outside.
    pub fn cursor_position(&self, x: u16, y: u16, right: u16, bottom: u16) -> (position: Option<
        (u16, u16),
    >)
        requires
            self.focused <= 1 ==> self.input.wf() && self.output.wf(),
        ensures
            self.focused > 1 ==> position is None,
            self.focused <= 1 ==> {
                let column = if self.focus_caret() > u16::MAX {
                    u16::MAX as int
                } else {
                    self.focus_caret()
                };
                let cx = saturating_sum(saturating_sum(x as int, LABEL_WIDTH as int), column);
                let cy = saturating_sum(y as int, self.focused as int);
                position == (if cx < right && cy < bottom {
                    Some((cx as u16, cy as u16))
                } else {
                    None
                })
            },
    {
        let field = if self.focused == 0 {
            &self.input
        } else if self.focused == 1 {
            &self.output
        } else {
            return None;
        };
        let row = self.focused as u16;
        let count = field.cursor_column();
        let column: u16 = if count > u16::MAX as usize {
            u16::MAX
        } else {
            count as u16
        };
        let cx = x.saturating_add(LABEL_WIDTH).saturating_add(column);
        let cy = y.saturating_add(row);
        if cx < right && cy < bottom {
            Some((cx, cy))
        } else {
            None
        }
    }

    /// The label of the diff button, which names the screen it leads to.
    pub fn diff_button_label(&self) -> (label: &'static str)
        ensures
            label@ == (if self.view == ViewMode::Diff {
                "Hide diff"@
            } else {
                "View diff"@
            }),
    {
        if self.view == ViewMode::Diff {
            "Hide diff"
        } else {
            "View diff"
        }
    }

    /// The key hints of the footer, as (keys, what they do): those of the
    /// diff screen, or those of the form, where the diff key shows only once
    /// there is a diff.
    pub fn footer_hints(&self) -> (hints: Vec<(&'static str, &'static str)>)
        ensures
            hint_views(hints@) == footer_hints_spec(*self),
    {
        let mut hints: Vec<(&'static str, &'static str)> = Vec::new();
        if self.view == ViewMode::Diff {
            hints.push(("↑↓/pgup/pgdn", " scroll  "));
            hints.push(("d/esc", " back  "));
            hints.push(("ctrl-c", " quit "));
        } else {
            hints.push(("tab/↑↓", " next  "));
            hints.push(("←→", " change  "));
            hints.push(("enter/space", " select  "));
            hints.push(("ctrl-r", " run  "));
            hints.push(("wheel/pgup/pgdn", " scroll  "));
            if self.diff_labels.is_some() {
                hints.push(("ctrl-d", " diff  "));
            }
            hints.push(("esc", " quit "));
        }
        proof {
            assert(hint_views(hints@) =~= footer_hints_spec(*self));
        }
        hints
    }

    /// Index of the character before which the focused field's caret stands.
    pub open spec fn focus_caret(&self) -> int {
        if self.focused == 0 {
            self.input.caret()
        } else {
            self.output.caret()
        }
    }
}

/// The characters of each hint.
pub open spec fn hint_views(hints: Seq<(&'static str, &'static str)>) -> Seq<(Seq<char>, Seq<char>)> {
    hints.map_values(|h: (&'static str, &'static str)| (h.0@, h.1@))
}

/// The footer's key hints in `app`.
pub open spec fn footer_hints_spec(app: App) -> Seq<(Seq<char>, Seq<char>)> {
    if app.view == ViewMode::Diff {
        seq![("↑↓/pgup/pgdn"@, " scroll  "@), ("d/esc"@, " back  "@), ("ctrl-c"@, " quit "@)]
    } else {
        seq![
            ("tab/↑↓"@, " next  "@),
            ("←→"@, " change  "@),
            ("enter/space"@, " select  "@),
            ("ctrl-r"@, " run  "@),
            ("wheel/pgup/pgdn"@, " scroll  "@),
        ] + (if app.diff_labels is Some {
            seq![("ctrl-d"@, " diff  "@)]
        } else {
            Seq::empty()
        }) + seq![("esc"@, " quit "@)]
    }
}

/// `a + b`, stopping at `u16::MAX`.
pub open spec fn saturating_sum(a: int, b: int) -> int {
    if a + b > u16::MAX {
        u16::MAX as int
    } else {
        a + b
    }
}

/// The lines of one side of the diff, row for row.
pub fn diff_pane_lines(rows: &Vec<DiffRow>, side: Side) -> (lines: Vec<PaneLine>)
    ensures
        lines@.len() == rows@.len(),
        forall|i: int|
            0 <= i < rows@.len() ==> {
                let (prefix, text, kind) = pane_line_spec(rows@[i], side);
                &&& (#[trigger] lines@[i]).prefix@ == prefix
                &&& lines@[i].text@ == text
                &&& lines@[i].kind == kind
            },
{
    let mut lines: Vec<PaneLine> = Vec::new();
    let mut i: usize = 0;
    while i < rows.len()
        invariant
            i <= rows.len(),
            lines@.len() == i,
            forall|j: int|
                0 <= j < i ==> {
                    let (prefix, text, kind) = pane_line_spec(rows@[j], side);
                    &&& (#[trigger] lines@[j]).prefix@ == prefix
                    &&& lines@[j].text@ == text
                    &&& lines@[j].kind == kind
                },
        decreases rows.len() - i,
    {
        let row = &rows[i];
        let (number, text, kind) = match side {
            Side::Left => (row.left_no, row.left_text.clone(), row.left_kind),
            Side::Right => (row.right_no, row.right_text.clone(), row.right_kind),
        };
        let digits = match number {
            Some(n) => unsigned_decimal(n),
            None => String::new(),
        };
        let mut prefix = String::new();
        let width = digits.as_str().unicode_len();
        let mut pad = width;
        while pad < GUTTER_WIDTH
            invariant
                width <= pad <= GUTTER_WIDTH || (width > GUTTER_WIDTH && pad == width),
                prefix@ == Seq::new((pad - width) as nat, |k: int| ' '),
            decreases GUTTER_WIDTH - pad,
        {
            string_push(&mut prefix, ' ');
            proof {
                assert(prefix@ =~= Seq::new((pad + 1 - width) as nat, |k: int| ' '));
            }
            pad = pad + 1;
        }
        prefix.append(digits.as_str());
        string_push(&mut prefix, ' ');
        let mark = match kind {
            RowKind::Removed => '-',
            RowKind::Added => '+',
            _ => ' ',
        };
        string_push(&mut prefix, mark);
        string_push(&mut prefix, ' ');
        proof {
            let g = gutter(number);
            assert(digits@ == match number {
                Some(n) => decimal_digits(n as nat),
                None => Seq::<char>::empty(),
            });
            if width < GUTTER_WIDTH {
                assert(pad == GUTTER_WIDTH);
            }
            assert(prefix@ =~= g + seq![' ', marker(kind), ' ']);
        }
        let ghost before = lines@;
        lines.push(PaneLine { prefix, text, kind });
        proof {
            assert forall|j: int| 0 <= j < i + 1 implies {
                let (prefix, text, kind) = pane_line_spec(rows@[j], side);
                &&& (#[trigger] lines@[j]).prefix@ == prefix
                &&& lines@[j].text@ == text
                &&& lines@[j].kind == kind
            } by {
                if j < i {
                    assert(lines@[j] == before[j]);
                }
            }
        }
        i = i + 1;
    }
    lines
}

} // verus!
