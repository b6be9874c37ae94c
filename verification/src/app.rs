//! The application state: the form, the session transcript and the diff view,
//! and the focus and selector rules of the form.

use vstd::prelude::*;

use crate::diff::DiffRow;
use crate::text_field::TextField;

verus! {

/// Number of focusable controls of the form: the two path fields, the two
/// selectors, the three toggles and the two buttons.
pub const FIELD_COUNT: usize = 9;

/// Number of transcript entries that are kept.
pub const HISTORY_CAP: usize = 8;

/// Number of profitability policies offered.
pub const POLICY_COUNT: usize = 3;

/// Number of vector widths offered, the automatic choice included.
pub const VECTOR_WIDTH_COUNT: usize = 5;

/// Number of frames of the busy spinner.
pub const SPINNER_FRAMES: usize = 10;

/// Name of the profitability policy at `index`.
pub open spec fn policy_name_spec(index: int) -> Seq<char> {
    if index == 0 {
        "balanced"@
    } else if index == 1 {
        "conservative"@
    } else {
        "aggressive"@
    }
}

/// Name of the vector width at `index`; the first is the automatic choice.
pub open spec fn vector_width_name_spec(index: int) -> Seq<char> {
    if index == 0 {
        "auto"@
    } else if index == 1 {
        "2"@
    } else if index == 2 {
        "4"@
    } else if index == 3 {
        "8"@
    } else {
        "16"@
    }
}

/// The profitability policies, in the order the selector shows them.
pub fn policy_name(index: usize) -> (name: &'static str)
    requires
        index < POLICY_COUNT,
    ensures
        name@ == policy_name_spec(index as int),
{
    if index == 0 {
        "balanced"
    } else if index == 1 {
        "conservative"
    } else {
        "aggressive"
    }
}

/// The vector widths, in the order the selector shows them.
pub fn vector_width_name(index: usize) -> (name: &'static str)
    requires
        index < VECTOR_WIDTH_COUNT,
    ensures
        name@ == vector_width_name_spec(index as int),
{
    if index == 0 {
        "auto"
    } else if index == 1 {
        "2"
    } else if index == 2 {
        "4"
    } else if index == 3 {
        "8"
    } else {
        "16"
    }
}

/// The status of one entry in the run transcript.
#[derive(Clone, Copy, Debug, PartialEq, Eq, Structural)]
pub enum EntryStatus {
    Running,
    Success,
    Failed,
}

/// One invocation shown in the session transcript: the command that ran,
/// then its outcome and any captured output.
#[derive(Clone, Debug)]
pub struct HistoryEntry {
    pub command: String,
    pub status: EntryStatus,
    pub detail: String,
}

/// Which screen is shown: the form with the transcript beside it, or the
/// side-by-side diff.
#[derive(Clone, Copy, Debug, PartialEq, Eq, Structural)]
pub enum ViewMode {
    Config,
    Diff,
}

/// Everything the front end knows between two events.
#[derive(Debug)]
pub struct App {
    pub input: TextField,
    pub output: TextField,
    pub policy: usize,
    pub vector_width: usize,
    pub report: bool,
    pub verify: bool,
    pub emit_bitcode: bool,
    pub focused: usize,
    pub history: Vec<HistoryEntry>,
    pub transcript_scroll: u16,
    /// Stick to the newest output until the reader scrolls up by hand.
    pub transcript_follow: bool,
    /// Wrapped row count measured by the last render.
    pub transcript_content: u16,
    /// Visible height of the session pane measured by the last render.
    pub transcript_viewport: u16,
    pub spinner_frame: usize,
    pub tick_count: u64,
    /// A run is in flight.
    pub running: bool,
    pub run_input: String,
    pub run_output: String,
    pub view: ViewMode,
    pub diff_rows: Vec<DiffRow>,
    pub diff_labels: Option<(String, String)>,
    pub diff_scroll: u16,
    pub quit: bool,
}

impl App {
    /// The state that every operation keeps.
    pub open spec fn wf(&self) -> bool {
        &&& self.input.wf()
        &&& self.output.wf()
        &&& self.focused < FIELD_COUNT
        &&& self.policy < POLICY_COUNT
        &&& self.vector_width < VECTOR_WIDTH_COUNT
        &&& self.history.len() <= HISTORY_CAP
        &&& self.spinner_frame < SPINNER_FRAMES
    }
}

impl Default for App {
    fn default() -> (app: App)
        ensures
            app.wf(),
            app.input@.text == "tests/fixtures/vectorizable.ll"@,
            app.input@.caret == app.input@.text.len(),
            app.output@.text == "build/tui-vectorized.ll"@,
            app.output@.caret == app.output@.text.len(),
            app.policy == 0,
            app.vector_width == 0,
            app.report,
            app.verify,
            !app.emit_bitcode,
            app.focused == 0,
            app.history@.len() == 0,
            app.transcript_scroll == 0,
            app.transcript_follow,
            app.transcript_content == 0,
            app.transcript_viewport == 0,
            app.spinner_frame == 0,
            app.tick_count == 0,
            !app.running,
            app.run_input@.len() == 0,
            app.run_output@.len() == 0,
            app.view == ViewMode::Config,
            app.diff_rows@.len() == 0,
            app.diff_labels is None,
            app.diff_scroll == 0,
            !app.quit,
    {
        App {
            input: TextField::new("tests/fixtures/vectorizable.ll"),
            output: TextField::new("build/tui-vectorized.ll"),
            policy: 0,
            vector_width: 0,
            report: true,
            verify: true,
            emit_bitcode: false,
            focused: 0,
            history: Vec::new(),
            transcript_scroll: 0,
            transcript_follow: true,
            transcript_content: 0,
            transcript_viewport: 0,
            spinner_frame: 0,
            tick_count: 0,
            running: false,
            run_input: String::new(),
            run_output: String::new(),
            view: ViewMode::Config,
            diff_rows: Vec::new(),
            diff_labels: None,
            diff_scroll: 0,
            quit: false,
        }
    }
}

} // verus!
