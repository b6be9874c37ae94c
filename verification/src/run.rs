//! The life of a run as the front end sees it: the form is checked, the run
//! is recorded in the transcript, the animation advances while it is in
//! flight, and its outcome is written into the transcript entry.

use vstd::prelude::*;

use crate::app::{App, EntryStatus, HistoryEntry, POLICY_COUNT, SPINNER_FRAMES, VECTOR_WIDTH_COUNT};
use crate::command::{command_line, shell_quoted, joined};
use crate::diff::{build_diff_rows, line_diff, numbers_fit, row_views, rows_of, DiffRow};
use crate::history::capped;
use crate::text::{decimal, decimal_string, lines_of, string_push, trim_whitespace, trimmed};

verus! {

/// What a finished run reports.
#[derive(Clone, Debug)]
pub struct WorkerResult {
    pub success: bool,
    /// The exit status, when the process exited rather than being killed.
    pub code: Option<i32>,
    pub stdout: String,
    pub stderr: String,
    /// Why the process could not be started, if it could not.
    pub spawn_error: Option<String>,
}

/// What a request to run leads to.
#[derive(Clone, Copy, Debug, PartialEq, Eq, Structural)]
pub enum RunRequest {
    /// A run is already in flight; the request is ignored.
    AlreadyRunning,
    /// The form is incomplete; a failure was recorded in the transcript.
    Rejected,
    /// The form is complete; the run may start.
    Ready,
}

/// The message recorded when a path is missing.
pub open spec fn missing_paths_message() -> Seq<char> {
    "Input and output paths are required."@
}

/// The text recorded under a finished run.
pub open spec fn outcome_detail(result: WorkerResult) -> Seq<char> {
    let head = if result.success {
        "wrote output successfully."@
    } else {
        "rv-vectorize exited with status "@ + (match result.code {
            Some(code) => decimal(code as int),
            None => "signal"@,
        }) + "."@
    };
    let errors = trimmed(result.stderr@);
    let output = trimmed(result.stdout@);
    head + (if errors.len() > 0 {
        seq!['\n'] + errors
    } else {
        Seq::empty()
    }) + (if output.len() > 0 {
        "\n\nstdout:\n"@ + output
    } else {
        Seq::empty()
    })
}

/// The text recorded when the run could not start.
pub open spec fn spawn_failure_detail(error: Seq<char>) -> Seq<char> {
    "Could not start rv-vectorize: "@ + error
}

impl App {
    /// How a request to run is answered in this state.
    pub open spec fn run_request(self) -> RunRequest {
        if self.running {
            RunRequest::AlreadyRunning
        } else if trimmed(self.input.value@).len() == 0 || trimmed(self.output.value@).len()
            == 0 {
            RunRequest::Rejected
        } else {
            RunRequest::Ready
        }
    }

    /// Decides whether a run may start. A run in flight makes the request a
    /// no-op; a blank path records a failure without starting anything.
    pub fn request_run(&mut self) -> (request: RunRequest)
        ensures
            request == old(self).run_request(),
            request == RunRequest::Rejected ==> final(self).recorded_failure(
                *old(self),
                missing_paths_message(),
            ),
            request != RunRequest::Rejected ==> *final(self) == *old(self),
    {
        if self.running {
            return RunRequest::AlreadyRunning;
        }
        if trim_whitespace(self.input.value.as_str()).is_empty() || trim_whitespace(
            self.output.value.as_str(),
        ).is_empty() {
            self.push_immediate_failure("Input and output paths are required.");
            return RunRequest::Rejected;
        }
        RunRequest::Ready
    }

    /// Starts a run of `executable`: remembers the paths it runs on, records
    /// the command line in the transcript as running, and returns the
    /// arguments to pass.
    pub fn start_run(&mut self, executable: &str) -> (arguments: Vec<String>)
        requires
            old(self).policy < POLICY_COUNT,
            old(self).vector_width < VECTOR_WIDTH_COUNT,
        ensures
            arguments@.map_values(|a: String| a@) == old(self).arguments(),
            final(self).history@ == capped(old(self).history@.push(final(self).history@.last())),
            final(self).history@.last().status == EntryStatus::Running,
            final(self).history@.last().command@ == executable@ + seq![' '] + joined(
                old(self).arguments().map_values(|a: Seq<char>| shell_quoted(a)),
            ),
            final(self).history@.last().detail@.len() == 0,
            final(self).run_input@ == old(self).input.value@,
            final(self).run_output@ == old(self).output.value@,
            *final(self) == (App {
                history: final(self).history,
                transcript_follow: true,
                running: true,
                run_input: final(self).run_input,
                run_output: final(self).run_output,
                ..*old(self)
            }),
    {
        self.run_input = self.input.value.clone();
        self.run_output = self.output.value.clone();
        let arguments = self.command_arguments();
        let command = command_line(executable, &arguments);
        proof {
            assert(arguments@.map_values(|a: String| shell_quoted(a@)) =~= self.arguments().map_values(
                |a: Seq<char>| shell_quoted(a),
            ));
        }
        self.push_history(
            HistoryEntry { command, status: EntryStatus::Running, detail: String::new() },
        );
        self.running = true;
        arguments
    }

    /// Advances the animations by one frame. Returns whether a run is in
    /// flight, whose outcome should then be looked for.
    pub fn tick(&mut self) -> (in_flight: bool)
        requires
            old(self).running ==> old(self).spinner_frame < usize::MAX,
        ensures
            in_flight == old(self).running,
            final(self).tick_count == (if old(self).tick_count == u64::MAX {
                0
            } else {
                old(self).tick_count + 1
            }),
            final(self).spinner_frame == (if old(self).running {
                (old(self).spinner_frame + 1) % (SPINNER_FRAMES as int)
            } else {
                old(self).spinner_frame as int
            }),
            *final(self) == (App {
                tick_count: final(self).tick_count,
                spinner_frame: final(self).spinner_frame,
                ..*old(self)
            }),
    {
        self.tick_count = self.tick_count.wrapping_add(1);
        if !self.running {
            return false;
        }
        self.spinner_frame = (self.spinner_frame + 1) % SPINNER_FRAMES;
        true
    }

    /// Records the outcome of the run in flight in the newest transcript
    /// entry. Returns whether the run succeeded, so that its diff should be
    /// loaded.
    pub fn finish_run(&mut self, result: &WorkerResult) -> (load_diff: bool)
        ensures
            final(self).history@.len() == old(self).history@.len(),
            forall|i: int|
                0 <= i < old(self).history@.len() - 1 ==> final(self).history@[i] == old(
                    self,
                ).history@[i],
            old(self).history@.len() > 0 ==> {
                let entry = final(self).history@.last();
                &&& entry.command == old(self).history@.last().command
                &&& result.spawn_error matches Some(error) ==> {
                    &&& entry.status == EntryStatus::Failed
                    &&& entry.detail@ == spawn_failure_detail(error@)
                }
                &&& result.spawn_error is None ==> {
                    &&& entry.status == (if result.success {
                        EntryStatus::Success
                    } else {
                        EntryStatus::Failed
                    })
                    &&& entry.detail@ == outcome_detail(*result)
                }
            },
            load_diff == (result.success && !(old(self).history@.len() > 0
                && result.spawn_error is Some)),
            *final(self) == (App { history: final(self).history, running: false, ..*old(self) }),
    {
        self.running = false;
        let len = self.history.len();
        if len > 0 {
            let command = self.history[len - 1].command.clone();
            match &result.spawn_error {
                Some(error) => {
                    let mut detail = "Could not start rv-vectorize: ".to_owned();
                    detail.append(error.as_str());
                    self.history.set(
                        len - 1,
                        HistoryEntry { command, status: EntryStatus::Failed, detail },
                    );
                    return false;
                },
                None => {},
            }
            let mut detail;
            let status;
            if result.success {
                status = EntryStatus::Success;
                detail = "wrote output successfully.".to_owned();
            } else {
                status = EntryStatus::Failed;
                detail = "rv-vectorize exited with status ".to_owned();
                match result.code {
                    Some(code) => {
                        let digits = decimal_string(code);
                        detail.append(digits.as_str());
                    },
                    None => {
                        detail.append("signal");
                    },
                }
                detail.append(".");
            }
            let errors = trim_whitespace(result.stderr.as_str());
            if !errors.is_empty() {
                string_push(&mut detail, '\n');
                detail.append(errors);
            }
            let output = trim_whitespace(result.stdout.as_str());
            if !output.is_empty() {
                detail.append("\n\nstdout:\n");
                detail.append(output);
            }
            proof {
                assert(detail@ =~= outcome_detail(*result));
            }
            self.history.set(len - 1, HistoryEntry { command, status, detail });
        }
        result.success
    }

    /// Shows the rows of the diff of the last run's input and output, from
    /// the top.
    pub fn show_diff(&mut self, rows: Vec<DiffRow>)
        ensures
            *final(self) == (App {
                diff_rows: rows,
                diff_labels: Some((old(self).run_input, old(self).run_output)),
                diff_scroll: 0,
                ..*old(self)
            }),
    {
        self.diff_rows = rows;
        self.diff_labels = Some((self.run_input.clone(), self.run_output.clone()));
        self.diff_scroll = 0;
    }

    /// Shows the diff of the last run's input and output, given their texts
    /// as read back (`None` for a file that could not be read as text). When
    /// either could not be read, or a line number would not fit in a `usize`,
    /// the diff is left empty: its rows are cleared and nothing else changes.
    pub fn load_diff(&mut self, original: Option<&str>, optimized: Option<&str>)
        ensures
            match (original, optimized) {
                (Some(a), Some(b)) if forall|i: int|
                    0 <= i < line_diff(a@, b@).len() ==> numbers_fit(
                        #[trigger] line_diff(a@, b@)[i],
                    ) => {
                    &&& row_views(final(self).diff_rows@) == rows_of(
                        lines_of(a@),
                        lines_of(b@),
                        line_diff(a@, b@),
                    )
                    &&& *final(self) == (App {
                        diff_rows: final(self).diff_rows,
                        diff_labels: Some((old(self).run_input, old(self).run_output)),
                        diff_scroll: 0,
                        ..*old(self)
                    })
                },
                _ => {
                    &&& final(self).diff_rows@.len() == 0
                    &&& *final(self) == (App { diff_rows: final(self).diff_rows, ..*old(self) })
                },
            },
    {
        let rows = match (original, optimized) {
            (Some(a), Some(b)) => build_diff_rows(a, b),
            _ => None,
        };
        match rows {
            Some(rows) => self.show_diff(rows),
            None => {
                self.diff_rows = Vec::new();
            },
        }
    }
}

} // verus!
