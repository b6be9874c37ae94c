//! Moving between the controls of the form, and what the selectors and
//! toggles do.

use vstd::prelude::*;

use crate::app::{App, ViewMode, FIELD_COUNT, POLICY_COUNT, VECTOR_WIDTH_COUNT};
use crate::text_field::TextField;

verus! {

/// One step forward through `count` choices, wrapping at the end.
pub open spec fn step_forward(index: int, count: int) -> int {
    (index + 1) % count
}

/// One step backward through `count` choices, wrapping at the start.
pub open spec fn step_backward(index: int, count: int) -> int {
    (index + count - 1) % count
}

/// The other screen.
pub open spec fn flipped(view: ViewMode) -> ViewMode {
    match view {
        ViewMode::Config => ViewMode::Diff,
        ViewMode::Diff => ViewMode::Config,
    }
}

impl App {
    /// The state after the focused selector steps forward or backward.
    pub open spec fn cycled(self, forward: bool) -> App {
        if self.focused == 2 {
            App {
                policy: (if forward {
                    step_forward(self.policy as int, POLICY_COUNT as int)
                } else {
                    step_backward(self.policy as int, POLICY_COUNT as int)
                }) as usize,
                ..self
            }
        } else if self.focused == 3 {
            App {
                vector_width: (if forward {
                    step_forward(self.vector_width as int, VECTOR_WIDTH_COUNT as int)
                } else {
                    step_backward(self.vector_width as int, VECTOR_WIDTH_COUNT as int)
                }) as usize,
                ..self
            }
        } else {
            self
        }
    }

    /// The state after the focused toggle flips.
    pub open spec fn toggled(self) -> App {
        if self.focused == 4 {
            App { report: !self.report, ..self }
        } else if self.focused == 5 {
            App { verify: !self.verify, ..self }
        } else if self.focused == 6 {
            App { emit_bitcode: !self.emit_bitcode, ..self }
        } else {
            self
        }
    }

    /// The state after the focus moves forward.
    pub open spec fn focus_next(self) -> App {
        App { focused: step_forward(self.focused as int, FIELD_COUNT as int) as usize, ..self }
    }

    /// The state after the focus moves backward.
    pub open spec fn focus_previous(self) -> App {
        App { focused: step_backward(self.focused as int, FIELD_COUNT as int) as usize, ..self }
    }

    /// The state after switching between the form and the diff screen, which
    /// needs a diff to show.
    pub open spec fn diff_toggled(self) -> App {
        if self.diff_labels is Some {
            App { view: flipped(self.view), ..self }
        } else {
            self
        }
    }

    /// Focus moves to the next control, wrapping from the last to the first.
    pub fn next_field(&mut self)
        requires
            old(self).focused < usize::MAX,
        ensures
            *final(self) == old(self).focus_next(),
    {
        self.focused = (self.focused + 1) % FIELD_COUNT;
    }

    /// Focus moves to the previous control, wrapping from the first to the
    /// last.
    pub fn previous_field(&mut self)
        requires
            old(self).focused + FIELD_COUNT <= usize::MAX,
        ensures
            *final(self) == old(self).focus_previous(),
    {
        self.focused = (self.focused + FIELD_COUNT - 1) % FIELD_COUNT;
    }

    /// The path field that has the focus, if one has it.
    pub fn selected_text_field(&mut self) -> (field: Option<&mut TextField>)
        ensures
            old(self).focused == 0 ==> {
                &&& field is Some
                &&& *field->0 == old(self).input
                &&& *final(self) == (App { input: *final(field->0), ..*old(self) })
            },
            old(self).focused == 1 ==> {
                &&& field is Some
                &&& *field->0 == old(self).output
                &&& *final(self) == (App { output: *final(field->0), ..*old(self) })
            },
            old(self).focused > 1 ==> field is None && *final(self) == *old(self),
    {
        if self.focused == 0 {
            Some(&mut self.input)
        } else if self.focused == 1 {
            Some(&mut self.output)
        } else {
            None
        }
    }

    /// On a selector, steps its choice forward or backward, wrapping around;
    /// elsewhere nothing happens.
    pub fn cycle_selected(&mut self, forward: bool)
        requires
            old(self).focused == 2 ==> old(self).policy + POLICY_COUNT <= usize::MAX,
            old(self).focused == 3 ==> old(self).vector_width + VECTOR_WIDTH_COUNT <= usize::MAX,
        ensures
            *final(self) == old(self).cycled(forward),
    {
        if self.focused == 2 {
            self.policy = if forward {
                (self.policy + 1) % POLICY_COUNT
            } else {
                (self.policy + POLICY_COUNT - 1) % POLICY_COUNT
            };
        } else if self.focused == 3 {
            self.vector_width = if forward {
                (self.vector_width + 1) % VECTOR_WIDTH_COUNT
            } else {
                (self.vector_width + VECTOR_WIDTH_COUNT - 1) % VECTOR_WIDTH_COUNT
            };
        }
    }

    /// On a toggle, flips it; elsewhere nothing happens.
    pub fn toggle_selected(&mut self)
        ensures
            *final(self) == old(self).toggled(),
    {
        if self.focused == 4 {
            self.report = !self.report;
        } else if self.focused == 5 {
            self.verify = !self.verify;
        } else if self.focused == 6 {
            self.emit_bitcode = !self.emit_bitcode;
        }
    }

    /// Flips between the form and the diff screen; nothing happens until a
    /// run has produced a diff to show.
    pub fn toggle_diff_view(&mut self)
        ensures
            *final(self) == old(self).diff_toggled(),
    {
        if self.diff_labels.is_none() {
            return;
        }
        self.view = match self.view {
            ViewMode::Config => ViewMode::Diff,
            ViewMode::Diff => ViewMode::Config,
        };
    }
}

} // verus!
