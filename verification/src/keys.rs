//! What each key press and mouse-wheel notch does. A key is first read as a
//! command, by the key table; the command is then applied to the state.

use vstd::prelude::*;

use crate::app::{App, ViewMode, FIELD_COUNT, POLICY_COUNT, VECTOR_WIDTH_COUNT};
use crate::run::{missing_paths_message, RunRequest};
use crate::text::{char_width, utf8_len};
use crate::text_field::{FieldModel, TextField};

verus! {

/// The keys the front end reacts to.
#[derive(Clone, Copy, Debug, PartialEq, Eq, Structural)]
pub enum Key {
    Char(char),
    Esc,
    Up,
    Down,
    Left,
    Right,
    Tab,
    BackTab,
    PageUp,
    PageDown,
    Home,
    End,
    Backspace,
    Delete,
    Enter,
    Other,
}

/// A key event: the key, whether it was a press (rather than a repeat or a
/// release), and the Control and Alt modifiers.
#[derive(Clone, Copy, Debug, PartialEq, Eq, Structural)]
pub struct KeyInput {
    pub code: Key,
    pub press: bool,
    pub control: bool,
    pub alt: bool,
}

/// A mouse event, as far as the front end reads it.
#[derive(Clone, Copy, Debug, PartialEq, Eq, Structural)]
pub enum MouseWheel {
    ScrollUp,
    ScrollDown,
    Other,
}

/// What a key asks for.
#[derive(Clone, Copy, Debug, PartialEq, Eq, Structural)]
pub enum Command {
    Ignore,
    Quit,
    ToggleDiff,
    CloseDiff,
    /// Scroll the diff by this many rows, up when `up`.
    ScrollDiff { up: bool, rows: u16 },
    Run,
    /// Scroll the transcript by this many rows (negative is up).
    ScrollTranscript(i32),
    ScrollTop,
    ScrollBottom,
    NextField,
    PreviousField,
    CycleForward,
    CycleBackward,
    Toggle,
    CaretLeft,
    CaretRight,
    CaretHome,
    CaretEnd,
    Backspace,
    Delete,
    Type(char),
}

/// What the caller has to do after a key: start the run whose request was
/// granted, or nothing.
#[derive(Clone, Copy, Debug, PartialEq, Eq, Structural)]
pub enum KeyAction {
    Nothing,
    StartRun,
}

impl KeyInput {
    /// A press of `code` without modifiers.
    pub fn new(code: Key) -> (key: KeyInput)
        ensures
            key == (KeyInput { code, press: true, control: false, alt: false }),
    {
        KeyInput { code, press: true, control: false, alt: false }
    }
}

/// The key table of the form and of the diff screen.
pub open spec fn command_spec(view: ViewMode, focused: usize, key: KeyInput) -> Command {
    let on_text = focused <= 1;
    if !key.press {
        Command::Ignore
    } else if key.control && key.code == Key::Char('c') {
        Command::Quit
    } else if key.control && key.code == Key::Char('d') {
        Command::ToggleDiff
    } else if key.control && key.code == Key::Char('r') {
        Command::Run
    } else if view == ViewMode::Diff {
        match key.code {
            Key::Esc => Command::CloseDiff,
            Key::Char(c) => if c == 'q' {
                Command::CloseDiff
            } else {
                Command::Ignore
            },
            Key::Up => Command::ScrollDiff { up: true, rows: 1u16 },
            Key::Down => Command::ScrollDiff { up: false, rows: 1u16 },
            Key::PageUp => Command::ScrollDiff { up: true, rows: 10u16 },
            Key::PageDown => Command::ScrollDiff { up: false, rows: 10u16 },
            _ => Command::Ignore,
        }
    } else {
        match key.code {
            Key::Esc => Command::Quit,
            Key::Up => if key.control {
                Command::ScrollTranscript(-1i32)
            } else {
                Command::PreviousField
            },
            Key::Down => if key.control {
                Command::ScrollTranscript(1i32)
            } else {
                Command::NextField
            },
            Key::Tab => Command::NextField,
            Key::BackTab => Command::PreviousField,
            Key::PageUp => Command::ScrollTranscript(-5i32),
            Key::PageDown => Command::ScrollTranscript(5i32),
            Key::Left => if on_text {
                Command::CaretLeft
            } else {
                Command::CycleBackward
            },
            Key::Right => if on_text {
                Command::CaretRight
            } else {
                Command::CycleForward
            },
            Key::Home => if on_text {
                Command::CaretHome
            } else {
                Command::ScrollTop
            },
            Key::End => if on_text {
                Command::CaretEnd
            } else {
                Command::ScrollBottom
            },
            Key::Backspace => if on_text {
                Command::Backspace
            } else {
                Command::Ignore
            },
            Key::Delete => if on_text {
                Command::Delete
            } else {
                Command::Ignore
            },
            Key::Enter => if focused == 7 {
                Command::Run
            } else if focused == 8 {
                Command::ToggleDiff
            } else if 4 <= focused <= 6 {
                Command::Toggle
            } else {
                Command::Ignore
            },
            Key::Char(c) => if c == ' ' && focused == 7 {
                Command::Run
            } else if c == ' ' && 4 <= focused <= 6 {
                Command::Toggle
            } else if on_text && !key.control && !key.alt {
                Command::Type(c)
            } else {
                Command::Ignore
            },
            _ => Command::Ignore,
        }
    }
}

/// The focused path field has room for `c` (a `String` holds at most
/// `isize::MAX` bytes).
pub open spec fn has_room(field: TextField, c: char) -> bool {
    utf8_len(field.value@) + char_width(c) <= isize::MAX
}

/// `value` lowered by `rows`, stopping at zero.
pub open spec fn saturating_down(value: u16, rows: u16) -> u16 {
    if value >= rows {
        (value - rows) as u16
    } else {
        0
    }
}

/// `value` raised by `rows`, stopping at `u16::MAX`.
pub open spec fn saturating_up(value: u16, rows: u16) -> u16 {
    if value + rows <= u16::MAX {
        (value + rows) as u16
    } else {
        u16::MAX
    }
}

/// The commands that edit the focused path field.
pub open spec fn is_edit(command: Command) -> bool {
    match command {
        Command::CaretLeft | Command::CaretRight | Command::CaretHome | Command::CaretEnd
        | Command::Backspace | Command::Delete | Command::Type(_) => true,
        _ => false,
    }
}

fn is_edit_command(command: Command) -> (edit: bool)
    ensures
        edit == is_edit(command),
{
    match command {
        Command::CaretLeft | Command::CaretRight | Command::CaretHome | Command::CaretEnd
        | Command::Backspace | Command::Delete | Command::Type(_) => true,
        _ => false,
    }
}

/// What an editing command does to a field.
pub open spec fn edit_effect(field: FieldModel, command: Command) -> FieldModel {
    match command {
        Command::CaretLeft => field.moved_left(),
        Command::CaretRight => field.moved_right(),
        Command::CaretHome => field.moved_home(),
        Command::CaretEnd => field.moved_end(),
        Command::Backspace => field.backspaced(),
        Command::Delete => field.deleted(),
        Command::Type(c) => field.typed(c),
        _ => field,
    }
}

/// What the commands that neither edit a field nor request a run do.
pub open spec fn effect(app: App, command: Command) -> App {
    match command {
        Command::Quit => App { quit: true, ..app },
        Command::ToggleDiff => app.diff_toggled(),
        Command::CloseDiff => App { view: ViewMode::Config, ..app },
        Command::ScrollDiff { up, rows } => App {
            diff_scroll: if up {
                saturating_down(app.diff_scroll, rows)
            } else {
                saturating_up(app.diff_scroll, rows)
            },
            ..app
        },
        Command::ScrollTranscript(delta) => app.scrolled_by(delta as int),
        Command::ScrollTop => app.scrolled_to_top(),
        Command::ScrollBottom => app.scrolled_to_bottom(),
        Command::NextField => app.focus_next(),
        Command::PreviousField => app.focus_previous(),
        Command::CycleForward => app.cycled(true),
        Command::CycleBackward => app.cycled(false),
        Command::Toggle => app.toggled(),
        _ => app,
    }
}

/// `new` is `old` after `command`, and `action` is what the caller has to do.
pub open spec fn applied(old: App, new: App, command: Command, action: KeyAction) -> bool {
    &&& (old.wf() ==> new.wf())
    &&& (old.accepts_keys() ==> new.accepts_keys())
    &&& if command == Command::Run {
        &&& action == (if old.run_request() == RunRequest::Ready {
            KeyAction::StartRun
        } else {
            KeyAction::Nothing
        })
        &&& old.run_request() == RunRequest::Rejected ==> new.recorded_failure(
            old,
            missing_paths_message(),
        )
        &&& old.run_request() != RunRequest::Rejected ==> new == old
    } else if is_edit(command) {
        &&& action == KeyAction::Nothing
        &&& old.focused <= 1 ==> new.edited(old, edit_effect(old.focused_field()@, command))
        &&& old.focused > 1 ==> new == old
    } else {
        &&& action == KeyAction::Nothing
        &&& new == effect(old, command)
    }
}

/// What a mouse event does: the wheel scrolls the diff on the diff screen,
/// and the transcript elsewhere, three rows per notch.
pub open spec fn mouse_effect(app: App, wheel: MouseWheel) -> App {
    match wheel {
        MouseWheel::ScrollUp => if app.view == ViewMode::Diff {
            App { diff_scroll: saturating_down(app.diff_scroll, 3), ..app }
        } else {
            app.scrolled_by(-3)
        },
        MouseWheel::ScrollDown => if app.view == ViewMode::Diff {
            App { diff_scroll: saturating_up(app.diff_scroll, 3), ..app }
        } else {
            app.scrolled_by(3)
        },
        MouseWheel::Other => app,
    }
}

impl App {
    /// What handling a key needs: carets on character boundaries, and
    /// indexes whose wrapping arithmetic does not overflow.
    pub open spec fn accepts_keys(&self) -> bool {
        &&& self.input.wf()
        &&& self.output.wf()
        &&& self.focused + FIELD_COUNT <= usize::MAX
        &&& self.policy + POLICY_COUNT <= usize::MAX
        &&& self.vector_width + VECTOR_WIDTH_COUNT <= usize::MAX
    }

    /// The path field that has the focus; meaningful when `focused <= 1`.
    pub open spec fn focused_field(&self) -> TextField {
        if self.focused == 0 {
            self.input
        } else {
            self.output
        }
    }

    /// `self` is `old` with only the focused path field changed, to a field
    /// whose model is `model`.
    pub open spec fn edited(&self, old: App, model: FieldModel) -> bool {
        &&& self.focused_field().wf()
        &&& self.focused_field()@ == model
        &&& (old.focused == 0 ==> *self == (App { input: self.input, ..old }))
        &&& (old.focused == 1 ==> *self == (App { output: self.output, ..old }))
    }

    /// Reads `key` as a command.
    pub fn key_command(&self, key: &KeyInput) -> (command: Command)
        ensures
            command == command_spec(self.view, self.focused, *key),
    {
        let on_text = self.focused <= 1;
        if !key.press {
            return Command::Ignore;
        }
        if key.control && key.code == Key::Char('c') {
            return Command::Quit;
        }
        if key.control && key.code == Key::Char('d') {
            return Command::ToggleDiff;
        }
        if key.control && key.code == Key::Char('r') {
            return Command::Run;
        }
        if self.view == ViewMode::Diff {
            return match key.code {
                Key::Esc => Command::CloseDiff,
                Key::Char(c) => if c == 'q' {
                    Command::CloseDiff
                } else {
                    Command::Ignore
                },
                Key::Up => Command::ScrollDiff { up: true, rows: 1 },
                Key::Down => Command::ScrollDiff { up: false, rows: 1 },
                Key::PageUp => Command::ScrollDiff { up: true, rows: 10 },
                Key::PageDown => Command::ScrollDiff { up: false, rows: 10 },
                _ => Command::Ignore,
            };
        }
        match key.code {
            Key::Esc => Command::Quit,
            Key::Up => if key.control {
                Command::ScrollTranscript(-1)
            } else {
                Command::PreviousField
            },
            Key::Down => if key.control {
                Command::ScrollTranscript(1)
            } else {
                Command::NextField
            },
            Key::Tab => Command::NextField,
            Key::BackTab => Command::PreviousField,
            Key::PageUp => Command::ScrollTranscript(-5),
            Key::PageDown => Command::ScrollTranscript(5),
            Key::Left => if on_text {
                Command::CaretLeft
            } else {
                Command::CycleBackward
            },
            Key::Right => if on_text {
                Command::CaretRight
            } else {
                Command::CycleForward
            },
            Key::Home => if on_text {
                Command::CaretHome
            } else {
                Command::ScrollTop
            },
            Key::End => if on_text {
                Command::CaretEnd
            } else {
                Command::ScrollBottom
            },
            Key::Backspace => if on_text {
                Command::Backspace
            } else {
                Command::Ignore
            },
            Key::Delete => if on_text {
                Command::Delete
            } else {
                Command::Ignore
            },
            Key::Enter => if self.focused == 7 {
                Command::Run
            } else if self.focused == 8 {
                Command::ToggleDiff
            } else if 4 <= self.focused && self.focused <= 6 {
                Command::Toggle
            } else {
                Command::Ignore
            },
            Key::Char(c) => if c == ' ' && self.focused == 7 {
                Command::Run
            } else if c == ' ' && 4 <= self.focused && self.focused <= 6 {
                Command::Toggle
            } else if on_text && !key.control && !key.alt {
                Command::Type(c)
            } else {
                Command::Ignore
            },
            _ => Command::Ignore,
        }
    }
}


impl App {
    /// Carries out an editing command on the focused path field.
    fn apply_edit(&mut self, command: Command)
        requires
            is_edit(command),
            old(self).input.wf(),
            old(self).output.wf(),
            old(self).focused <= 1 ==> (command matches Command::Type(c) ==> has_room(
                old(self).focused_field(),
                c,
            )),
        ensures
            old(self).focused <= 1 ==> final(self).edited(
                *old(self),
                edit_effect(old(self).focused_field()@, command),
            ),
            old(self).focused > 1 ==> *final(self) == *old(self),
            final(self).input.wf(),
            final(self).output.wf(),
    {
        match command {
            Command::CaretLeft => {
                if let Some(field) = self.selected_text_field() {
                    field.move_left();
                }
            },
            Command::CaretRight => {
                if let Some(field) = self.selected_text_field() {
                    field.move_right();
                }
            },
            Command::CaretHome => {
                if let Some(field) = self.selected_text_field() {
                    field.move_home();
                }
            },
            Command::CaretEnd => {
                if let Some(field) = self.selected_text_field() {
                    field.move_end();
                }
            },
            Command::Backspace => {
                if let Some(field) = self.selected_text_field() {
                    field.backspace();
                }
            },
            Command::Delete => {
                if let Some(field) = self.selected_text_field() {
                    field.delete();
                }
            },
            Command::Type(c) => {
                if let Some(field) = self.selected_text_field() {
                    field.insert(c);
                }
            },
            _ => {},
        }
    }

    /// Carries out `command`.
    pub fn apply_command(&mut self, command: Command) -> (action: KeyAction)
        requires
            old(self).accepts_keys(),
            old(self).focused <= 1 ==> (command matches Command::Type(c) ==> has_room(
                old(self).focused_field(),
                c,
            )),
        ensures
            applied(*old(self), *final(self), command, action),
    {
        if is_edit_command(command) {
            self.apply_edit(command);
            return KeyAction::Nothing;
        }
        match command {
            Command::Ignore => KeyAction::Nothing,
            Command::Quit => {
                self.quit = true;
                KeyAction::Nothing
            },
            Command::ToggleDiff => {
                self.toggle_diff_view();
                KeyAction::Nothing
            },
            Command::CloseDiff => {
                self.view = ViewMode::Config;
                KeyAction::Nothing
            },
            Command::ScrollDiff { up, rows } => {
                self.diff_scroll = if up {
                    self.diff_scroll.saturating_sub(rows)
                } else {
                    self.diff_scroll.saturating_add(rows)
                };
                KeyAction::Nothing
            },
            Command::Run => {
                if self.request_run() == RunRequest::Ready {
                    KeyAction::StartRun
                } else {
                    KeyAction::Nothing
                }
            },
            Command::ScrollTranscript(delta) => {
                self.scroll_transcript(delta);
                KeyAction::Nothing
            },
            Command::ScrollTop => {
                self.scroll_transcript_to_top();
                KeyAction::Nothing
            },
            Command::ScrollBottom => {
                self.scroll_transcript_to_bottom();
                KeyAction::Nothing
            },
            Command::NextField => {
                self.next_field();
                KeyAction::Nothing
            },
            Command::PreviousField => {
                self.previous_field();
                KeyAction::Nothing
            },
            Command::CycleForward => {
                self.cycle_selected(true);
                KeyAction::Nothing
            },
            Command::CycleBackward => {
                self.cycle_selected(false);
                KeyAction::Nothing
            },
            Command::Toggle => {
                self.toggle_selected();
                KeyAction::Nothing
            },
            _ => KeyAction::Nothing,
        }
    }

    /// Reacts to a key: reads it by the key table and carries out the
    /// command. Returns whether the caller has to start a run.
    pub fn handle_key(&mut self, key: KeyInput) -> (action: KeyAction)
        requires
            old(self).accepts_keys(),
            command_spec(old(self).view, old(self).focused, key) matches Command::Type(c)
                ==> has_room(old(self).focused_field(), c),
        ensures
            applied(
                *old(self),
                *final(self),
                command_spec(old(self).view, old(self).focused, key),
                action,
            ),
    {
        let command = self.key_command(&key);
        self.apply_command(command)
    }

    /// Reacts to a mouse event.
    pub fn handle_mouse(&mut self, wheel: MouseWheel)
        ensures
            *final(self) == mouse_effect(*old(self), wheel),
    {
        let delta: i32 = match wheel {
            MouseWheel::ScrollUp => -3,
            MouseWheel::ScrollDown => 3,
            MouseWheel::Other => {
                return;
            },
        };
        if self.view == ViewMode::Diff {
            self.diff_scroll = if delta < 0 {
                self.diff_scroll.saturating_sub(3)
            } else {
                self.diff_scroll.saturating_add(3)
            };
            return;
        }
        self.scroll_transcript(delta);
    }
}

} // verus!
