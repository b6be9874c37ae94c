//! Scrolling of the session transcript. The pane follows the newest output
//! until the reader scrolls up, never scrolls past the measured content, and
//! follows again once the reader is back at the bottom.

use vstd::prelude::*;

use crate::app::App;

verus! {

/// `value` limited to the range `low..=high`.
pub open spec fn clamp(value: int, low: int, high: int) -> int {
    if value < low {
        low
    } else if value > high {
        high
    } else {
        value
    }
}

impl App {
    /// Largest useful scroll offset: the rows that do not fit in the pane.
    pub open spec fn max_scroll(&self) -> int {
        if self.transcript_content > self.transcript_viewport {
            self.transcript_content - self.transcript_viewport
        } else {
            0
        }
    }

    /// Offset the pane is drawn at.
    pub open spec fn offset(&self) -> int {
        if self.transcript_follow {
            self.max_scroll()
        } else if self.transcript_scroll < self.max_scroll() {
            self.transcript_scroll as int
        } else {
            self.max_scroll()
        }
    }

    /// The state after scrolling by `delta` rows: the offset moves from where
    /// the pane is drawn, stays within the content, and the pane follows new
    /// output exactly when it ends up at the bottom.
    pub open spec fn scrolled_by(self, delta: int) -> App {
        let target = clamp(self.offset() + delta, 0, self.max_scroll());
        App {
            transcript_scroll: target as u16,
            transcript_follow: target >= self.max_scroll(),
            ..self
        }
    }

    /// The state after jumping to the oldest output.
    pub open spec fn scrolled_to_top(self) -> App {
        App { transcript_scroll: 0, transcript_follow: self.max_scroll() == 0, ..self }
    }

    /// The state after jumping to the newest output.
    pub open spec fn scrolled_to_bottom(self) -> App {
        App { transcript_scroll: self.max_scroll() as u16, transcript_follow: true, ..self }
    }

    /// Largest useful scroll offset for the session pane, from the geometry
    /// measured during the previous render.
    pub fn transcript_max_scroll(&self) -> (m: u16)
        ensures
            m == self.max_scroll(),
    {
        self.transcript_content.saturating_sub(self.transcript_viewport)
    }

    /// Offset to render with. Following pins the view to the newest output;
    /// otherwise a stale offset is clamped so the pane never scrolls off into
    /// empty space below the transcript.
    pub fn transcript_offset(&self) -> (o: u16)
        ensures
            o == self.offset(),
            o <= self.max_scroll(),
    {
        if self.transcript_follow {
            self.transcript_max_scroll()
        } else {
            let maximum = self.transcript_max_scroll();
            if self.transcript_scroll < maximum {
                self.transcript_scroll
            } else {
                maximum
            }
        }
    }

    /// Scrolls the pane by `delta` rows (negative is up), within the content.
    /// Reaching the bottom makes the pane follow new output again.
    pub fn scroll_transcript(&mut self, delta: i32)
        ensures
            *final(self) == old(self).scrolled_by(delta as int),
    {
        let maximum = self.transcript_max_scroll();
        let current = self.transcript_offset() as i64;
        let wanted = current + delta as i64;
        let target: u16 = if wanted < 0 {
            0
        } else if wanted > maximum as i64 {
            maximum
        } else {
            wanted as u16
        };
        self.transcript_scroll = target;
        self.transcript_follow = self.transcript_scroll >= maximum;
    }

    /// Jumps to the oldest output; the pane follows only if nothing overflows.
    pub fn scroll_transcript_to_top(&mut self)
        ensures
            *final(self) == old(self).scrolled_to_top(),
    {
        self.transcript_scroll = 0;
        self.transcript_follow = self.transcript_max_scroll() == 0;
    }

    /// Jumps to the newest output and follows it.
    pub fn scroll_transcript_to_bottom(&mut self)
        ensures
            *final(self) == old(self).scrolled_to_bottom(),
    {
        self.transcript_scroll = self.transcript_max_scroll();
        self.transcript_follow = true;
    }
}

} // verus!
