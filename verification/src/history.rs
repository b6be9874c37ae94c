//! The session transcript: entries are appended, only the newest
//! `HISTORY_CAP` are kept, and new output brings the pane back to the newest
//! entry.

use vstd::prelude::*;

use crate::app::{App, EntryStatus, HistoryEntry, HISTORY_CAP};

verus! {

/// The newest `HISTORY_CAP` entries of `entries`.
pub open spec fn capped(entries: Seq<HistoryEntry>) -> Seq<HistoryEntry> {
    if entries.len() > HISTORY_CAP {
        entries.skip(entries.len() - HISTORY_CAP)
    } else {
        entries
    }
}

impl App {
    /// `self` is `old` with a failure recorded in the transcript: an entry
    /// without a command, failed, whose detail is `message`, appended as
    /// `push_history` appends.
    pub open spec fn recorded_failure(self, old: App, message: Seq<char>) -> bool {
        &&& self.history@ == capped(old.history@.push(self.history@.last()))
        &&& self.history@.last().status == EntryStatus::Failed
        &&& self.history@.last().command@.len() == 0
        &&& self.history@.last().detail@ == message
        &&& self == (App { history: self.history, transcript_follow: true, ..old })
    }

    /// Appends `entry`, drops the oldest entries beyond the cap, and makes the
    /// pane follow the newest output.
    pub fn push_history(&mut self, entry: HistoryEntry)
        ensures
            final(self).history@ == capped(old(self).history@.push(entry)),
            *final(self) == (App {
                history: final(self).history,
                transcript_follow: true,
                ..*old(self)
            }),
    {
        let ghost all = self.history@.push(entry);
        self.history.push(entry);
        let ghost mut dropped: int = 0;
        while self.history.len() > HISTORY_CAP
            invariant
                0 <= dropped <= all.len(),
                self.history@ == all.skip(dropped),
                dropped > 0 ==> all.len() - dropped >= HISTORY_CAP,
                *self == (App { history: self.history, ..*old(self) }),
            decreases self.history.len(),
        {
            self.history.remove(0);
            proof {
                assert(all.skip(dropped).remove(0) =~= all.skip(dropped + 1));
                dropped = dropped + 1;
            }
        }
        proof {
            if dropped == 0 {
                assert(all.skip(0) =~= all);
            }
        }
        self.transcript_follow = true;
    }

    /// Records a failure that never reached a run, such as a rejected form.
    pub fn push_immediate_failure(&mut self, message: &str)
        ensures
            final(self).recorded_failure(*old(self), message@),
    {
        let entry = HistoryEntry {
            command: String::new(),
            status: EntryStatus::Failed,
            detail: message.to_owned(),
        };
        self.push_history(entry);
    }
}

} // verus!
