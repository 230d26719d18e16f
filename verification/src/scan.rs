//! One scan job: the progress that pollers see, kept as a state that each
//! event of the traversal moves on, and the files that the traversal
//! gathers until the job is done.

use vstd::prelude::*;
use vstd::string::*;
use crate::model::{copy_text, result_of, text_of, ScanPoll, ScanPollView, ScanResult, ScanResultView};
use crate::text::{lowercase, unicode_lowercase};

verus! {

/// The extension of a file that the scan looks into is this one, in lower
/// case.
pub open spec fn is_wanted_lowercase(lowered: Seq<char>) -> bool {
    lowered == "blend"@
}

/// The scan looks into files with this extension: `blend`, in any case of
/// its letters.
pub open spec fn is_wanted_extension(extension: Seq<char>) -> bool {
    is_wanted_lowercase(unicode_lowercase(extension))
}

/// Whether an extension that is already in lower case is the one that the
/// scan looks for.
pub fn wanted_lowercase(lowered: &str) -> (wanted: bool)
    ensures
        wanted == is_wanted_lowercase(lowered@),
{
    let blend = String::from_str("blend");
    let given = String::from_str(lowered);
    given == blend
}

/// Whether the scan looks into files with this extension.
pub fn wanted_extension(extension: &str) -> (wanted: bool)
    ensures
        wanted == is_wanted_extension(extension@),
{
    let lowered = lowercase(extension);
    wanted_lowercase(lowered.as_str())
}

/// Where a scan job stands.
#[derive(Debug, Clone, Copy, PartialEq, Eq, Structural)]
pub enum ScanStatus {
    /// The traversal is under way.
    Scanning,
    /// The traversal is over and the result is there.
    Done,
    /// The job failed as a whole.
    Error,
}

impl ScanStatus {
    /// The word by which a poll names the status.
    pub open spec fn label(self) -> Seq<char> {
        match self {
            ScanStatus::Scanning => "scanning"@,
            ScanStatus::Done => "done"@,
            ScanStatus::Error => "error"@,
        }
    }

    /// The word by which a poll names the status.
    pub fn name(self) -> (word: String)
        ensures
            word@ == self.label(),
    {
        match self {
            ScanStatus::Scanning => String::from_str("scanning"),
            ScanStatus::Done => String::from_str("done"),
            ScanStatus::Error => String::from_str("error"),
        }
    }
}

/// `n` and one, or the largest value where that does not fit.
pub open spec fn next_count(n: u64) -> u64 {
    if n < u64::MAX {
        (n + 1) as u64
    } else {
        n
    }
}

/// What is put in place of the path of an entry that the traversal could
/// not read.
pub open spec fn walk_error_note(message: Seq<char>) -> Seq<char> {
    "(walk error) "@ + message
}

/// The value of a [`ScanState`].
pub struct ScanStateView {
    pub scanned_entries: u64,
    pub found_blends: u64,
    pub done: bool,
    pub status: ScanStatus,
    pub current_path: Option<Seq<char>>,
    pub error: Option<Seq<char>>,
    pub result: Option<ScanResultView>,
}

impl ScanStateView {
    /// What holds of every job at all times: no more files were found than
    /// entries were met, and the result is there if and only if the job is
    /// done.
    pub open spec fn valid(self) -> bool {
        &&& self.found_blends <= self.scanned_entries
        &&& self.result is Some <==> self.status is Done
        &&& self.done <==> self.status is Done
    }

    /// A job that has just been started.
    pub open spec fn fresh() -> ScanStateView {
        ScanStateView {
            scanned_entries: 0,
            found_blends: 0,
            done: false,
            status: ScanStatus::Scanning,
            current_path: None,
            error: None,
            result: None,
        }
    }

    /// Whether the file behind an entry is to be decoded: the job is
    /// scanning, the entry is a regular file and its extension is wanted.
    pub open spec fn inspects(self, is_file: bool, extension: Seq<char>) -> bool {
        self.status is Scanning && is_file && is_wanted_extension(extension)
    }

    /// The job after the traversal has met an entry. A job that is not
    /// scanning stays as it is.
    pub open spec fn after_entry(
        self,
        path: Seq<char>,
        is_file: bool,
        extension: Seq<char>,
    ) -> ScanStateView {
        if self.status is Scanning {
            ScanStateView {
                scanned_entries: next_count(self.scanned_entries),
                found_blends: if self.inspects(is_file, extension) {
                    next_count(self.found_blends)
                } else {
                    self.found_blends
                },
                current_path: Some(path),
                ..self
            }
        } else {
            self
        }
    }

    /// The job after the traversal has failed on an entry: the entry
    /// counts, and a note takes the place of its path. A job that is not
    /// scanning stays as it is.
    pub open spec fn after_walk_error(self, message: Seq<char>) -> ScanStateView {
        if self.status is Scanning {
            ScanStateView {
                scanned_entries: next_count(self.scanned_entries),
                current_path: Some(walk_error_note(message)),
                ..self
            }
        } else {
            self
        }
    }

    /// The job after the traversal has come to its end with `result`. A
    /// job that is not scanning stays as it is.
    pub open spec fn after_finish(self, result: ScanResultView) -> ScanStateView {
        if self.status is Scanning {
            ScanStateView { done: true, status: ScanStatus::Done, result: Some(result), ..self }
        } else {
            self
        }
    }

    /// What a poll of the job `scan_id` returns.
    pub open spec fn snapshot(self, scan_id: u64) -> ScanPollView {
        ScanPollView {
            scan_id,
            status: self.status.label(),
            scanned_entries: self.scanned_entries,
            found_blends: self.found_blends,
            current_path: self.current_path,
            error: self.error,
            result: self.result,
        }
    }
}

/// The state of one scan job.
#[derive(Debug)]
pub struct ScanState {
    scanned_entries: u64,
    found_blends: u64,
    done: bool,
    status: ScanStatus,
    current_path: Option<String>,
    error: Option<String>,
    result: Option<ScanResult>,
}

impl View for ScanState {
    type V = ScanStateView;

    closed spec fn view(&self) -> ScanStateView {
        ScanStateView {
            scanned_entries: self.scanned_entries,
            found_blends: self.found_blends,
            done: self.done,
            status: self.status,
            current_path: text_of(self.current_path),
            error: text_of(self.error),
            result: result_of(self.result),
        }
    }
}

impl ScanState {
    #[verifier::type_invariant]
    spec fn well_formed(self) -> bool {
        self@.valid()
    }

    /// A job that has just been started: it is scanning, and has met no
    /// entry yet.
    pub fn new() -> (state: ScanState)
        ensures
            state@ == ScanStateView::fresh(),
            state@.valid(),
    {
        ScanState {
            scanned_entries: 0,
            found_blends: 0,
            done: false,
            status: ScanStatus::Scanning,
            current_path: None,
            error: None,
            result: None,
        }
    }

    /// Takes note of an entry that the traversal has met, and says whether
    /// the file behind it is to be decoded.
    pub fn note_entry(self, path: &str, is_file: bool, extension: &str) -> (next: (ScanState, bool))
        ensures
            next.0@ == self@.after_entry(path@, is_file, extension@),
            next.1 == self@.inspects(is_file, extension@),
            next.0@.valid(),
    {
        proof {
            use_type_invariant(&self);
        }
        match self.status {
            ScanStatus::Scanning => {
                let inspect = is_file && wanted_extension(extension);
                let scanned: u64 = self.scanned_entries.saturating_add(1);
                let found: u64 = if inspect {
                    self.found_blends.saturating_add(1)
                } else {
                    self.found_blends
                };
                (
                    ScanState {
                        scanned_entries: scanned,
                        found_blends: found,
                        current_path: Some(String::from_str(path)),
                        ..self
                    },
                    inspect,
                )
            },
            _ => (self, false),
        }
    }

    /// Takes note of an entry on which the traversal has failed.
    pub fn note_walk_error(self, message: &str) -> (next: ScanState)
        ensures
            next@ == self@.after_walk_error(message@),
            next@.valid(),
    {
        proof {
            use_type_invariant(&self);
        }
        match self.status {
            ScanStatus::Scanning => {
                let note = String::from_str("(walk error) ").concat(message);
                ScanState {
                    scanned_entries: self.scanned_entries.saturating_add(1),
                    current_path: Some(note),
                    ..self
                }
            },
            _ => self,
        }
    }

    /// Ends the job with the result of the traversal. The result and the
    /// status `done` appear together.
    pub fn finish(self, result: ScanResult) -> (next: ScanState)
        ensures
            next@ == self@.after_finish(result@),
            next@.valid(),
    {
        proof {
            use_type_invariant(&self);
        }
        match self.status {
            ScanStatus::Scanning => ScanState {
                done: true,
                status: ScanStatus::Done,
                result: Some(result),
                ..self
            },
            _ => self,
        }
    }

    /// A snapshot of the job for a poller, under the identifier `scan_id`.
    /// It holds the result only when the job is done, and never more files
    /// found than entries met.
    pub fn snapshot(&self, scan_id: u64) -> (poll: ScanPoll)
        ensures
            poll@ == self@.snapshot(scan_id),
            poll@.found_blends <= poll@.scanned_entries,
            poll@.result is Some <==> poll@.status == ScanStatus::Done.label(),
    {
        proof {
            use_type_invariant(self);
            reveal_strlit("scanning");
            reveal_strlit("done");
            reveal_strlit("error");
            assert("scanning"@.len() == 8 && "done"@.len() == 4 && "error"@.len() == 5);
        }
        let result = match &self.result {
            Some(found) => Some(found.clone()),
            None => None,
        };
        ScanPoll {
            scan_id,
            status: self.status.name(),
            scanned_entries: self.scanned_entries,
            found_blends: self.found_blends,
            current_path: copy_text(&self.current_path),
            error: copy_text(&self.error),
            result,
        }
    }
}

/// A job that has just been started is valid, and every step keeps a
/// valid job valid: at all times no more files were found than entries
/// were met, and the result is there if and only if the job is done.
pub proof fn lemma_steps_keep_valid(
    state: ScanStateView,
    path: Seq<char>,
    is_file: bool,
    extension: Seq<char>,
    message: Seq<char>,
    result: ScanResultView,
)
    requires
        state.valid(),
    ensures
        ScanStateView::fresh().valid(),
        state.after_entry(path, is_file, extension).valid(),
        state.after_walk_error(message).valid(),
        state.after_finish(result).valid(),
{
}

/// The counters of a job never go down, and a job that is done stays as it
/// is whatever step is taken.
pub proof fn lemma_steps_are_monotonic(
    state: ScanStateView,
    path: Seq<char>,
    is_file: bool,
    extension: Seq<char>,
    message: Seq<char>,
    result: ScanResultView,
)
    ensures
        state.after_entry(path, is_file, extension).scanned_entries >= state.scanned_entries,
        state.after_entry(path, is_file, extension).found_blends >= state.found_blends,
        state.after_walk_error(message).scanned_entries >= state.scanned_entries,
        state.after_walk_error(message).found_blends == state.found_blends,
        state.after_finish(result).scanned_entries == state.scanned_entries,
        state.after_finish(result).found_blends == state.found_blends,
        state.status is Done ==> state.after_entry(path, is_file, extension) == state,
        state.status is Done ==> state.after_walk_error(message) == state,
        state.status is Done ==> state.after_finish(result) == state,
{
}

} // verus!
