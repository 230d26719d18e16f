//! The registry of scan jobs: it issues the identifiers, keeps the state of
//! each job, and answers polls. Identifiers start at 1 and grow by one; no
//! job is ever taken out.

use std::collections::HashMap;
use vstd::prelude::*;
use vstd::std_specs::hash::*;
use vstd::string::*;
use crate::model::{ScanPoll, ScanPollView, ScanResult, ScanResultView, TreeNodeView};
use crate::scan::{ScanState, ScanStateView, ScanStatus};
use crate::tree::{renders, DirView};
use crate::worker::lemma_nothing_found;

verus! {

broadcast use vstd::std_specs::hash::group_hash_axioms;

/// Why a call on the registry failed.
#[derive(Debug, Clone, Copy, PartialEq, Eq, Structural)]
pub enum ScanError {
    /// The folder to scan does not exist.
    PathNotFound,
    /// No job was ever started under the identifier.
    JobNotFound,
    /// Every identifier has been issued.
    IdsExhausted,
}

impl ScanError {
    /// The error in words.
    pub open spec fn text(self) -> Seq<char> {
        match self {
            ScanError::PathNotFound => "Folder does not exist"@,
            ScanError::JobNotFound => "Scan id not found"@,
            ScanError::IdsExhausted => "No scan id is left"@,
        }
    }

    /// The error in words.
    pub fn message(&self) -> (words: String)
        ensures
            words@ == self.text(),
    {
        match self {
            ScanError::PathNotFound => String::from_str("Folder does not exist"),
            ScanError::JobNotFound => String::from_str("Scan id not found"),
            ScanError::IdsExhausted => String::from_str("No scan id is left"),
        }
    }
}

/// The value of a [`ScanRegistry`]: the identifier that the next job gets,
/// and the jobs by their identifiers.
pub struct ScanRegistryView {
    pub next_id: u64,
    pub jobs: Map<u64, ScanStateView>,
}

impl ScanRegistryView {
    /// A registry in which no job was started yet.
    pub open spec fn fresh() -> ScanRegistryView {
        ScanRegistryView { next_id: 1, jobs: Map::empty() }
    }

    /// What holds of every registry at all times: the jobs are those of the
    /// identifiers from 1 up to the next one, and each of them is valid.
    pub open spec fn valid(self) -> bool {
        &&& self.next_id >= 1
        &&& forall|id: u64| self.jobs.contains_key(id) <==> 1 <= id < self.next_id
        &&& forall|id: u64| self.jobs.contains_key(id) ==> (#[trigger] self.jobs[id]).valid()
    }

    /// What a request to scan a folder returns: the next identifier, or
    /// the reason why no job is started.
    pub open spec fn start_answer(self, folder_exists: bool) -> Result<u64, ScanError> {
        if !folder_exists {
            Err(ScanError::PathNotFound)
        } else if self.next_id == u64::MAX {
            Err(ScanError::IdsExhausted)
        } else {
            Ok(self.next_id)
        }
    }

    /// The registry after a request to scan a folder: with one more job,
    /// just started, where the request is granted, and as it was where not.
    pub open spec fn after_start(self, folder_exists: bool) -> ScanRegistryView {
        if self.start_answer(folder_exists) is Ok {
            ScanRegistryView {
                next_id: (self.next_id + 1) as u64,
                jobs: self.jobs.insert(self.next_id, ScanStateView::fresh()),
            }
        } else {
            self
        }
    }

    /// What a poll of `scan_id` returns.
    pub open spec fn poll_answer(self, scan_id: u64) -> Result<ScanPollView, ScanError> {
        if self.jobs.contains_key(scan_id) {
            Ok(self.jobs[scan_id].snapshot(scan_id))
        } else {
            Err(ScanError::JobNotFound)
        }
    }

    /// The registry in which the job `scan_id` has taken a step to `job`;
    /// the registry as it was where there is no such job.
    pub open spec fn with_job(self, scan_id: u64, job: ScanStateView) -> ScanRegistryView {
        if self.jobs.contains_key(scan_id) {
            ScanRegistryView { next_id: self.next_id, jobs: self.jobs.insert(scan_id, job) }
        } else {
            self
        }
    }
}

/// The registry of scan jobs.
#[derive(Debug)]
pub struct ScanRegistry {
    next_id: u64,
    jobs: HashMap<u64, ScanState>,
}

impl View for ScanRegistry {
    type V = ScanRegistryView;

    closed spec fn view(&self) -> ScanRegistryView {
        ScanRegistryView {
            next_id: self.next_id,
            jobs: Map::new(|id: u64| self.jobs@.contains_key(id), |id: u64| self.jobs@[id]@),
        }
    }
}

/// A registry in which no job was started yet.
pub fn scans_map() -> (registry: ScanRegistry)
    ensures
        registry@ == ScanRegistryView::fresh(),
        registry@.valid(),
{
    let registry = ScanRegistry { next_id: 1, jobs: HashMap::new() };
    assert(registry@.jobs =~= Map::empty());
    registry
}

/// The jobs are those of the identifiers from 1 up to `next_id`, and each
/// of them is valid.
spec fn are_valid_jobs(next_id: u64, jobs: Map<u64, ScanState>) -> bool {
    &&& next_id >= 1
    &&& forall|id: u64| #[trigger] jobs.contains_key(id) <==> 1 <= id < next_id
    &&& forall|id: u64| jobs.contains_key(id) ==> (#[trigger] jobs[id])@.valid()
}

impl ScanRegistry {
    #[verifier::type_invariant]
    spec fn well_formed(self) -> bool {
        are_valid_jobs(self.next_id, self.jobs@)
    }

    /// A registry whose jobs are valid has a valid value.
    proof fn lemma_valid(self)
        requires
            are_valid_jobs(self.next_id, self.jobs@),
        ensures
            self@.valid(),
    {
        assert forall|id: u64| self@.jobs.contains_key(id) implies (#[trigger] self@.jobs[id]).valid() by {
            assert(self.jobs@.contains_key(id));
            assert(self.jobs@[id]@.valid());
        }
        assert forall|id: u64| self@.jobs.contains_key(id) <==> 1 <= id < self@.next_id by {
            assert(self@.jobs.contains_key(id) == self.jobs@.contains_key(id));
        }
    }

    /// Takes the registry out of its place and leaves one without jobs
    /// there, until the caller puts the next one in.
    fn take(&mut self) -> (taken: ScanRegistry)
        ensures
            taken == *old(self),
            are_valid_jobs(taken.next_id, taken.jobs@),
    {
        proof {
            use_type_invariant(&*self);
        }
        let mut taken = scans_map();
        core::mem::swap(self, &mut taken);
        taken
    }

    /// Starts a job for a folder, of which the caller says whether it
    /// exists, and returns the job's identifier: one that is at least 1 and
    /// under which no job stood before. The traversal itself is the
    /// caller's to run.
    pub fn start_scan(&mut self, folder_exists: bool) -> (answer: Result<u64, ScanError>)
        ensures
            answer == old(self)@.start_answer(folder_exists),
            final(self)@ == old(self)@.after_start(folder_exists),
            final(self)@.valid(),
            answer matches Ok(scan_id) ==> scan_id >= 1 && !old(self)@.jobs.contains_key(scan_id)
                && final(self)@.jobs.contains_key(scan_id),
    {
        proof {
            use_type_invariant(&*self);
            self.lemma_valid();
        }
        if !folder_exists {
            return Err(ScanError::PathNotFound);
        }
        let ScanRegistry { next_id, mut jobs } = self.take();
        if next_id == u64::MAX {
            *self = ScanRegistry { next_id, jobs };
            assert(self@.jobs =~= old(self)@.jobs);
            return Err(ScanError::IdsExhausted);
        }
        jobs.insert(next_id, ScanState::new());
        *self = ScanRegistry { next_id: next_id + 1, jobs };
        proof {
            self.lemma_valid();
        }
        assert(self@.jobs =~= old(self)@.jobs.insert(next_id, ScanStateView::fresh()));
        Ok(next_id)
    }

    /// A snapshot of the job `scan_id`. The registry stays as it is. The
    /// snapshot holds the result only when the job is done, and never more
    /// files found than entries met.
    pub fn poll_scan(&self, scan_id: u64) -> (answer: Result<ScanPoll, ScanError>)
        ensures
            match answer {
                Ok(poll) => self@.poll_answer(scan_id) == Ok::<ScanPollView, ScanError>(poll@)
                    && poll@.found_blends <= poll@.scanned_entries && (poll@.result is Some
                    <==> poll@.status == ScanStatus::Done.label()),
                Err(error) => self@.poll_answer(scan_id) == Err::<ScanPollView, ScanError>(error),
            },
            self@.valid(),
    {
        proof {
            use_type_invariant(self);
            self.lemma_valid();
        }
        match self.jobs.get(&scan_id) {
            Some(job) => Ok(job.snapshot(scan_id)),
            None => Err(ScanError::JobNotFound),
        }
    }

    /// Takes note, for the job `scan_id`, of an entry that its traversal
    /// has met, and says whether the file behind it is to be decoded.
    pub fn note_entry(&mut self, scan_id: u64, path: &str, is_file: bool, extension: &str) -> (inspect:
        bool)
        ensures
            final(self)@ == old(self)@.with_job(
                scan_id,
                old(self)@.jobs[scan_id].after_entry(path@, is_file, extension@),
            ),
            inspect == (old(self)@.jobs.contains_key(scan_id) && old(self)@.jobs[scan_id].inspects(
                is_file,
                extension@,
            )),
            final(self)@.valid(),
    {
        let ScanRegistry { next_id, mut jobs } = self.take();
        match jobs.remove(&scan_id) {
            Some(job) => {
                let (next, inspect) = job.note_entry(path, is_file, extension);
                jobs.insert(scan_id, next);
                *self = ScanRegistry { next_id, jobs };
                proof {
                    self.lemma_valid();
                }
                assert(self@.jobs =~= old(self)@.jobs.insert(scan_id, next@));
                inspect
            },
            None => {
                *self = ScanRegistry { next_id, jobs };
                proof {
                    self.lemma_valid();
                }
                assert(self@.jobs =~= old(self)@.jobs);
                false
            },
        }
    }

    /// Takes note, for the job `scan_id`, of an entry on which its
    /// traversal has failed.
    pub fn note_walk_error(&mut self, scan_id: u64, message: &str)
        ensures
            final(self)@ == old(self)@.with_job(
                scan_id,
                old(self)@.jobs[scan_id].after_walk_error(message@),
            ),
            final(self)@.valid(),
    {
        let ScanRegistry { next_id, mut jobs } = self.take();
        match jobs.remove(&scan_id) {
            Some(job) => {
                let next = job.note_walk_error(message);
                jobs.insert(scan_id, next);
                *self = ScanRegistry { next_id, jobs };
                proof {
                    self.lemma_valid();
                }
                assert(self@.jobs =~= old(self)@.jobs.insert(scan_id, next@));
            },
            None => {
                *self = ScanRegistry { next_id, jobs };
                proof {
                    self.lemma_valid();
                }
                assert(self@.jobs =~= old(self)@.jobs);
            },
        }
    }

    /// Ends the job `scan_id` with the result of its traversal.
    pub fn finish_scan(&mut self, scan_id: u64, result: ScanResult)
        ensures
            final(self)@ == old(self)@.with_job(
                scan_id,
                old(self)@.jobs[scan_id].after_finish(result@),
            ),
            final(self)@.valid(),
    {
        let ScanRegistry { next_id, mut jobs } = self.take();
        match jobs.remove(&scan_id) {
            Some(job) => {
                let next = job.finish(result);
                jobs.insert(scan_id, next);
                *self = ScanRegistry { next_id, jobs };
                proof {
                    self.lemma_valid();
                }
                assert(self@.jobs =~= old(self)@.jobs.insert(scan_id, next@));
            },
            None => {
                *self = ScanRegistry { next_id, jobs };
                proof {
                    self.lemma_valid();
                }
                assert(self@.jobs =~= old(self)@.jobs);
            },
        }
    }
}

/// A registry without jobs is valid, and it stays valid when a job is
/// started and when a job takes a step to a valid state.
pub proof fn lemma_registry_stays_valid(
    registry: ScanRegistryView,
    folder_exists: bool,
    scan_id: u64,
    job: ScanStateView,
)
    requires
        registry.valid(),
        job.valid(),
    ensures
        ScanRegistryView::fresh().valid(),
        registry.after_start(folder_exists).valid(),
        registry.with_job(scan_id, job).valid(),
{
    let started = registry.after_start(folder_exists);
    assert forall|id: u64| started.jobs.contains_key(id) implies (#[trigger] started.jobs[id]).valid() by {
        if id != registry.next_id {
            assert(registry.jobs.contains_key(id));
        }
    }
    let stepped = registry.with_job(scan_id, job);
    assert forall|id: u64| stepped.jobs.contains_key(id) implies (#[trigger] stepped.jobs[id]).valid() by {
        if id != scan_id {
            assert(registry.jobs.contains_key(id));
        }
    }
}

/// Identifiers are never reused and grow: a job that is started gets an
/// identifier under which no job stood before, and a job started later,
/// whatever steps the jobs took in between, gets a larger one.
pub proof fn lemma_ids_grow(
    registry: ScanRegistryView,
    stepped_id: u64,
    stepped_job: ScanStateView,
)
    requires
        registry.valid(),
    ensures
        ({
            let first = registry.start_answer(true);
            let later = registry.after_start(true).with_job(stepped_id, stepped_job);
            let second = later.start_answer(true);
            &&& first is Ok ==> !registry.jobs.contains_key(first->Ok_0)
            &&& first is Ok ==> later.jobs.contains_key(first->Ok_0)
            &&& first is Ok && second is Ok ==> first->Ok_0 < second->Ok_0
        }),
{
}

/// Jobs do not touch each other: a step of one job leaves every other job,
/// and what a poll of it returns, as it was. So each job reaches `done` by
/// its own steps, wherever the others stand.
pub proof fn lemma_jobs_are_independent(
    registry: ScanRegistryView,
    stepped_id: u64,
    stepped_job: ScanStateView,
    other_id: u64,
    result: ScanResultView,
)
    requires
        other_id != stepped_id,
    ensures
        registry.with_job(stepped_id, stepped_job).jobs.contains_key(other_id)
            == registry.jobs.contains_key(other_id),
        registry.with_job(stepped_id, stepped_job).poll_answer(other_id) == registry.poll_answer(
            other_id,
        ),
        registry.jobs.contains_key(stepped_id) && registry.jobs[stepped_id].status is Scanning
            ==> registry.with_job(
            stepped_id,
            registry.jobs[stepped_id].after_finish(result),
        ).jobs[stepped_id].status is Done,
{
}

/// A poll of a job that is scanning returns the status `scanning` and no
/// result. Once the job has finished, a poll returns the status `done` and
/// the result it finished with, and no later step changes what a poll
/// returns.
pub proof fn lemma_poll_of_a_job(
    job: ScanStateView,
    scan_id: u64,
    result: ScanResultView,
    path: Seq<char>,
    is_file: bool,
    extension: Seq<char>,
    message: Seq<char>,
    other: ScanResultView,
)
    requires
        job.valid(),
        job.status is Scanning,
    ensures
        job.snapshot(scan_id).status == "scanning"@,
        job.snapshot(scan_id).result is None,
        ({
            let done = job.after_finish(result);
            &&& done.snapshot(scan_id).status == "done"@
            &&& done.snapshot(scan_id).result == Some(result)
            &&& done.after_entry(path, is_file, extension).snapshot(scan_id) == done.snapshot(
                scan_id,
            )
            &&& done.after_walk_error(message).snapshot(scan_id) == done.snapshot(scan_id)
            &&& done.after_finish(other).snapshot(scan_id) == done.snapshot(scan_id)
        }),
{
}

/// A poll under an identifier that was never issued fails: no job is
/// found.
pub proof fn lemma_poll_of_unknown_id(registry: ScanRegistryView, scan_id: u64)
    requires
        registry.valid(),
        scan_id < 1 || scan_id >= registry.next_id,
    ensures
        registry.poll_answer(scan_id) == Err::<ScanPollView, ScanError>(
            ScanError::JobNotFound,
        ),
{
}

/// The scan of an empty folder, while identifiers are left: the request is
/// granted, the traversal meets the folder itself and nothing else, and
/// once it has ended with the tree of what it gathered, a poll returns the
/// status `done`, no file found, no error, a tree without children and an
/// empty list.
pub proof fn lemma_scan_of_an_empty_folder(
    registry: ScanRegistryView,
    path: Seq<char>,
    extension: Seq<char>,
    name: Seq<char>,
    tree: TreeNodeView,
)
    requires
        registry.valid(),
        registry.next_id < u64::MAX,
        renders(DirView::empty(), name, path, tree),
    ensures
        ({
            let scan_id = registry.next_id;
            let result = ScanResultView { tree, files: Seq::empty() };
            let started = registry.after_start(true);
            let walked = started.with_job(
                scan_id,
                started.jobs[scan_id].after_entry(path, false, extension),
            );
            let ended = walked.with_job(scan_id, walked.jobs[scan_id].after_finish(result));
            &&& registry.start_answer(true) == Ok::<u64, ScanError>(scan_id)
            &&& ended.poll_answer(scan_id) matches Ok(poll) && {
                &&& poll.status == "done"@
                &&& poll.scanned_entries == 1
                &&& poll.found_blends == 0
                &&& poll.error is None
                &&& poll.result == Some(result)
                &&& tree.children == Some(Seq::<TreeNodeView>::empty())
            }
        }),
{
    lemma_nothing_found(name, path, tree);
}

} // verus!
