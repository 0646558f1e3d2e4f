//! The job engine's shared state: the live status list and the per-job
//! command map, together with the rules that start runs, deduplicate
//! them per uuid, and honor pause, resume, and stop requests at the
//! pipeline's checkpoints.

use vstd::prelude::*;
use vstd::pervasive::VecAdditionalExecFns;
use vstd::string::StringExecFns;
use crate::jobs::{total_steps_for, JobInfoView, JobStatus, JobStatusView};
use crate::kvlist::{kv_get, kv_lookup, kv_set, kv_unique};
use crate::store::JobStore;
use crate::strings::str_eq;

verus! {

broadcast use vstd::string::group_string_axioms;

/// The label a caller sees for a job that has no recorded command.
pub open spec fn not_running_label() -> Seq<char> {
    "not_running"@
}

/// The uuids of the listed statuses are pairwise distinct.
pub open spec fn unique_status_uuids(sts: Seq<JobStatusView>) -> bool {
    forall|j1: int, j2: int|
        0 <= j1 < j2 < sts.len() ==> (#[trigger] sts[j1]).job.uuid != (
        #[trigger] sts[j2]).job.uuid
}

/// The status a freshly started run begins with.
pub open spec fn fresh_status(job: JobInfoView) -> JobStatusView {
    JobStatusView {
        job,
        step: 0,
        total_steps: total_steps_for(job.file_behavior),
        step_title: "Initializing Job"@,
        last_action: "Starting job..."@,
        success: true,
        completed: false,
        progress_permille: 0,
    }
}

/// The terminal status of a run stopped at a checkpoint.
pub open spec fn stopped_status(s: JobStatusView) -> JobStatusView {
    JobStatusView {
        job: s.job,
        step: 0,
        total_steps: s.total_steps,
        step_title: "Job Stopped"@,
        last_action: "The job has been stopped by the user."@,
        success: false,
        completed: true,
        progress_permille: 0,
    }
}

/// What a pipeline checkpoint tells the running stage to do.
#[derive(Clone, Copy, PartialEq, Eq, Structural)]
pub enum CheckpointAction {
    /// No pause or stop is requested: continue with the next unit of
    /// work.
    Proceed,
    /// The run is paused: ask again after a short wait.
    Wait,
    /// The run was stopped and torn down: leave the pipeline.
    Stopped,
}

/// The engine state shared by every pipeline task: the live statuses
/// (at most one per job uuid) and the per-job command values.
pub struct JobEngine {
    pub statuses: Vec<JobStatus>,
    pub commands: Vec<(String, String)>,
}

impl JobEngine {
    /// Statuses are unique per uuid and the command map holds each
    /// key once.
    pub open spec fn wf(self) -> bool {
        &&& unique_status_uuids(self.statuses.deep_view())
        &&& kv_unique(self.commands.deep_view())
    }

    /// The command value a job's checkpoints currently see.
    pub open spec fn command_of(self, uuid: Seq<char>) -> Seq<char> {
        match kv_get(self.commands.deep_view(), uuid) {
            Option::Some(v) => v,
            Option::None => not_running_label(),
        }
    }

    /// Whether some status entry carries this uuid.
    pub open spec fn has_status(self, uuid: Seq<char>) -> bool {
        exists|j: int|
            0 <= j < self.statuses.deep_view().len() && (#[trigger] self.statuses.deep_view()[
                j
            ]).job.uuid == uuid
    }

    /// The index of the status entry carrying this uuid.
    pub open spec fn status_index(self, uuid: Seq<char>) -> int {
        choose|j: int|
            0 <= j < self.statuses.deep_view().len() && (#[trigger] self.statuses.deep_view()[
                j
            ]).job.uuid == uuid
    }

    /// The status entry carrying this uuid.
    pub open spec fn status_view(self, uuid: Seq<char>) -> JobStatusView {
        self.statuses.deep_view()[self.status_index(uuid)]
    }

    /// Whether a non-completed run exists for this uuid.
    pub open spec fn has_active(self, uuid: Seq<char>) -> bool {
        exists|j: int|
            0 <= j < self.statuses.deep_view().len() && (#[trigger] self.statuses.deep_view()[
                j
            ]).job.uuid == uuid && !self.statuses.deep_view()[j].completed
    }

    /// An engine with no statuses and no commands.
    pub fn new() -> (r: JobEngine)
        ensures
            r.wf(),
            r.statuses.deep_view().len() == 0,
            r.commands.deep_view().len() == 0,
    {
        JobEngine { statuses: Vec::new(), commands: Vec::new() }
    }

    /// Sets the command value for a job, as pause, resume, and stop
    /// requests do.
    pub fn set_job_update(&mut self, uuid: String, update: String)
        requires
            old(self).wf(),
        ensures
            final(self).wf(),
            final(self).statuses == old(self).statuses,
            final(self).command_of(uuid@) == update@,
            forall|k2: Seq<char>|
                k2 != uuid@ ==> final(self).command_of(k2) == old(self).command_of(k2),
    {
        kv_set(&mut self.commands, uuid, update);
    }

    /// Reads the command value for a job; a job never started or
    /// already torn down reads as `not_running`.
    pub fn get_job_update(&self, uuid: String) -> (r: String)
        requires
            self.wf(),
        ensures
            r@ == self.command_of(uuid@),
    {
        match kv_lookup(&self.commands, uuid.as_str()) {
            Option::Some(v) => v,
            Option::None => String::from_str("not_running"),
        }
    }

    fn find_status(&self, uuid: &str) -> (r: Option<usize>)
        ensures
            (r is Some) == self.has_status(uuid@),
            r is Some ==> r->Some_0 < self.statuses@.len() && self.statuses.deep_view()[
                r->Some_0 as int
            ].job.uuid == uuid@,
    {
        let mut i: usize = 0;
        while i < self.statuses.len()
            invariant
                i <= self.statuses.len(),
                forall|j: int|
                    0 <= j < i ==> (#[trigger] self.statuses.deep_view()[j]).job.uuid != uuid@,
            decreases self.statuses.len() - i,
        {
            if str_eq(self.statuses[i].job.uuid.as_str(), uuid) {
                assert(self.statuses.deep_view()[i as int].job.uuid == uuid@);
                return Option::Some(i);
            }
            i += 1;
        }
        Option::None
    }

    /// Removes the status entry for a job; reports whether one
    /// existed.
    pub fn clear_job(&mut self, uuid: &str) -> (r: bool)
        requires
            old(self).wf(),
        ensures
            final(self).wf(),
            final(self).commands == old(self).commands,
            r == old(self).has_status(uuid@),
            r ==> final(self).statuses.deep_view() == old(self).statuses.deep_view().remove(
                old(self).status_index(uuid@),
            ),
            !r ==> *final(self) == *old(self),
    {
        let ghost pre = self.statuses.deep_view();
        match self.find_status(uuid) {
            Option::Some(i) => {
                self.statuses.remove(i);
                proof {
                    let post = self.statuses.deep_view();
                    let j = old(self).status_index(uuid@);
                    assert(pre[j].job.uuid == uuid@);
                    if j != i as int {
                        assert(false);
                    }
                    assert(post =~= pre.remove(i as int));
                    assert forall|j1: int, j2: int| 0 <= j1 < j2 < post.len() implies (
                    #[trigger] post[j1]).job.uuid != (#[trigger] post[j2]).job.uuid by {
                        let o1 = if j1 < i as int {
                            j1
                        } else {
                            j1 + 1
                        };
                        let o2 = if j2 < i as int {
                            j2
                        } else {
                            j2 + 1
                        };
                        assert(pre[o1].job.uuid != pre[o2].job.uuid);
                    }
                }
                true
            },
            Option::None => false,
        }
    }

    /// Every live status, cloned out in order.
    pub fn get_all_job_statuses(&self) -> (r: Vec<JobStatus>)
        ensures
            r.deep_view() == self.statuses.deep_view(),
    {
        let r = self.statuses.clone();
        proof {
            assert(r.deep_view() =~= self.statuses.deep_view());
        }
        r
    }

    /// Removes exactly the completed status entries.
    pub fn clear_completed_jobs(&mut self)
        requires
            old(self).wf(),
        ensures
            final(self).wf(),
            final(self).commands == old(self).commands,
            final(self).statuses.deep_view() == old(self).statuses.deep_view().filter(
                |s: JobStatusView| !s.completed,
            ),
    {
        let ghost pred = |s: JobStatusView| !s.completed;
        let ghost pre = self.statuses.deep_view();
        let mut kept: Vec<JobStatus> = Vec::new();
        let mut i: usize = 0;
        while i < self.statuses.len()
            invariant
                i <= self.statuses.len(),
                pred == (|s: JobStatusView| !s.completed),
                pre == self.statuses.deep_view(),
                kept.deep_view() == pre.take(i as int).filter(pred),
            decreases self.statuses.len() - i,
        {
            let ghost prev = kept.deep_view();
            if !self.statuses[i].completed {
                kept.push(self.statuses[i].clone());
                proof {
                    assert(kept.deep_view() =~= prev.push(pre[i as int]));
                }
            }
            proof {
                reveal(Seq::filter);
                assert(pre.take(i + 1).drop_last() =~= pre.take(i as int));
                assert(pre.take(i + 1).last() == pre[i as int]);
                assert(self.statuses.deep_view()[i as int].completed == self.statuses[
                    i as int
                ].completed);
            }
            i += 1;
        }
        proof {
            assert(pre.take(pre.len() as int) =~= pre);
        }
        self.statuses = kept;
        proof {
            let post = self.statuses.deep_view();
            assert forall|j1: int, j2: int| 0 <= j1 < j2 < post.len() implies (
            #[trigger] post[j1]).job.uuid != (#[trigger] post[j2]).job.uuid by {
                lemma_filter_distinct(pre, pred, j1, j2);
            }
        }
    }

    /// How many runs are live (non-completed), saturating at 255.
    pub fn get_active_jobs(&self) -> (r: u8)
        ensures
            r as int == {
                let c = self.statuses.deep_view().filter(|s: JobStatusView| !s.completed).len();
                if c > 255 {
                    255int
                } else {
                    c as int
                }
            },
    {
        let ghost pred = |s: JobStatusView| !s.completed;
        let ghost pre = self.statuses.deep_view();
        let mut count: u8 = 0;
        let mut i: usize = 0;
        while i < self.statuses.len()
            invariant
                i <= self.statuses.len(),
                pred == (|s: JobStatusView| !s.completed),
                pre == self.statuses.deep_view(),
                count as int == {
                    let c = pre.take(i as int).filter(pred).len();
                    if c > 255 {
                        255int
                    } else {
                        c as int
                    }
                },
            decreases self.statuses.len() - i,
        {
            proof {
                reveal(Seq::filter);
                assert(pre.take(i + 1).drop_last() =~= pre.take(i as int));
                assert(pre.take(i + 1).last() == pre[i as int]);
                assert(self.statuses.deep_view()[i as int].completed == self.statuses[
                    i as int
                ].completed);
            }
            if !self.statuses[i].completed {
                if count < 255 {
                    count += 1;
                }
            }
            proof {
                assert(pre.take(i + 1).filter(pred).len() <= pre.take(i + 1).len()) by {
                    pre.take(i + 1).lemma_filter_len(pred);
                }
            }
            i += 1;
        }
        proof {
            assert(pre.take(pre.len() as int) =~= pre);
        }
        count
    }
}

impl JobEngine {
    /// Rewrites every reported field of a job's status; the status of
    /// an unknown uuid stays untouched.
    pub fn update_job_status(
        &mut self,
        uuid: &str,
        step: u32,
        step_title: String,
        last_action: String,
        success: bool,
        completed: bool,
        progress_permille: i32,
    )
        requires
            old(self).wf(),
        ensures
            final(self).wf(),
            final(self).commands == old(self).commands,
            old(self).has_status(uuid@) ==> final(self).statuses.deep_view() == old(
                self,
            ).statuses.deep_view().update(
                old(self).status_index(uuid@),
                JobStatusView {
                    job: old(self).status_view(uuid@).job,
                    step,
                    total_steps: old(self).status_view(uuid@).total_steps,
                    step_title: step_title@,
                    last_action: last_action@,
                    success,
                    completed,
                    progress_permille,
                },
            ),
            !old(self).has_status(uuid@) ==> *final(self) == *old(self),
    {
        let ghost pre = self.statuses.deep_view();
        match self.find_status(uuid) {
            Option::Some(i) => {
                let mut entry = self.statuses[i].clone();
                entry.step = step;
                entry.step_title = step_title;
                entry.last_action = last_action;
                entry.success = success;
                entry.completed = completed;
                entry.progress_permille = progress_permille;
                let ghost ev = entry@;
                self.statuses.set(i, entry);
                proof {
                    let post = self.statuses.deep_view();
                    let j = old(self).status_index(uuid@);
                    assert(pre[j].job.uuid == uuid@);
                    if j != i as int {
                        assert(false);
                    }
                    assert(post =~= pre.update(i as int, ev));
                    assert forall|j1: int, j2: int| 0 <= j1 < j2 < post.len() implies (
                    #[trigger] post[j1]).job.uuid != (#[trigger] post[j2]).job.uuid by {
                        assert(pre[j1].job.uuid != pre[j2].job.uuid);
                        assert(ev.job.uuid == pre[i as int].job.uuid);
                    }
                }
            },
            Option::None => {},
        }
    }

    /// Rewrites only the last-action line of a job's status.
    pub fn update_last_action(&mut self, uuid: &str, last_action: String)
        requires
            old(self).wf(),
        ensures
            final(self).wf(),
            final(self).commands == old(self).commands,
            old(self).has_status(uuid@) ==> final(self).statuses.deep_view() == old(
                self,
            ).statuses.deep_view().update(
                old(self).status_index(uuid@),
                JobStatusView {
                    last_action: last_action@,
                    ..old(self).status_view(uuid@)
                },
            ),
            !old(self).has_status(uuid@) ==> *final(self) == *old(self),
    {
        let ghost pre = self.statuses.deep_view();
        match self.find_status(uuid) {
            Option::Some(i) => {
                let mut entry = self.statuses[i].clone();
                entry.last_action = last_action;
                let ghost ev = entry@;
                self.statuses.set(i, entry);
                proof {
                    let post = self.statuses.deep_view();
                    let j = old(self).status_index(uuid@);
                    assert(pre[j].job.uuid == uuid@);
                    if j != i as int {
                        assert(false);
                    }
                    assert(post =~= pre.update(i as int, ev));
                    assert forall|j1: int, j2: int| 0 <= j1 < j2 < post.len() implies (
                    #[trigger] post[j1]).job.uuid != (#[trigger] post[j2]).job.uuid by {
                        assert(pre[j1].job.uuid != pre[j2].job.uuid);
                        assert(ev.job.uuid == pre[i as int].job.uuid);
                    }
                }
            },
            Option::None => {},
        }
    }

    /// Rewrites only the progress fraction of a job's status.
    pub fn update_job_progress(&mut self, uuid: &str, progress_permille: i32)
        requires
            old(self).wf(),
        ensures
            final(self).wf(),
            final(self).commands == old(self).commands,
            old(self).has_status(uuid@) ==> final(self).statuses.deep_view() == old(
                self,
            ).statuses.deep_view().update(
                old(self).status_index(uuid@),
                JobStatusView {
                    progress_permille,
                    ..old(self).status_view(uuid@)
                },
            ),
            !old(self).has_status(uuid@) ==> *final(self) == *old(self),
    {
        let ghost pre = self.statuses.deep_view();
        match self.find_status(uuid) {
            Option::Some(i) => {
                let mut entry = self.statuses[i].clone();
                entry.progress_permille = progress_permille;
                let ghost ev = entry@;
                self.statuses.set(i, entry);
                proof {
                    let post = self.statuses.deep_view();
                    let j = old(self).status_index(uuid@);
                    assert(pre[j].job.uuid == uuid@);
                    if j != i as int {
                        assert(false);
                    }
                    assert(post =~= pre.update(i as int, ev));
                    assert forall|j1: int, j2: int| 0 <= j1 < j2 < post.len() implies (
                    #[trigger] post[j1]).job.uuid != (#[trigger] post[j2]).job.uuid by {
                        assert(pre[j1].job.uuid != pre[j2].job.uuid);
                        assert(ev.job.uuid == pre[i as int].job.uuid);
                    }
                }
            },
            Option::None => {},
        }
    }
}

/// How a successful `start_job` call relates the engine state before
/// and after: no run for the uuid was live; any stale status for it is
/// gone; a fresh status for the job stands at the end of the list; and
/// the job's command reads `running` while every other command keeps
/// its value.
pub open spec fn start_transition(pre: JobEngine, post: JobEngine, job: JobInfoView) -> bool {
    &&& !pre.has_active(job.uuid)
    &&& post.statuses.deep_view() == (if pre.has_status(job.uuid) {
        pre.statuses.deep_view().remove(pre.status_index(job.uuid))
    } else {
        pre.statuses.deep_view()
    }).push(fresh_status(job))
    &&& post.command_of(job.uuid) == "running"@
    &&& forall|k2: Seq<char>| k2 != job.uuid ==> post.command_of(k2) == pre.command_of(k2)
}

impl JobEngine {
    /// Starts a run for the stored job with this uuid.  Returns false
    /// and changes nothing while a non-completed run for the uuid
    /// exists; otherwise any stale status is cleared, a fresh status
    /// with the job's step count is recorded, and the job's command
    /// is set to `running`.
    pub fn start_job(&mut self, store: &JobStore, uuid: String) -> (r: bool)
        requires
            old(self).wf(),
            store.wf(),
            old(self).has_active(uuid@) || store.has_job(uuid@),
        ensures
            final(self).wf(),
            r == !old(self).has_active(uuid@),
            !r ==> *final(self) == *old(self),
            r ==> start_transition(*old(self), *final(self), store.job_view(uuid@)),
            r ==> store.job_view(uuid@).uuid == uuid@,
    {
        let already_running = match self.find_status(uuid.as_str()) {
            Option::Some(i) => !self.statuses[i].completed,
            Option::None => false,
        };
        proof {
            if old(self).has_status(uuid@) {
                let i = old(self).status_index(uuid@);
                assert(old(self).statuses.deep_view()[i].job.uuid == uuid@);
                // by uniqueness, the found index is the status index,
                // so the flag read is the one the spec speaks of
                assert forall|j: int|
                    0 <= j < old(self).statuses.deep_view().len() && (
                    #[trigger] old(self).statuses.deep_view()[j]).job.uuid == uuid@ implies j
                    == i by {
                    if j != i {
                        assert(false);
                    }
                }
            }
            assert(already_running == old(self).has_active(uuid@));
        }
        if already_running {
            return false;
        }
        self.clear_job(uuid.as_str());
        let job = store.get_job_by_uuid(uuid.as_str());
        let total_steps: u32 = if str_eq(job.file_behavior.as_str(), "copy") {
            4
        } else {
            5
        };
        let status = JobStatus {
            job,
            step: 0,
            total_steps,
            step_title: String::from_str("Initializing Job"),
            last_action: String::from_str("Starting job..."),
            success: true,
            completed: false,
            progress_permille: 0,
        };
        let ghost sv = status@;
        let ghost mid = *self;
        self.statuses.push(status);
        proof {
            assert(sv == fresh_status(store.job_view(uuid@)));
            let midv = mid.statuses.deep_view();
            let post = self.statuses.deep_view();
            assert(post =~= midv.push(sv));
            assert forall|j1: int, j2: int| 0 <= j1 < j2 < post.len() implies (
            #[trigger] post[j1]).job.uuid != (#[trigger] post[j2]).job.uuid by {
                if j2 == midv.len() {
                    assert(post[j1] == midv[j1]);
                    if old(self).has_status(uuid@) {
                        // the stale entry for this uuid is gone
                        let idx = old(self).status_index(uuid@);
                        let prev = old(self).statuses.deep_view();
                        if post[j1].job.uuid == uuid@ {
                            let o1 = if j1 < idx {
                                j1
                            } else {
                                j1 + 1
                            };
                            assert(midv[j1] == prev[o1]);
                            assert(prev[idx].job.uuid == uuid@);
                            assert(o1 != idx);
                            assert(false);
                        }
                    } else {
                        if post[j1].job.uuid == uuid@ {
                            assert(old(self).has_status(uuid@));
                        }
                    }
                } else {
                    assert(midv[j1].job.uuid != midv[j2].job.uuid);
                }
            }
        }
        self.set_job_update(uuid, String::from_str("running"));
        true
    }

    /// Consumes the command value at a pipeline checkpoint: a pause
    /// request turns into the paused state, a paused job keeps
    /// waiting, and a stop request tears the run down — the command
    /// entry is cleared back to `not_running` and the status becomes
    /// terminal and unsuccessful.
    pub fn handle_pause_stop(&mut self, uuid: String) -> (r: CheckpointAction)
        requires
            old(self).wf(),
        ensures
            final(self).wf(),
            old(self).command_of(uuid@) == "pause_requested"@ ==> r is Wait && final(self).statuses == old(self).statuses && final(self).command_of(uuid@) == "paused"@ && (
            forall|k2: Seq<char>|
                k2 != uuid@ ==> final(self).command_of(k2) == old(self).command_of(k2)),
            old(self).command_of(uuid@) == "paused"@ ==> r is Wait && *final(self) == *old(self),
            old(self).command_of(uuid@) == "stop_requested"@ ==> {
                &&& r is Stopped
                &&& final(self).command_of(uuid@) == not_running_label()
                &&& (forall|k2: Seq<char>|
                    k2 != uuid@ ==> final(self).command_of(k2) == old(self).command_of(k2))
                &&& old(self).has_status(uuid@) ==> final(self).statuses.deep_view() == old(
                    self,
                ).statuses.deep_view().update(
                    old(self).status_index(uuid@),
                    stopped_status(old(self).status_view(uuid@)),
                )
                &&& !old(self).has_status(uuid@) ==> final(self).statuses == old(self).statuses
            },
            old(self).command_of(uuid@) != "pause_requested"@ && old(self).command_of(uuid@)
                != "paused"@ && old(self).command_of(uuid@) != "stop_requested"@ ==> r is Proceed
                && *final(self) == *old(self),
    {
        proof {
            reveal_strlit("pause_requested");
            reveal_strlit("paused");
            reveal_strlit("stop_requested");
            reveal_strlit("not_running");
            // the literals' lengths differ pairwise, so the branches
            // below are mutually exclusive
            assert("pause_requested"@.len() == 15);
            assert("paused"@.len() == 6);
            assert("stop_requested"@.len() == 14);
            assert("not_running"@.len() == 11);
        }
        let cmd = self.get_job_update(uuid.clone());
        if str_eq(cmd.as_str(), "pause_requested") {
            self.set_job_update(uuid, String::from_str("paused"));
            CheckpointAction::Wait
        } else if str_eq(cmd.as_str(), "paused") {
            CheckpointAction::Wait
        } else if str_eq(cmd.as_str(), "stop_requested") {
            self.set_job_update(uuid.clone(), String::from_str("not_running"));
            self.update_job_status(
                uuid.as_str(),
                0,
                String::from_str("Job Stopped"),
                String::from_str("The job has been stopped by the user."),
                false,
                true,
                0,
            );
            CheckpointAction::Stopped
        } else {
            CheckpointAction::Proceed
        }
    }
}

impl JobEngine {
    /// Ends a run as failed at the given step: the status becomes
    /// terminal and unsuccessful with the given title and message,
    /// and the job's command is cleared back to `not_running`.
    pub fn fail_job(&mut self, uuid: &str, step: u32, step_title: String, message: String)
        requires
            old(self).wf(),
        ensures
            final(self).wf(),
            final(self).command_of(uuid@) == not_running_label(),
            forall|k2: Seq<char>|
                k2 != uuid@ ==> final(self).command_of(k2) == old(self).command_of(k2),
            old(self).has_status(uuid@) ==> final(self).statuses.deep_view() == old(
                self,
            ).statuses.deep_view().update(
                old(self).status_index(uuid@),
                JobStatusView {
                    job: old(self).status_view(uuid@).job,
                    step,
                    total_steps: old(self).status_view(uuid@).total_steps,
                    step_title: step_title@,
                    last_action: message@,
                    success: false,
                    completed: true,
                    progress_permille: 0,
                },
            ),
            !old(self).has_status(uuid@) ==> final(self).statuses == old(self).statuses,
    {
        proof {
            reveal_strlit("not_running");
        }
        self.set_job_update(uuid.to_owned(), String::from_str("not_running"));
        self.update_job_status(uuid, step, step_title, message, false, true, 0);
    }

    /// Ends a run as completed at the given step: the status becomes
    /// terminal and successful with full progress, and the job's
    /// command is cleared back to `not_running`.
    pub fn complete_job(&mut self, uuid: &str, step: u32, message: String)
        requires
            old(self).wf(),
        ensures
            final(self).wf(),
            final(self).command_of(uuid@) == not_running_label(),
            forall|k2: Seq<char>|
                k2 != uuid@ ==> final(self).command_of(k2) == old(self).command_of(k2),
            old(self).has_status(uuid@) ==> final(self).statuses.deep_view() == old(
                self,
            ).statuses.deep_view().update(
                old(self).status_index(uuid@),
                JobStatusView {
                    job: old(self).status_view(uuid@).job,
                    step,
                    total_steps: old(self).status_view(uuid@).total_steps,
                    step_title: "Job completed."@,
                    last_action: message@,
                    success: true,
                    completed: true,
                    progress_permille: 1000,
                },
            ),
            !old(self).has_status(uuid@) ==> final(self).statuses == old(self).statuses,
    {
        proof {
            reveal_strlit("not_running");
        }
        self.set_job_update(uuid.to_owned(), String::from_str("not_running"));
        self.update_job_status(
            uuid,
            step,
            String::from_str("Job completed."),
            message,
            true,
            true,
            1000,
        );
    }
}

/// A run of a copying job takes four steps; a run of a moving job
/// takes five, the deletion of the originals being the fifth.
pub proof fn lemma_total_steps(job: JobInfoView)
    ensures
        job.file_behavior == "copy"@ ==> fresh_status(job).total_steps == 4,
        job.file_behavior == "move"@ ==> fresh_status(job).total_steps == 5,
{
    reveal_strlit("copy");
    reveal_strlit("move");
    assert("copy"@.len() == 4);
    assert("copy"@[0] == 'c');
    assert("move"@[0] == 'm');
}

/// After a successful start, exactly one status entry carries the
/// job's uuid and it is not completed: a second `start_job` for the
/// same uuid is refused until that run completes or is cleared.
pub proof fn lemma_start_is_exclusive(pre: JobEngine, post: JobEngine, job: JobInfoView)
    requires
        pre.wf(),
        post.wf(),
        start_transition(pre, post, job),
    ensures
        post.has_active(job.uuid),
        post.statuses.deep_view().filter(
            |s: JobStatusView| s.job.uuid == job.uuid,
        ).len() == 1,
{
    let postv = post.statuses.deep_view();
    let cleared = if pre.has_status(job.uuid) {
        pre.statuses.deep_view().remove(pre.status_index(job.uuid))
    } else {
        pre.statuses.deep_view()
    };
    assert(postv == cleared.push(fresh_status(job)));
    assert(postv[postv.len() - 1] == fresh_status(job));
    assert(post.has_active(job.uuid));
    let pred = |s: JobStatusView| s.job.uuid == job.uuid;
    assert forall|j: int| 0 <= j < cleared.len() implies !pred(cleared[j]) by {
        assert(postv[j] == cleared[j]);
        assert(postv[postv.len() - 1].job.uuid == job.uuid);
        if cleared[j].job.uuid == job.uuid {
            assert(postv[j].job.uuid == postv[postv.len() - 1].job.uuid);
            assert(false);
        }
    }
    lemma_filter_none(cleared, pred);
    reveal(Seq::filter);
    assert(postv.drop_last() =~= cleared);
    assert(postv.filter(pred) =~= cleared.filter(pred).push(fresh_status(job)));
}

/// A list with no element satisfying the predicate filters to the
/// empty list.
proof fn lemma_filter_none(sts: Seq<JobStatusView>, pred: spec_fn(JobStatusView) -> bool)
    requires
        forall|j: int| 0 <= j < sts.len() ==> !pred(#[trigger] sts[j]),
    ensures
        sts.filter(pred).len() == 0,
    decreases sts.len(),
{
    reveal(Seq::filter);
    if sts.len() > 0 {
        lemma_filter_none(sts.drop_last(), pred);
    }
}

/// Two distinct positions of a filtered unique-uuid status list never
/// carry the same uuid.
proof fn lemma_filter_distinct(
    sts: Seq<JobStatusView>,
    pred: spec_fn(JobStatusView) -> bool,
    p1: int,
    p2: int,
)
    requires
        unique_status_uuids(sts),
        0 <= p1 < p2 < sts.filter(pred).len(),
    ensures
        sts.filter(pred)[p1].job.uuid != sts.filter(pred)[p2].job.uuid,
    decreases sts.len(),
{
    reveal(Seq::filter);
    if sts.len() > 0 {
        let sub = sts.drop_last();
        assert(unique_status_uuids(sub)) by {
            assert forall|j1: int, j2: int| 0 <= j1 < j2 < sub.len() implies (
            #[trigger] sub[j1]).job.uuid != (#[trigger] sub[j2]).job.uuid by {
                assert(sts[j1].job.uuid != sts[j2].job.uuid);
            }
        }
        let f = sts.filter(pred);
        let fsub = sub.filter(pred);
        if pred(sts.last()) {
            if p2 < fsub.len() {
                lemma_filter_distinct(sub, pred, p1, p2);
            } else {
                // f[p2] is the last element; f[p1] came from the front
                lemma_filter_from(sub, pred, p1);
                let j = choose|j: int| 0 <= j < sub.len() && fsub[p1] == sub[j];
                assert(sts[j].job.uuid != sts[sts.len() - 1].job.uuid);
            }
        } else {
            lemma_filter_distinct(sub, pred, p1, p2);
        }
    }
}

/// Every element of a filtered list occurs in the list.
proof fn lemma_filter_from(
    sts: Seq<JobStatusView>,
    pred: spec_fn(JobStatusView) -> bool,
    p: int,
)
    requires
        0 <= p < sts.filter(pred).len(),
    ensures
        exists|j: int| 0 <= j < sts.len() && sts.filter(pred)[p] == sts[j],
    decreases sts.len(),
{
    reveal(Seq::filter);
    if sts.len() > 0 {
        let sub = sts.drop_last();
        let fsub = sub.filter(pred);
        if p < fsub.len() {
            lemma_filter_from(sub, pred, p);
            let j = choose|j: int| 0 <= j < sub.len() && fsub[p] == sub[j];
            assert(sts.filter(pred)[p] == sts[j]);
        } else {
            assert(sts.filter(pred)[p] == sts[sts.len() - 1]);
        }
    }
}

} // verus!
