//! The in-memory job store: the definitions of every configured job,
//! keyed by job uuid.  Callers persist its contents as a flat document
//! and refill it on startup; every rule about what the store holds is
//! decided here.

use vstd::prelude::*;
use vstd::pervasive::VecAdditionalExecFns;
use vstd::string::StrSliceExecFns;
use crate::jobs::{JobInfo, JobInfoView};
use crate::strings::str_eq;

verus! {

/// The job definitions, each identified by its uuid.
pub struct JobStore {
    pub jobs: Vec<JobInfo>,
}

/// The uuids of the listed jobs are pairwise distinct.
pub open spec fn unique_job_uuids(jobs: Seq<JobInfoView>) -> bool {
    forall|j1: int, j2: int|
        0 <= j1 < j2 < jobs.len() ==> (#[trigger] jobs[j1]).uuid != (#[trigger] jobs[j2]).uuid
}

impl JobStore {
    /// The store is well formed when no uuid occurs twice.
    pub open spec fn wf(self) -> bool {
        unique_job_uuids(self.jobs.deep_view())
    }

    /// Whether a job with this uuid is stored.
    pub open spec fn has_job(self, uuid: Seq<char>) -> bool {
        exists|j: int|
            0 <= j < self.jobs.deep_view().len() && (#[trigger] self.jobs.deep_view()[j]).uuid
                == uuid
    }

    /// The index of the job with this uuid.
    pub open spec fn job_index(self, uuid: Seq<char>) -> int {
        choose|j: int|
            0 <= j < self.jobs.deep_view().len() && (#[trigger] self.jobs.deep_view()[j]).uuid
                == uuid
    }

    /// The stored job with this uuid.
    pub open spec fn job_view(self, uuid: Seq<char>) -> JobInfoView {
        self.jobs.deep_view()[self.job_index(uuid)]
    }

    /// An empty store.
    pub fn new() -> (r: JobStore)
        ensures
            r.wf(),
            r.jobs.deep_view().len() == 0,
    {
        JobStore { jobs: Vec::new() }
    }

    /// Replaces the whole job list, as reloading the persisted
    /// document does.
    pub fn set_all_jobs(&mut self, jobs: Vec<JobInfo>) -> (r: bool)
        requires
            unique_job_uuids(jobs.deep_view()),
        ensures
            r,
            final(self).wf(),
            final(self).jobs.deep_view() == jobs.deep_view(),
    {
        self.jobs = jobs;
        true
    }

    /// All stored jobs, cloned out in order.
    pub fn get_all_jobs(&self) -> (r: Vec<JobInfo>)
        ensures
            r.deep_view() == self.jobs.deep_view(),
    {
        let r = self.jobs.clone();
        proof {
            assert(r.deep_view() =~= self.jobs.deep_view());
        }
        r
    }

    fn find_job(&self, uuid: &str) -> (r: Option<usize>)
        ensures
            (r is Some) == self.has_job(uuid@),
            r is Some ==> r->Some_0 < self.jobs@.len() && self.jobs.deep_view()[
                r->Some_0 as int
            ].uuid == uuid@,
    {
        let mut i: usize = 0;
        while i < self.jobs.len()
            invariant
                i <= self.jobs.len(),
                forall|j: int| 0 <= j < i ==> (#[trigger] self.jobs.deep_view()[j]).uuid != uuid@,
            decreases self.jobs.len() - i,
        {
            if str_eq(self.jobs[i].uuid.as_str(), uuid) {
                assert(self.jobs.deep_view()[i as int].uuid == uuid@);
                return Option::Some(i);
            }
            i += 1;
        }
        Option::None
    }

    /// The stored job with this uuid.  Callers only ask for uuids
    /// they know to be stored.
    pub fn get_job_by_uuid(&self, uuid: &str) -> (r: JobInfo)
        requires
            self.wf(),
            self.has_job(uuid@),
        ensures
            r@ == self.job_view(uuid@),
    {
        let i = match self.find_job(uuid) {
            Option::Some(i) => i,
            Option::None => unreached(),
        };
        let r = self.jobs[i].clone();
        proof {
            let dv = self.jobs.deep_view();
            let j = self.job_index(uuid@);
            assert(dv[j].uuid == uuid@);
            if j != i as int {
                assert(false);
            }
        }
        r
    }

    /// Removes the job with this uuid; reports whether one was
    /// stored.
    pub fn remove_job_by_uuid(&mut self, uuid: &str) -> (r: bool)
        requires
            old(self).wf(),
        ensures
            final(self).wf(),
            r == old(self).has_job(uuid@),
            r ==> final(self).jobs.deep_view() == old(self).jobs.deep_view().remove(
                old(self).job_index(uuid@),
            ),
            !r ==> *final(self) == *old(self),
    {
        let ghost pre = self.jobs.deep_view();
        match self.find_job(uuid) {
            Option::Some(i) => {
                self.jobs.remove(i);
                proof {
                    let post = self.jobs.deep_view();
                    let j = old(self).job_index(uuid@);
                    assert(pre[j].uuid == uuid@);
                    if j != i as int {
                        assert(false);
                    }
                    assert(post =~= pre.remove(i as int));
                    assert forall|j1: int, j2: int| 0 <= j1 < j2 < post.len() implies (
                    #[trigger] post[j1]).uuid != (#[trigger] post[j2]).uuid by {
                        let o1 = if j1 < i as int {
                            j1
                        } else {
                            j1 + 1
                        };
                        let o2 = if j2 < i as int {
                            j2
                        } else {
                            j2 + 1
                        };
                        assert(pre[o1].uuid != pre[o2].uuid);
                    }
                }
                true
            },
            Option::None => false,
        }
    }

    /// Inserts the job, replacing any stored job with the same uuid.
    pub fn upsert_job(&mut self, job: JobInfo)
        requires
            old(self).wf(),
        ensures
            final(self).wf(),
            old(self).has_job(job@.uuid) ==> final(self).jobs.deep_view() == old(
                self,
            ).jobs.deep_view().update(old(self).job_index(job@.uuid), job@),
            !old(self).has_job(job@.uuid) ==> final(self).jobs.deep_view() == old(
                self,
            ).jobs.deep_view().push(job@),
    {
        let ghost pre = self.jobs.deep_view();
        let ghost jv = job@;
        match self.find_job(job.uuid.as_str()) {
            Option::Some(i) => {
                self.jobs.set(i, job);
                proof {
                    let post = self.jobs.deep_view();
                    let j = old(self).job_index(jv.uuid);
                    assert(pre[j].uuid == jv.uuid);
                    if j != i as int {
                        assert(false);
                    }
                    assert(post =~= pre.update(i as int, jv));
                    assert forall|j1: int, j2: int| 0 <= j1 < j2 < post.len() implies (
                    #[trigger] post[j1]).uuid != (#[trigger] post[j2]).uuid by {
                        assert(pre[j1].uuid != pre[j2].uuid);
                        assert(pre[i as int].uuid == jv.uuid);
                    }
                }
            },
            Option::None => {
                self.jobs.push(job);
                proof {
                    let post = self.jobs.deep_view();
                    assert(post =~= pre.push(jv));
                    assert forall|j1: int, j2: int| 0 <= j1 < j2 < post.len() implies (
                    #[trigger] post[j1]).uuid != (#[trigger] post[j2]).uuid by {
                        if j2 == pre.len() {
                            assert(post[j1] == pre[j1]);
                            if post[j1].uuid == jv.uuid {
                                assert(old(self).has_job(jv.uuid));
                            }
                        } else {
                            assert(pre[j1].uuid != pre[j2].uuid);
                        }
                    }
                }
            },
        }
    }

    /// Registers a job definition: a `special:thisdrive` output device
    /// is first replaced by the concrete volume identity the caller
    /// resolved; registration is refused when that identity is absent
    /// or empty.  On success the job is upserted by uuid.
    pub fn setup_job(&mut self, job: JobInfo, drive_identity: Option<String>) -> (r: bool)
        requires
            old(self).wf(),
        ensures
            final(self).wf(),
            r == !(job@.output_device == "special:thisdrive"@ && (drive_identity.deep_view()
                is None || drive_identity.deep_view()->Some_0.len() == 0)),
            !r ==> *final(self) == *old(self),
            r && job@.output_device != "special:thisdrive"@ ==> spec_upserted(
                old(self).jobs.deep_view(),
                final(self).jobs.deep_view(),
                *old(self),
                job@,
            ),
            r && job@.output_device == "special:thisdrive"@ ==> spec_upserted(
                old(self).jobs.deep_view(),
                final(self).jobs.deep_view(),
                *old(self),
                JobInfoView { output_device: drive_identity.deep_view()->Some_0, ..job@ },
            ),
    {
        if str_eq(job.output_device.as_str(), "special:thisdrive") {
            match drive_identity {
                Option::Some(id) => {
                    if id.as_str().unicode_len() == 0 {
                        return false;
                    }
                    let mut resolved = job;
                    resolved.output_device = id;
                    self.upsert_job(resolved);
                    true
                },
                Option::None => false,
            }
        } else {
            self.upsert_job(job);
            true
        }
    }
}

/// How an upsert relates the job list before and after: the entry with
/// the job's uuid is replaced, or the job is appended when the uuid
/// was absent.
pub open spec fn spec_upserted(
    pre: Seq<JobInfoView>,
    post: Seq<JobInfoView>,
    store_pre: JobStore,
    job: JobInfoView,
) -> bool {
    if store_pre.has_job(job.uuid) {
        post == pre.update(store_pre.job_index(job.uuid), job)
    } else {
        post == pre.push(job)
    }
}

} // verus!
