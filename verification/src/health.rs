//! The job-health map: for each job uuid, the last terminal outcome
//! (`good` or `bad`) joined with the time it was recorded, written at
//! every terminal pipeline outcome and persisted by the caller.

use vstd::prelude::*;
use vstd::string::StringExecFns;
use crate::kvlist::{kv_get, kv_lookup, kv_set, kv_unique};

verus! {

/// Relies on time's `OffsetDateTime::now_local` (falling back to
/// `now_utc`) and its formatting: the current wall-clock time
/// rendered as text.  Nothing is promised of the value; it depends on
/// the clock.
#[verifier::external_body]
fn now_timestamp() -> (r: String) {
    let now = time::OffsetDateTime::now_local().unwrap_or_else(|_| time::OffsetDateTime::now_utc());
    match time::format_description::parse("[year]-[month]-[day] [hour]:[minute]:[second]") {
        Ok(descriptor) => now.format(&descriptor).unwrap_or_else(|_| "unknown".to_string()),
        Err(_) => "unknown".to_string(),
    }
}

/// The health records, keyed by job uuid; each value is an
/// outcome/timestamp string such as `good/2024-01-01 12:00:00`.
pub struct HealthMap {
    pub entries: Vec<(String, String)>,
}

impl HealthMap {
    /// No uuid is recorded twice.
    pub open spec fn wf(self) -> bool {
        kv_unique(self.entries.deep_view())
    }

    /// An empty health map.
    pub fn new() -> (r: HealthMap)
        ensures
            r.wf(),
            r.entries.deep_view().len() == 0,
    {
        HealthMap { entries: Vec::new() }
    }

    /// Every health record, cloned out in order.
    pub fn get_all_job_health(&self) -> (r: Vec<(String, String)>)
        ensures
            r.deep_view() == self.entries.deep_view(),
    {
        let mut r: Vec<(String, String)> = Vec::new();
        let mut i: usize = 0;
        while i < self.entries.len()
            invariant
                i <= self.entries.len(),
                r.deep_view() == self.entries.deep_view().take(i as int),
            decreases self.entries.len() - i,
        {
            let ghost prev = r.deep_view();
            r.push((self.entries[i].0.clone(), self.entries[i].1.clone()));
            proof {
                assert(r.deep_view() =~= prev.push(self.entries.deep_view()[i as int]));
                assert(self.entries.deep_view().take(i + 1) =~= prev.push(
                    self.entries.deep_view()[i as int],
                ));
            }
            i += 1;
        }
        proof {
            assert(self.entries.deep_view().take(self.entries.deep_view().len() as int)
                =~= self.entries.deep_view());
        }
        r
    }

    /// Replaces the whole map, as reloading the persisted document
    /// does.
    pub fn set_all_job_health(&mut self, entries: Vec<(String, String)>) -> (r: bool)
        requires
            kv_unique(entries.deep_view()),
        ensures
            r,
            final(self).wf(),
            final(self).entries.deep_view() == entries.deep_view(),
    {
        self.entries = entries;
        true
    }

    /// The record for one job, or `none` where no outcome was ever
    /// recorded.
    pub fn get_job_health_by_uuid(&self, uuid: &str) -> (r: String)
        requires
            self.wf(),
        ensures
            r@ == match kv_get(self.entries.deep_view(), uuid@) {
                Option::Some(v) => v,
                Option::None => "none"@,
            },
    {
        match kv_lookup(&self.entries, uuid) {
            Option::Some(v) => v,
            Option::None => String::from_str("none"),
        }
    }

    /// Records a terminal outcome for a job: the stored value is the
    /// outcome joined by a slash with the current wall-clock time.
    pub fn set_job_health_by_uuid(&mut self, uuid: &str, health: &str) -> (r: bool)
        requires
            old(self).wf(),
        ensures
            r,
            final(self).wf(),
            exists|ts: Seq<char>|
                kv_get(final(self).entries.deep_view(), uuid@) == Option::Some(
                    health@ + "/"@ + ts,
                ),
            forall|k2: Seq<char>|
                k2 != uuid@ ==> kv_get(final(self).entries.deep_view(), k2) == kv_get(
                    old(self).entries.deep_view(),
                    k2,
                ),
    {
        let ts = now_timestamp();
        let ghost tsv = ts@;
        let mut value = health.to_owned();
        value.append("/");
        value.append(ts.as_str());
        proof {
            assert(value@ == health@ + "/"@ + tsv);
        }
        kv_set(&mut self.entries, uuid.to_owned(), value);
        true
    }
}

/// A user-visible notification, handed to the platform notifier by
/// the caller.
pub struct Notification {
    pub title: String,
    pub body: String,
}

/// Mathematical view of a [`Notification`].
pub struct NotificationView {
    pub title: Seq<char>,
    pub body: Seq<char>,
}

impl View for Notification {
    type V = NotificationView;

    open spec fn view(&self) -> NotificationView {
        NotificationView { title: self.title@, body: self.body@ }
    }
}

/// Records a `bad` outcome for the failed job and words the failure
/// notification shown for it.
pub fn job_failed_notification(health: &mut HealthMap, uuid: &str, job_name: &str) -> (r:
    Notification)
    requires
        old(health).wf(),
    ensures
        final(health).wf(),
        exists|ts: Seq<char>|
            kv_get(final(health).entries.deep_view(), uuid@) == Option::Some(
                "bad"@ + "/"@ + ts,
            ),
        forall|k2: Seq<char>|
            k2 != uuid@ ==> kv_get(final(health).entries.deep_view(), k2) == kv_get(
                old(health).entries.deep_view(),
                k2,
            ),
        r@.title == "Job Failed: "@ + job_name@,
        r@.body == "The job has failed. See status for details."@,
{
    health.set_job_health_by_uuid(uuid, "bad");
    let mut title = String::from_str("Job Failed: ");
    title.append(job_name);
    Notification { title, body: String::from_str("The job has failed. See status for details.") }
}

} // verus!
