//! The trigger scheduler's decisions: which jobs a tick starts, from
//! the wall clock for time triggers and from the newly connected
//! volumes for device-connection triggers, and whether a connected
//! volume carries jobs available for import.

use vstd::prelude::*;
use crate::drives::spec_root_drive;
use crate::jobs::{JobInfo, JobInfoView, JobTrigger, JobTriggerView};
use crate::store::JobStore;
use crate::strings::{dec_value, is_digit, parse_u8, str_eq, str_starts_with};

verus! {

broadcast use vstd::string::group_string_axioms;

/// The local wall clock, as a tick of the scheduler reads it.
/// `weekday` counts from Monday as 0 through Sunday as 6.
#[derive(Clone, Copy, PartialEq, Eq, Structural)]
pub struct LocalTime {
    pub hour: u8,
    pub minute: u8,
    pub day: u8,
    pub weekday: u8,
}

/// The display label of an hour of the day, as trigger
/// configurations carry it.
pub open spec fn spec_hour_label(hour: u8) -> Seq<char> {
    if hour == 0 {
        "12 AM"@
    } else if hour == 1 {
        "1 AM"@
    } else if hour == 2 {
        "2 AM"@
    } else if hour == 3 {
        "3 AM"@
    } else if hour == 4 {
        "4 AM"@
    } else if hour == 5 {
        "5 AM"@
    } else if hour == 6 {
        "6 AM"@
    } else if hour == 7 {
        "7 AM"@
    } else if hour == 8 {
        "8 AM"@
    } else if hour == 9 {
        "9 AM"@
    } else if hour == 10 {
        "10 AM"@
    } else if hour == 11 {
        "11 AM"@
    } else if hour == 12 {
        "12 PM"@
    } else if hour == 13 {
        "1 PM"@
    } else if hour == 14 {
        "2 PM"@
    } else if hour == 15 {
        "3 PM"@
    } else if hour == 16 {
        "4 PM"@
    } else if hour == 17 {
        "5 PM"@
    } else if hour == 18 {
        "6 PM"@
    } else if hour == 19 {
        "7 PM"@
    } else if hour == 20 {
        "8 PM"@
    } else if hour == 21 {
        "9 PM"@
    } else if hour == 22 {
        "10 PM"@
    } else {
        "11 PM"@
    }
}

/// The label of an hour of the day.
pub fn hour_label(hour: u8) -> (r: &'static str)
    ensures
        r@ == spec_hour_label(hour),
{
    if hour == 0 {
        "12 AM"
    } else if hour == 1 {
        "1 AM"
    } else if hour == 2 {
        "2 AM"
    } else if hour == 3 {
        "3 AM"
    } else if hour == 4 {
        "4 AM"
    } else if hour == 5 {
        "5 AM"
    } else if hour == 6 {
        "6 AM"
    } else if hour == 7 {
        "7 AM"
    } else if hour == 8 {
        "8 AM"
    } else if hour == 9 {
        "9 AM"
    } else if hour == 10 {
        "10 AM"
    } else if hour == 11 {
        "11 AM"
    } else if hour == 12 {
        "12 PM"
    } else if hour == 13 {
        "1 PM"
    } else if hour == 14 {
        "2 PM"
    } else if hour == 15 {
        "3 PM"
    } else if hour == 16 {
        "4 PM"
    } else if hour == 17 {
        "5 PM"
    } else if hour == 18 {
        "6 PM"
    } else if hour == 19 {
        "7 PM"
    } else if hour == 20 {
        "8 PM"
    } else if hour == 21 {
        "9 PM"
    } else if hour == 22 {
        "10 PM"
    } else {
        "11 PM"
    }
}

/// The display label of a weekday, counting from Monday as 0.
pub open spec fn spec_weekday_label(weekday: u8) -> Seq<char> {
    if weekday == 0 {
        "Monday"@
    } else if weekday == 1 {
        "Tuesday"@
    } else if weekday == 2 {
        "Wednesday"@
    } else if weekday == 3 {
        "Thursday"@
    } else if weekday == 4 {
        "Friday"@
    } else if weekday == 5 {
        "Saturday"@
    } else {
        "Sunday"@
    }
}

/// The label of a weekday, counting from Monday as 0.
pub fn weekday_label(weekday: u8) -> (r: &'static str)
    ensures
        r@ == spec_weekday_label(weekday),
{
    if weekday == 0 {
        "Monday"
    } else if weekday == 1 {
        "Tuesday"
    } else if weekday == 2 {
        "Wednesday"
    } else if weekday == 3 {
        "Thursday"
    } else if weekday == 4 {
        "Friday"
    } else if weekday == 5 {
        "Saturday"
    } else {
        "Sunday"
    }
}

/// A trigger is well formed when the fields its kind reads are
/// present: an event trigger names its event; a daily trigger lists
/// an hour label; weekly and monthly triggers list their day and hour
/// labels, and a monthly trigger's first label is a day number.
pub open spec fn wf_trigger(t: JobTriggerView) -> bool {
    &&& t.trigger_type == "event"@ ==> t.traits.event is Some
    &&& t.trigger_type == "time"@ ==> t.traits.event is Some
    &&& t.trigger_type == "time"@ && t.traits.event->Some_0 == "daily"@ ==> t.traits.time is Some
    &&& t.trigger_type == "time"@ && (t.traits.event->Some_0 == "weekly"@
        || t.traits.event->Some_0 == "monthly"@) ==> t.traits.time is Some
        && t.traits.time->Some_0.len() >= 2
    &&& t.trigger_type == "time"@ && t.traits.event->Some_0 == "monthly"@ ==> {
        let d = t.traits.time->Some_0[0];
        d.len() > 0 && (forall|i: int| 0 <= i < d.len() ==> is_digit(d[i])) && dec_value(d) <= 255
    }
}

/// Every trigger of the job is well formed.
pub open spec fn wf_triggers(job: JobInfoView) -> bool {
    forall|i: int| 0 <= i < job.triggers.len() ==> wf_trigger(#[trigger] job.triggers[i])
}

/// Whether a time trigger fires at this reading of the clock:
/// `hourly` on every zeroth minute; `daily` on the zeroth minute of
/// its configured hour; `weekly` additionally only on its configured
/// weekday; `monthly` additionally only on its configured day of the
/// month.
pub open spec fn spec_time_trigger_fires(t: JobTriggerView, now: LocalTime) -> bool {
    &&& t.trigger_type == "time"@
    &&& {
        let ev = t.traits.event->Some_0;
        if ev == "hourly"@ {
            now.minute == 0
        } else if ev == "daily"@ {
            t.traits.time->Some_0.len() >= 1 && t.traits.time->Some_0[0] == spec_hour_label(
                now.hour,
            ) && now.minute == 0
        } else if ev == "weekly"@ {
            t.traits.time->Some_0[0] == spec_weekday_label(now.weekday)
                && t.traits.time->Some_0[1] == spec_hour_label(now.hour) && now.minute == 0
        } else if ev == "monthly"@ {
            dec_value(t.traits.time->Some_0[0]) == now.day && t.traits.time->Some_0[1]
                == spec_hour_label(now.hour) && now.minute == 0
        } else {
            false
        }
    }
}

/// Whether one trigger fires at this clock reading.
pub fn time_trigger_fires(t: &JobTrigger, now: LocalTime) -> (r: bool)
    requires
        wf_trigger(t@),
        now.hour < 24,
        now.weekday < 7,
    ensures
        r == spec_time_trigger_fires(t@, now),
{
    proof {
        reveal_strlit("hourly");
        reveal_strlit("daily");
        reveal_strlit("weekly");
        reveal_strlit("monthly");
        assert("hourly"@.len() == 6);
        assert("daily"@.len() == 5);
        assert("weekly"@.len() == 6);
        assert("monthly"@.len() == 7);
        assert("hourly"@[0] == 'h');
        assert("weekly"@[0] == 'w');
    }
    if !str_eq(t.trigger_type.as_str(), "time") {
        return false;
    }
    let ev = match &t.traits.event {
        Option::Some(e) => e,
        Option::None => {
            return false;
        },
    };
    if str_eq(ev.as_str(), "hourly") {
        now.minute == 0
    } else if str_eq(ev.as_str(), "daily") {
        let times = match &t.traits.time {
            Option::Some(ts) => ts,
            Option::None => {
                return false;
            },
        };
        if times.len() >= 1 {
            str_eq(times[0].as_str(), hour_label(now.hour)) && now.minute == 0
        } else {
            false
        }
    } else if str_eq(ev.as_str(), "weekly") {
        let times = match &t.traits.time {
            Option::Some(ts) => ts,
            Option::None => {
                return false;
            },
        };
        str_eq(times[0].as_str(), weekday_label(now.weekday)) && str_eq(
            times[1].as_str(),
            hour_label(now.hour),
        ) && now.minute == 0
    } else if str_eq(ev.as_str(), "monthly") {
        let times = match &t.traits.time {
            Option::Some(ts) => ts,
            Option::None => {
                return false;
            },
        };
        let day = match parse_u8(times[0].as_str()) {
            Option::Some(d) => d,
            Option::None => {
                return false;
            },
        };
        day == now.day && str_eq(times[1].as_str(), hour_label(now.hour)) && now.minute == 0
    } else {
        false
    }
}

/// Whether some trigger of the job fires at this clock reading.
pub open spec fn spec_job_time_fires(job: JobInfoView, now: LocalTime) -> bool {
    exists|i: int|
        0 <= i < job.triggers.len() && spec_time_trigger_fires(#[trigger] job.triggers[i], now)
}

/// The uuids of the jobs whose time triggers fire at this clock
/// reading, in job order, one entry per firing job.
pub open spec fn time_fire_list(jobs: Seq<JobInfoView>, now: LocalTime) -> Seq<Seq<char>>
    decreases jobs.len(),
{
    if jobs.len() == 0 {
        Seq::empty()
    } else {
        time_fire_list(jobs.drop_last(), now) + (if spec_job_time_fires(jobs.last(), now) {
            seq![jobs.last().uuid]
        } else {
            Seq::<Seq<char>>::empty()
        })
    }
}

/// Evaluates every job's time triggers against the clock and lists
/// the uuids to start, in job order.
pub fn time_triggered_jobs(jobs: &Vec<JobInfo>, now: LocalTime) -> (r: Vec<String>)
    requires
        forall|i: int| 0 <= i < jobs.deep_view().len() ==> wf_triggers(#[trigger] jobs.deep_view()[i]),
        now.hour < 24,
        now.weekday < 7,
    ensures
        r.deep_view() == time_fire_list(jobs.deep_view(), now),
{
    let mut r: Vec<String> = Vec::new();
    let mut i: usize = 0;
    while i < jobs.len()
        invariant
            i <= jobs.len(),
            forall|i0: int|
                0 <= i0 < jobs.deep_view().len() ==> wf_triggers(#[trigger] jobs.deep_view()[i0]),
            now.hour < 24,
            now.weekday < 7,
            r.deep_view() == time_fire_list(jobs.deep_view().take(i as int), now),
        decreases jobs.len() - i,
    {
        let job = &jobs[i];
        proof {
            assert(jobs.deep_view()[i as int] == jobs[i as int]@);
        }
        let mut fires = false;
        let mut k: usize = 0;
        while k < job.triggers.len()
            invariant
                k <= job.triggers.len(),
                i < jobs.len(),
                job == &jobs[i as int],
                jobs.deep_view()[i as int] == jobs[i as int]@,
                forall|i0: int|
                    0 <= i0 < jobs.deep_view().len() ==> wf_triggers(
                        #[trigger] jobs.deep_view()[i0],
                    ),
                now.hour < 24,
                now.weekday < 7,
                fires == exists|t: int|
                    0 <= t < k && spec_time_trigger_fires(#[trigger] job@.triggers[t], now),
            decreases job.triggers.len() - k,
        {
            proof {
                assert(wf_triggers(jobs.deep_view()[i as int]));
                assert(job@.triggers[k as int] == job.triggers[k as int]@);
                assert(wf_trigger(job@.triggers[k as int]));
            }
            if !fires {
                if time_trigger_fires(&job.triggers[k], now) {
                    fires = true;
                    assert(spec_time_trigger_fires(job@.triggers[k as int], now));
                }
            }
            k += 1;
        }
        let ghost prev = r.deep_view();
        proof {
            assert(fires == spec_job_time_fires(jobs.deep_view()[i as int], now));
        }
        if fires {
            r.push(job.uuid.clone());
            proof {
                assert(r.deep_view() =~= prev.push(jobs.deep_view()[i as int].uuid));
            }
        }
        proof {
            let jv = jobs.deep_view();
            assert(jv.take(i + 1).drop_last() =~= jv.take(i as int));
            assert(jv.take(i + 1).last() == jv[i as int]);
            if fires {
                assert(r.deep_view() =~= time_fire_list(jv.take(i + 1), now));
            } else {
                assert(r.deep_view() =~= time_fire_list(jv.take(i + 1), now));
            }
        }
        i += 1;
    }
    proof {
        assert(jobs.deep_view().take(jobs.deep_view().len() as int) =~= jobs.deep_view());
    }
    r
}

/// One newly connected volume with its resolved identity, as the
/// scheduler examines it.
pub struct ConnectedDrive {
    pub mount_point: String,
    pub identity: String,
}

/// Mathematical view of a [`ConnectedDrive`].
pub struct ConnectedDriveView {
    pub mount_point: Seq<char>,
    pub identity: Seq<char>,
}

impl View for ConnectedDrive {
    type V = ConnectedDriveView;

    open spec fn view(&self) -> ConnectedDriveView {
        ConnectedDriveView { mount_point: self.mount_point@, identity: self.identity@ }
    }
}

impl DeepView for ConnectedDrive {
    type V = ConnectedDriveView;

    open spec fn deep_view(&self) -> ConnectedDriveView {
        self.view()
    }
}

/// Whether the job has a device-connection trigger.
pub open spec fn has_connection_trigger(job: JobInfoView) -> bool {
    exists|i: int|
        0 <= i < job.triggers.len() && (#[trigger] job.triggers[i]).trigger_type == "event"@
            && job.triggers[i].traits.event == Option::Some("device-connection"@)
}

/// Whether a newly connected volume fires the job: a job bound to any
/// volume fires when the volume's mount point starts with the job's
/// output root; a job bound to a concrete volume fires when the
/// volume's identity equals it.
pub open spec fn spec_connection_fires(job: JobInfoView, drive: ConnectedDriveView) -> bool {
    if job.output_device == "special:any"@ {
        spec_root_drive(job.output_dir) is Some && spec_root_drive(
            job.output_dir,
        )->Some_0.is_prefix_of(drive.mount_point)
    } else {
        drive.identity == job.output_device
    }
}

/// The uuids fired by the newly connected volumes for one job: one
/// entry per firing volume, in volume order.
pub open spec fn connection_fires_for_job(
    job: JobInfoView,
    drives: Seq<ConnectedDriveView>,
) -> Seq<Seq<char>>
    decreases drives.len(),
{
    if drives.len() == 0 {
        Seq::empty()
    } else {
        connection_fires_for_job(job, drives.drop_last()) + (if spec_connection_fires(
            job,
            drives.last(),
        ) {
            seq![job.uuid]
        } else {
            Seq::<Seq<char>>::empty()
        })
    }
}

/// The uuids fired by the newly connected volumes, in job order and
/// volume order; only jobs with a device-connection trigger take
/// part.
pub open spec fn connection_fire_list(
    jobs: Seq<JobInfoView>,
    drives: Seq<ConnectedDriveView>,
) -> Seq<Seq<char>>
    decreases jobs.len(),
{
    if jobs.len() == 0 {
        Seq::empty()
    } else {
        connection_fire_list(jobs.drop_last(), drives) + (if has_connection_trigger(
            jobs.last(),
        ) {
            connection_fires_for_job(jobs.last(), drives)
        } else {
            Seq::<Seq<char>>::empty()
        })
    }
}

fn has_connection_trigger_exec(job: &JobInfo) -> (r: bool)
    ensures
        r == has_connection_trigger(job@),
{
    let mut k: usize = 0;
    while k < job.triggers.len()
        invariant
            k <= job.triggers.len(),
            forall|t: int|
                0 <= t < k ==> !((#[trigger] job@.triggers[t]).trigger_type == "event"@
                    && job@.triggers[t].traits.event == Option::Some("device-connection"@)),
        decreases job.triggers.len() - k,
    {
        proof {
            assert(job@.triggers[k as int] == job.triggers[k as int]@);
        }
        if str_eq(job.triggers[k].trigger_type.as_str(), "event") {
            match &job.triggers[k].traits.event {
                Option::Some(e) => {
                    if str_eq(e.as_str(), "device-connection") {
                        assert(job@.triggers[k as int].trigger_type == "event"@);
                        assert(job@.triggers[k as int].traits.event == Option::Some(
                            "device-connection"@,
                        ));
                        return true;
                    }
                },
                Option::None => {},
            }
        }
        k += 1;
    }
    false
}

fn connection_fires_exec(job: &JobInfo, drive: &ConnectedDrive) -> (r: bool)
    ensures
        r == spec_connection_fires(job@, drive@),
{
    if str_eq(job.output_device.as_str(), "special:any") {
        match crate::drives::get_root_drive(job.output_dir.as_str()) {
            Option::Some(root) => str_starts_with(drive.mount_point.as_str(), root.as_str()),
            Option::None => false,
        }
    } else {
        str_eq(drive.identity.as_str(), job.output_device.as_str())
    }
}

/// Evaluates every job's device-connection trigger against the newly
/// connected volumes and lists the uuids to start: per job, one entry
/// for each volume that fires it.
pub fn connection_triggered_jobs(jobs: &Vec<JobInfo>, drives: &Vec<ConnectedDrive>) -> (r: Vec<
    String,
>)
    ensures
        r.deep_view() == connection_fire_list(jobs.deep_view(), drives.deep_view()),
{
    let mut r: Vec<String> = Vec::new();
    let mut i: usize = 0;
    while i < jobs.len()
        invariant
            i <= jobs.len(),
            r.deep_view() == connection_fire_list(
                jobs.deep_view().take(i as int),
                drives.deep_view(),
            ),
        decreases jobs.len() - i,
    {
        let job = &jobs[i];
        proof {
            assert(jobs.deep_view()[i as int] == jobs[i as int]@);
        }
        if has_connection_trigger_exec(job) {
            let mut k: usize = 0;
            while k < drives.len()
                invariant
                    k <= drives.len(),
                    i < jobs.len(),
                    job == &jobs[i as int],
                    jobs.deep_view()[i as int] == jobs[i as int]@,
                    r.deep_view() == connection_fire_list(
                        jobs.deep_view().take(i as int),
                        drives.deep_view(),
                    ) + connection_fires_for_job(
                        jobs.deep_view()[i as int],
                        drives.deep_view().take(k as int),
                    ),
                decreases drives.len() - k,
            {
                let ghost prev = r.deep_view();
                proof {
                    assert(drives.deep_view()[k as int] == drives[k as int]@);
                }
                if connection_fires_exec(job, &drives[k]) {
                    r.push(job.uuid.clone());
                    proof {
                        assert(r.deep_view() =~= prev.push(jobs.deep_view()[i as int].uuid));
                    }
                }
                proof {
                    let dv = drives.deep_view();
                    assert(dv.take(k + 1).drop_last() =~= dv.take(k as int));
                    assert(dv.take(k + 1).last() == dv[k as int]);
                    assert(r.deep_view() =~= connection_fire_list(
                        jobs.deep_view().take(i as int),
                        dv,
                    ) + connection_fires_for_job(jobs.deep_view()[i as int], dv.take(k + 1)));
                }
                k += 1;
            }
            proof {
                assert(drives.deep_view().take(drives.deep_view().len() as int)
                    =~= drives.deep_view());
            }
        }
        proof {
            let jv = jobs.deep_view();
            assert(jv.take(i + 1).drop_last() =~= jv.take(i as int));
            assert(jv.take(i + 1).last() == jv[i as int]);
            assert(r.deep_view() =~= connection_fire_list(jv.take(i + 1), drives.deep_view()));
        }
        i += 1;
    }
    proof {
        assert(jobs.deep_view().take(jobs.deep_view().len() as int) =~= jobs.deep_view());
    }
    r
}

/// Whether the marker of a connected volume lists a job that the
/// local store does not know: such a volume has jobs available for
/// import.
pub fn jobs_available_for_import(marker_jobs: &Vec<JobInfo>, store: &JobStore) -> (r: bool)
    requires
        store.wf(),
    ensures
        r == exists|j: int|
            0 <= j < marker_jobs.deep_view().len() && !store.has_job(
                (#[trigger] marker_jobs.deep_view()[j]).uuid,
            ),
{
    let mut i: usize = 0;
    while i < marker_jobs.len()
        invariant
            i <= marker_jobs.len(),
            store.wf(),
            forall|j: int|
                0 <= j < i ==> store.has_job((#[trigger] marker_jobs.deep_view()[j]).uuid),
        decreases marker_jobs.len() - i,
    {
        proof {
            assert(marker_jobs.deep_view()[i as int] == marker_jobs[i as int]@);
        }
        let known = store_has_job(store, marker_jobs[i].uuid.as_str());
        if !known {
            return true;
        }
        i += 1;
    }
    false
}

fn store_has_job(store: &JobStore, uuid: &str) -> (r: bool)
    ensures
        r == store.has_job(uuid@),
{
    let mut i: usize = 0;
    while i < store.jobs.len()
        invariant
            i <= store.jobs.len(),
            forall|j: int| 0 <= j < i ==> (#[trigger] store.jobs.deep_view()[j]).uuid != uuid@,
        decreases store.jobs.len() - i,
    {
        if str_eq(store.jobs[i].uuid.as_str(), uuid) {
            assert(store.jobs.deep_view()[i as int].uuid == uuid@);
            return true;
        }
        i += 1;
    }
    false
}

} // verus!
