//! The volume registry rules: extracting a volume root from a path,
//! resolving a volume's persisted identity from its marker document,
//! upserting portable jobs into a marker, and telling newly connected
//! volumes apart from a previous snapshot.

use vstd::prelude::*;
use vstd::pervasive::VecAdditionalExecFns;
use vstd::string::StrSliceExecFns;
use vstd::string::StringExecFns;
use crate::jobs::{DriveInfoFile, JobInfo};
use crate::strings::str_eq;

verus! {

broadcast use vstd::string::group_string_axioms;

/// True for an ASCII letter, as a drive designator starts with.
pub open spec fn is_ascii_letter(c: char) -> bool {
    ('A' <= c && c <= 'Z') || ('a' <= c && c <= 'z')
}

/// The volume-root component of an absolute path: a leading drive
/// designator such as `C:`, or the root `/` of a slash-rooted path;
/// `None` for anything else.
pub open spec fn spec_root_drive(p: Seq<char>) -> Option<Seq<char>> {
    if p.len() >= 2 && is_ascii_letter(p[0]) && p[1] == ':' {
        Option::Some(p.subrange(0, 2))
    } else if p.len() >= 1 && p[0] == '/' {
        Option::Some(seq!['/'])
    } else {
        Option::None
    }
}

/// Extracts the volume root of a path, or `None` when the path is not
/// absolute.
pub fn get_root_drive(path: &str) -> (r: Option<String>)
    ensures
        r.deep_view() == spec_root_drive(path@),
{
    let n = path.unicode_len();
    if n >= 2 {
        let c0 = path.get_char(0);
        let c1 = path.get_char(1);
        if (('A' <= c0 && c0 <= 'Z') || ('a' <= c0 && c0 <= 'z')) && c1 == ':' {
            let r = path.substring_char(0, 2).to_owned();
            return Option::Some(r);
        }
    }
    if n >= 1 {
        let c0 = path.get_char(0);
        if c0 == '/' {
            proof {
                reveal_strlit("/");
                assert("/"@ =~= seq!['/']);
            }
            return Option::Some(String::from_str("/"));
        }
    }
    Option::None
}

/// Relies on uuid's `Uuid::new_v4` and its hyphenated rendering: a
/// freshly generated random identity; nothing is promised of its
/// value.
#[verifier::external_body]
fn fresh_uuid() -> (r: String) {
    uuid::Uuid::new_v4().to_string()
}

/// What the caller found when reading a volume's marker document.
pub enum MarkerRead {
    /// No marker document exists at the volume root.
    Absent,
    /// The marker was read and parsed.
    Parsed(DriveInfoFile),
    /// A marker exists but could not be read or parsed.
    Unreadable,
}

/// How a volume's identity was resolved.
pub enum IdentityResolution {
    /// The marker already carried this identity.
    Existing(String),
    /// No marker existed: a fresh identity was generated, and the
    /// accompanying marker (with an empty portable-job list) must be
    /// persisted at the volume root.
    Created { identity: String, marker: DriveInfoFile },
    /// The marker could not be read: the volume has no usable
    /// identity, which callers must treat as a failure.
    Unreadable,
}

/// Resolves a volume's identity from the outcome of reading its
/// marker: an existing marker keeps its identity forever, a missing
/// marker gets a freshly generated one, and an unreadable marker
/// yields no identity at all.
pub fn resolve_identity(outcome: MarkerRead) -> (r: IdentityResolution)
    ensures
        outcome is Parsed ==> r is Existing && r->Existing_0@ == outcome->Parsed_0@.uuid,
        outcome is Absent ==> r is Created && r->Created_identity@ == r->Created_marker@.uuid
            && r->Created_marker@.jobs.len() == 0,
        outcome is Unreadable ==> r is Unreadable,
{
    match outcome {
        MarkerRead::Parsed(info) => IdentityResolution::Existing(info.uuid),
        MarkerRead::Absent => {
            let identity = fresh_uuid();
            let marker = DriveInfoFile { uuid: identity.clone(), jobs: Vec::new() };
            proof {
                assert(marker@.jobs =~= Seq::<crate::jobs::JobInfoView>::empty());
            }
            IdentityResolution::Created { identity, marker }
        },
        MarkerRead::Unreadable => IdentityResolution::Unreadable,
    }
}

/// The identity string a resolution yields: the identity itself, or
/// the empty string where none could be had.
pub fn identity_string(r: &IdentityResolution) -> (s: String)
    ensures
        r is Existing ==> s@ == r->Existing_0@,
        r is Created ==> s@ == r->Created_identity@,
        r is Unreadable ==> s@.len() == 0,
{
    match r {
        IdentityResolution::Existing(id) => id.clone(),
        IdentityResolution::Created { identity, marker: _ } => identity.clone(),
        IdentityResolution::Unreadable => String::new(),
    }
}

/// Upserts a portable job into a marker document: every entry with
/// the job's uuid is replaced; if none carries it, the job is
/// appended.  The marker's identity is untouched.
pub fn upsert_job_in_marker(info: &mut DriveInfoFile, job: &JobInfo)
    ensures
        final(info)@.uuid == old(info)@.uuid,
        (exists|j: int|
            0 <= j < old(info)@.jobs.len() && (#[trigger] old(info)@.jobs[j]).uuid == job@.uuid)
            ==> final(info)@.jobs == Seq::new(
            old(info)@.jobs.len(),
            |j: int|
                if old(info)@.jobs[j].uuid == job@.uuid {
                    job@
                } else {
                    old(info)@.jobs[j]
                },
        ),
        !(exists|j: int|
            0 <= j < old(info)@.jobs.len() && (#[trigger] old(info)@.jobs[j]).uuid == job@.uuid)
            ==> final(info)@.jobs == old(info)@.jobs.push(job@),
{
    let ghost pre = info.jobs.deep_view();
    let mut found = false;
    let mut i: usize = 0;
    while i < info.jobs.len()
        invariant
            i <= info.jobs.len(),
            info.jobs.deep_view().len() == pre.len(),
            info.uuid == old(info).uuid,
            forall|j: int|
                i <= j < pre.len() ==> #[trigger] info.jobs.deep_view()[j] == pre[j],
            forall|j: int|
                0 <= j < i ==> #[trigger] info.jobs.deep_view()[j] == (if pre[j].uuid == job@.uuid {
                    job@
                } else {
                    pre[j]
                }),
            found == (exists|j: int| 0 <= j < i && (#[trigger] pre[j]).uuid == job@.uuid),
        decreases info.jobs.len() - i,
    {
        proof {
            assert(info.jobs.deep_view()[i as int] == pre[i as int]);
        }
        if str_eq(info.jobs[i].uuid.as_str(), job.uuid.as_str()) {
            let ghost mid = info.jobs.deep_view();
            info.jobs.set(i, job.clone());
            proof {
                assert(info.jobs.deep_view() =~= mid.update(i as int, job@));
                assert(pre[i as int].uuid == job@.uuid);
            }
            found = true;
        } else {
            proof {
                assert(pre[i as int].uuid != job@.uuid);
            }
        }
        i += 1;
    }
    if found {
        proof {
            assert(final(info)@.jobs =~= Seq::new(
                pre.len(),
                |j: int|
                    if pre[j].uuid == job@.uuid {
                        job@
                    } else {
                        pre[j]
                    },
            ));
        }
    } else {
        let ghost mid = info.jobs.deep_view();
        info.jobs.push(job.clone());
        proof {
            assert(info.jobs.deep_view() =~= mid.push(job@));
            assert(mid =~= pre);
        }
    }
}

/// One attached volume, as a snapshot lists it: its mount point and
/// display name.
pub struct DriveSnapshot {
    pub mount_point: String,
    pub name: String,
}

/// Mathematical view of a [`DriveSnapshot`].
pub struct DriveSnapshotView {
    pub mount_point: Seq<char>,
    pub name: Seq<char>,
}

impl View for DriveSnapshot {
    type V = DriveSnapshotView;

    open spec fn view(&self) -> DriveSnapshotView {
        DriveSnapshotView { mount_point: self.mount_point@, name: self.name@ }
    }
}

impl DeepView for DriveSnapshot {
    type V = DriveSnapshotView;

    open spec fn deep_view(&self) -> DriveSnapshotView {
        self.view()
    }
}

impl Clone for DriveSnapshot {
    fn clone(&self) -> (res: Self)
        ensures
            res@ == self@,
    {
        DriveSnapshot { mount_point: self.mount_point.clone(), name: self.name.clone() }
    }
}

/// Whether the snapshot list holds a volume with exactly this mount
/// point and name.
pub open spec fn snapshot_contains(list: Seq<DriveSnapshotView>, d: DriveSnapshotView) -> bool {
    exists|j: int| 0 <= j < list.len() && list[j] == d
}

fn snapshot_contains_exec(list: &Vec<DriveSnapshot>, d: &DriveSnapshot) -> (r: bool)
    ensures
        r == snapshot_contains(list.deep_view(), d@),
{
    let mut i: usize = 0;
    while i < list.len()
        invariant
            i <= list.len(),
            forall|j: int| 0 <= j < i ==> #[trigger] list.deep_view()[j] != d@,
        decreases list.len() - i,
    {
        if str_eq(list[i].mount_point.as_str(), d.mount_point.as_str()) && str_eq(
            list[i].name.as_str(),
            d.name.as_str(),
        ) {
            assert(list.deep_view()[i as int] == d@);
            return true;
        }
        assert(list.deep_view()[i as int] != d@);
        i += 1;
    }
    false
}

/// The volumes present in the current snapshot but absent from the
/// previous one, compared by exact (mount point, name) membership: the
/// newly connected volumes.
pub fn newly_connected(previous: &Vec<DriveSnapshot>, current: &Vec<DriveSnapshot>) -> (r: Vec<
    DriveSnapshot,
>)
    ensures
        r.deep_view() == current.deep_view().filter(
            |d: DriveSnapshotView| !snapshot_contains(previous.deep_view(), d),
        ),
{
    let ghost pred = |d: DriveSnapshotView| !snapshot_contains(previous.deep_view(), d);
    let mut r: Vec<DriveSnapshot> = Vec::new();
    let mut i: usize = 0;
    while i < current.len()
        invariant
            i <= current.len(),
            pred == (|d: DriveSnapshotView| !snapshot_contains(previous.deep_view(), d)),
            r.deep_view() == current.deep_view().take(i as int).filter(pred),
        decreases current.len() - i,
    {
        let ghost prev = r.deep_view();
        if !snapshot_contains_exec(previous, &current[i]) {
            r.push(current[i].clone());
            proof {
                assert(r.deep_view() =~= prev.push(current.deep_view()[i as int]));
            }
        }
        proof {
            reveal(Seq::filter);
            let cv = current.deep_view();
            assert(cv.take(i + 1).drop_last() =~= cv.take(i as int));
            assert(cv.take(i + 1).last() == cv[i as int]);
            assert(cv[i as int] == current[i as int]@);
        }
        i += 1;
    }
    proof {
        assert(current.deep_view().take(current.deep_view().len() as int) =~= current.deep_view());
    }
    r
}

} // verus!
