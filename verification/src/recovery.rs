//! The recovery engine: validating a caller-supplied manifest of
//! (original, destination) path pairs, the per-entry replay decision
//! under the chosen conflict policy, and the run's progress and log
//! state.

use vstd::prelude::*;
use vstd::string::StrSliceExecFns;
use vstd::string::StringExecFns;
use crate::engine::JobEngine;
use crate::strings::str_eq;

verus! {

broadcast use vstd::string::group_string_axioms;

/// What a manifest text parses to, when it is an array of string
/// arrays; a function of the text alone.
pub uninterp spec fn manifest_entries_of(text: Seq<char>) -> Option<Seq<Seq<Seq<char>>>>;

/// Relies on serde_json's `from_str` for `Vec<Vec<String>>`: the
/// parse succeeds exactly when the text is such a JSON document, and
/// what it yields depends on the text alone.
#[verifier::external_body]
fn parse_manifest(text: &str) -> (r: Option<Vec<Vec<String>>>)
    ensures
        (r is Some) == (manifest_entries_of(text@) is Some),
        r is Some ==> r->Some_0.deep_view() == manifest_entries_of(text@)->Some_0,
{
    serde_json::from_str::<Vec<Vec<String>>>(text).ok()
}

/// A manifest entry is well formed when it holds exactly two
/// non-empty path strings.
pub open spec fn wf_manifest_entry(entry: Seq<Seq<char>>) -> bool {
    entry.len() == 2 && entry[0].len() > 0 && entry[1].len() > 0
}

/// Every entry of the manifest is well formed.
pub open spec fn wf_manifest(entries: Seq<Seq<Seq<char>>>) -> bool {
    forall|j: int| 0 <= j < entries.len() ==> wf_manifest_entry(#[trigger] entries[j])
}

/// The verdict on a recovery manifest.
#[derive(Clone, Copy, PartialEq, Eq, Structural)]
pub enum ManifestStatus {
    /// The text parses and every entry holds two non-empty strings.
    Valid,
    /// The text parses but some entry is not a pair of two non-empty
    /// strings.
    InvalidEntry,
    /// The text is not a JSON array of string arrays at all.
    Unreadable,
}

impl ManifestStatus {
    /// A human-readable description of the verdict.
    pub fn message(&self) -> (r: &'static str)
        ensures
            *self is Valid ==> r@ == "Valid"@,
            *self is InvalidEntry ==> r@
                == "Error: Each entry in the recovery file must contain exactly two string elements."@,
            *self is Unreadable ==> r@
                == "Error: Recovery file is not JSON or not in the correct format."@,
    {
        match self {
            ManifestStatus::Valid => "Valid",
            ManifestStatus::InvalidEntry => "Error: Each entry in the recovery file must contain exactly two string elements.",
            ManifestStatus::Unreadable => "Error: Recovery file is not JSON or not in the correct format.",
        }
    }
}

fn check_entries(entries: &Vec<Vec<String>>) -> (r: bool)
    ensures
        r == wf_manifest(entries.deep_view()),
{
    let mut i: usize = 0;
    while i < entries.len()
        invariant
            i <= entries.len(),
            forall|j: int| 0 <= j < i ==> wf_manifest_entry(#[trigger] entries.deep_view()[j]),
        decreases entries.len() - i,
    {
        proof {
            assert(entries.deep_view()[i as int] == entries[i as int].deep_view());
        }
        let entry = &entries[i];
        if entry.len() != 2 {
            assert(!wf_manifest_entry(entries.deep_view()[i as int]));
            return false;
        }
        if entry[0].as_str().unicode_len() == 0 || entry[1].as_str().unicode_len() == 0 {
            assert(!wf_manifest_entry(entries.deep_view()[i as int]));
            return false;
        }
        assert(wf_manifest_entry(entries.deep_view()[i as int]));
        i += 1;
    }
    true
}

/// Judges a manifest text: it must parse as an array of string
/// arrays, and every entry must hold exactly two non-empty path
/// strings.  An entry of any other shape yields a well-formed
/// invalid-format verdict, never a failure.
pub fn verify_manifest(text: &str) -> (r: ManifestStatus)
    ensures
        manifest_entries_of(text@) is None ==> r is Unreadable,
        manifest_entries_of(text@) is Some && !wf_manifest(manifest_entries_of(text@)->Some_0)
            ==> r is InvalidEntry,
        manifest_entries_of(text@) is Some && wf_manifest(manifest_entries_of(text@)->Some_0)
            ==> r is Valid,
{
    match parse_manifest(text) {
        Option::Some(entries) => {
            if check_entries(&entries) {
                ManifestStatus::Valid
            } else {
                ManifestStatus::InvalidEntry
            }
        },
        Option::None => ManifestStatus::Unreadable,
    }
}

/// Parses a manifest text and hands its entries out, provided every
/// entry holds exactly two non-empty path strings.
pub fn load_manifest(text: &str) -> (r: Option<Vec<Vec<String>>>)
    ensures
        (r is Some) == (manifest_entries_of(text@) is Some && wf_manifest(
            manifest_entries_of(text@)->Some_0,
        )),
        r is Some ==> r->Some_0.deep_view() == manifest_entries_of(text@)->Some_0,
{
    match parse_manifest(text) {
        Option::Some(entries) => {
            if check_entries(&entries) {
                Option::Some(entries)
            } else {
                Option::None
            }
        },
        Option::None => Option::None,
    }
}

/// The conflict policies a recovery run can replay under.
pub open spec fn skip_policy() -> Seq<char> {
    "Skip Existing Files"@
}

/// See [`skip_policy`].
pub open spec fn overwrite_policy() -> Seq<char> {
    "Overwrite Existing Files"@
}

/// See [`skip_policy`].
pub open spec fn keep_recent_policy() -> Seq<char> {
    "Keep Most Recently Updated Files"@
}

/// Whether one optional modification time is strictly later than
/// another, ordering a missing time before every present one.
pub open spec fn mtime_newer(a: Option<u64>, b: Option<u64>) -> bool {
    match (a, b) {
        (Option::Some(x), Option::Some(y)) => x > y,
        (Option::Some(_), Option::None) => true,
        (Option::None, _) => false,
    }
}

/// What the recovery run does with one manifest entry.
#[derive(Clone, Copy, PartialEq, Eq, Structural)]
pub enum RecoveryAction {
    /// The original file is gone: log it and move on.
    LogMissingSource,
    /// The destination does not exist: create its parent directories
    /// and copy the original there.
    CopyToNew,
    /// Leave the existing destination as it is.
    Skip,
    /// Copy the original over the existing destination.
    Overwrite,
}

/// Decides one manifest entry under the chosen policy: a missing
/// original is logged; a missing destination is always restored; an
/// existing destination is kept, overwritten, or — under the
/// keep-most-recent policy — overwritten only when the original's
/// modification time is strictly later than the destination's (equal
/// times keep the destination).
pub fn recovery_action(
    policy: &str,
    source_exists: bool,
    dest_exists: bool,
    source_modified: Option<u64>,
    dest_modified: Option<u64>,
) -> (r: RecoveryAction)
    ensures
        !source_exists ==> r is LogMissingSource,
        source_exists && !dest_exists ==> r is CopyToNew,
        source_exists && dest_exists && policy@ == skip_policy() ==> r is Skip,
        source_exists && dest_exists && policy@ == overwrite_policy() ==> r is Overwrite,
        source_exists && dest_exists && policy@ == keep_recent_policy() ==> r == (if mtime_newer(
            source_modified,
            dest_modified,
        ) {
            RecoveryAction::Overwrite
        } else {
            RecoveryAction::Skip
        }),
        source_exists && dest_exists && policy@ != overwrite_policy() && policy@
            != keep_recent_policy() ==> r is Skip,
{
    if !source_exists {
        return RecoveryAction::LogMissingSource;
    }
    if !dest_exists {
        return RecoveryAction::CopyToNew;
    }
    proof {
        reveal_strlit("Skip Existing Files");
        reveal_strlit("Overwrite Existing Files");
        reveal_strlit("Keep Most Recently Updated Files");
        assert("Skip Existing Files"@.len() == 19);
        assert("Overwrite Existing Files"@.len() == 24);
        assert("Keep Most Recently Updated Files"@.len() == 32);
    }
    if str_eq(policy, "Overwrite Existing Files") {
        RecoveryAction::Overwrite
    } else if str_eq(policy, "Keep Most Recently Updated Files") {
        let newer = match (source_modified, dest_modified) {
            (Option::Some(x), Option::Some(y)) => x > y,
            (Option::Some(_), Option::None) => true,
            (Option::None, _) => false,
        };
        if newer {
            RecoveryAction::Overwrite
        } else {
            RecoveryAction::Skip
        }
    } else {
        RecoveryAction::Skip
    }
}

/// The recovery run's shared state: its progress fraction in
/// thousandths (-1 before any run has started, 1000 on completion)
/// and the append-only log of entries that could not be recovered.
pub struct RecoveryState {
    pub progress_permille: i32,
    pub logs: Vec<String>,
}

impl RecoveryState {
    /// The state before any run: no progress, no logs.
    pub fn new() -> (r: RecoveryState)
        ensures
            r.progress_permille == -1,
            r.logs.deep_view().len() == 0,
    {
        RecoveryState { progress_permille: -1, logs: Vec::new() }
    }

    /// Resets progress and logs to the initial state.
    pub fn clear_recovery_status(&mut self)
        ensures
            final(self).progress_permille == -1,
            final(self).logs.deep_view().len() == 0,
    {
        self.progress_permille = -1;
        self.logs = Vec::new();
    }

    /// The recovery log lines, cloned out in order.
    pub fn get_recovery_logs(&self) -> (r: Vec<String>)
        ensures
            r.deep_view() == self.logs.deep_view(),
    {
        let r = self.logs.clone();
        proof {
            assert(r.deep_view() =~= self.logs.deep_view());
        }
        r
    }

    /// Appends one line about an entry that could not be recovered.
    pub fn push_log(&mut self, line: String)
        ensures
            final(self).logs.deep_view() == old(self).logs.deep_view().push(line@),
            final(self).progress_permille == old(self).progress_permille,
    {
        self.logs.push(line);
        proof {
            assert(self.logs.deep_view() =~= old(self).logs.deep_view().push(line@));
        }
    }

    /// Records that `done` of `total` entries are replayed; the
    /// fraction never exceeds one.
    pub fn set_progress(&mut self, done: usize, total: usize)
        requires
            total > 0,
            done <= total,
        ensures
            final(self).progress_permille == done as int * 1000 / total as int,
            final(self).logs == old(self).logs,
    {
        proof {
            assert(done as int * 1000 <= total as int * 1000) by (nonlinear_arith)
                requires
                    done <= total,
            ;
            assert(done as int * 1000 / total as int <= 1000) by (nonlinear_arith)
                requires
                    total > 0,
                    done as int * 1000 <= total as int * 1000,
            ;
        }
        let scaled: u128 = (done as u128) * 1000 / (total as u128);
        self.progress_permille = scaled as i32;
    }

    /// Marks the run complete: the fraction reads as one.
    pub fn mark_complete(&mut self)
        ensures
            final(self).progress_permille == 1000,
            final(self).logs == old(self).logs,
    {
        self.progress_permille = 1000;
    }
}

/// Whether a recovery run may start: only while no job run is live.
/// Starting is refused while any non-completed status exists.
pub fn recovery_allowed(engine: &JobEngine) -> (r: bool)
    ensures
        r == (forall|j: int|
            0 <= j < engine.statuses.deep_view().len() ==> (#[trigger] engine.statuses.deep_view()[
                j
            ]).completed),
{
    let mut i: usize = 0;
    while i < engine.statuses.len()
        invariant
            i <= engine.statuses.len(),
            forall|j: int| 0 <= j < i ==> (#[trigger] engine.statuses.deep_view()[j]).completed,
        decreases engine.statuses.len() - i,
    {
        if !engine.statuses[i].completed {
            assert(!engine.statuses.deep_view()[i as int].completed);
            return false;
        }
        i += 1;
    }
    true
}

} // verus!
