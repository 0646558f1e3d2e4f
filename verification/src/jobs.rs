//! The data model: job definitions, their parts, live status records, and
//! the per-volume marker contents.  Each type carries a mathematical view
//! (sequences of characters in place of strings) that the contracts of the
//! engine, scheduler, and registry speak of.

use vstd::prelude::*;

verus! {

/// One input root of a job: either a concrete path or a well-known
/// library alias such as `documents`.
pub struct InputFile {
    pub path_type: String,
    pub path: String,
}

/// Mathematical view of an [`InputFile`].
pub struct InputFileView {
    pub path_type: Seq<char>,
    pub path: Seq<char>,
}

impl View for InputFile {
    type V = InputFileView;

    open spec fn view(&self) -> InputFileView {
        InputFileView { path_type: self.path_type@, path: self.path@ }
    }
}

impl DeepView for InputFile {
    type V = InputFileView;

    open spec fn deep_view(&self) -> InputFileView {
        self.view()
    }
}

impl Clone for InputFile {
    fn clone(&self) -> (res: Self)
        ensures
            res@ == self@,
    {
        InputFile { path_type: self.path_type.clone(), path: self.path.clone() }
    }
}

/// The parameters a file filter may carry; which one is present depends
/// on the filter kind.
pub struct FilterTraits {
    pub size: Option<u64>,
    pub period: Option<String>,
    pub extensions: Option<Vec<String>>,
}

/// Mathematical view of [`FilterTraits`].
pub struct FilterTraitsView {
    pub size: Option<u64>,
    pub period: Option<Seq<char>>,
    pub extensions: Option<Seq<Seq<char>>>,
}

impl View for FilterTraits {
    type V = FilterTraitsView;

    open spec fn view(&self) -> FilterTraitsView {
        FilterTraitsView {
            size: self.size,
            period: self.period.deep_view(),
            extensions: self.extensions.deep_view(),
        }
    }
}

impl DeepView for FilterTraits {
    type V = FilterTraitsView;

    open spec fn deep_view(&self) -> FilterTraitsView {
        self.view()
    }
}

impl Clone for FilterTraits {
    fn clone(&self) -> (res: Self)
        ensures
            res@ == self@,
    {
        let extensions: Option<Vec<String>> = match &self.extensions {
            Option::Some(v) => {
                let c = v.clone();
                proof {
                    assert(c.deep_view() =~= v.deep_view());
                }
                Option::Some(c)
            },
            Option::None => Option::None,
        };
        let period = match &self.period {
            Option::Some(p) => Option::Some(p.clone()),
            Option::None => Option::None,
        };
        FilterTraits { size: self.size, period, extensions }
    }
}

/// One file filter of a job: `extension`, `size`, or `last-used`,
/// with its parameters.
pub struct FileFilter {
    pub filter_type: String,
    pub traits: FilterTraits,
}

/// Mathematical view of a [`FileFilter`].
pub struct FileFilterView {
    pub filter_type: Seq<char>,
    pub traits: FilterTraitsView,
}

impl View for FileFilter {
    type V = FileFilterView;

    open spec fn view(&self) -> FileFilterView {
        FileFilterView { filter_type: self.filter_type@, traits: self.traits@ }
    }
}

impl DeepView for FileFilter {
    type V = FileFilterView;

    open spec fn deep_view(&self) -> FileFilterView {
        self.view()
    }
}

impl Clone for FileFilter {
    fn clone(&self) -> (res: Self)
        ensures
            res@ == self@,
    {
        FileFilter { filter_type: self.filter_type.clone(), traits: self.traits.clone() }
    }
}

/// The parameters a trigger may carry: hour/weekday/day labels for time
/// triggers, an event name for event triggers.
pub struct TriggerTraits {
    pub time: Option<Vec<String>>,
    pub event: Option<String>,
}

/// Mathematical view of [`TriggerTraits`].
pub struct TriggerTraitsView {
    pub time: Option<Seq<Seq<char>>>,
    pub event: Option<Seq<char>>,
}

impl View for TriggerTraits {
    type V = TriggerTraitsView;

    open spec fn view(&self) -> TriggerTraitsView {
        TriggerTraitsView { time: self.time.deep_view(), event: self.event.deep_view() }
    }
}

impl DeepView for TriggerTraits {
    type V = TriggerTraitsView;

    open spec fn deep_view(&self) -> TriggerTraitsView {
        self.view()
    }
}

impl Clone for TriggerTraits {
    fn clone(&self) -> (res: Self)
        ensures
            res@ == self@,
    {
        let time: Option<Vec<String>> = match &self.time {
            Option::Some(v) => {
                let c = v.clone();
                proof {
                    assert(c.deep_view() =~= v.deep_view());
                }
                Option::Some(c)
            },
            Option::None => Option::None,
        };
        let event = match &self.event {
            Option::Some(e) => Option::Some(e.clone()),
            Option::None => Option::None,
        };
        TriggerTraits { time, event }
    }
}

/// One trigger of a job: a `time` trigger or an `event` trigger.
pub struct JobTrigger {
    pub trigger_type: String,
    pub traits: TriggerTraits,
}

/// Mathematical view of a [`JobTrigger`].
pub struct JobTriggerView {
    pub trigger_type: Seq<char>,
    pub traits: TriggerTraitsView,
}

impl View for JobTrigger {
    type V = JobTriggerView;

    open spec fn view(&self) -> JobTriggerView {
        JobTriggerView { trigger_type: self.trigger_type@, traits: self.traits@ }
    }
}

impl DeepView for JobTrigger {
    type V = JobTriggerView;

    open spec fn deep_view(&self) -> JobTriggerView {
        self.view()
    }
}

impl Clone for JobTrigger {
    fn clone(&self) -> (res: Self)
        ensures
            res@ == self@,
    {
        JobTrigger { trigger_type: self.trigger_type.clone(), traits: self.traits.clone() }
    }
}

/// A job definition: what to move or copy, from where, to where, under
/// which filters, and on which triggers.
pub struct JobInfo {
    pub job_name: String,
    pub uuid: String,
    pub file_behavior: String,
    pub input_dirs: Vec<InputFile>,
    pub output_dir: String,
    pub output_device: String,
    pub copies: u32,
    pub portable: bool,
    pub new_folder: bool,
    pub file_filters: Vec<FileFilter>,
    pub triggers: Vec<JobTrigger>,
    pub version: u32,
}

/// Mathematical view of a [`JobInfo`].
pub struct JobInfoView {
    pub job_name: Seq<char>,
    pub uuid: Seq<char>,
    pub file_behavior: Seq<char>,
    pub input_dirs: Seq<InputFileView>,
    pub output_dir: Seq<char>,
    pub output_device: Seq<char>,
    pub copies: u32,
    pub portable: bool,
    pub new_folder: bool,
    pub file_filters: Seq<FileFilterView>,
    pub triggers: Seq<JobTriggerView>,
    pub version: u32,
}

impl View for JobInfo {
    type V = JobInfoView;

    open spec fn view(&self) -> JobInfoView {
        JobInfoView {
            job_name: self.job_name@,
            uuid: self.uuid@,
            file_behavior: self.file_behavior@,
            input_dirs: self.input_dirs.deep_view(),
            output_dir: self.output_dir@,
            output_device: self.output_device@,
            copies: self.copies,
            portable: self.portable,
            new_folder: self.new_folder,
            file_filters: self.file_filters.deep_view(),
            triggers: self.triggers.deep_view(),
            version: self.version,
        }
    }
}

impl DeepView for JobInfo {
    type V = JobInfoView;

    open spec fn deep_view(&self) -> JobInfoView {
        self.view()
    }
}

impl Clone for JobInfo {
    fn clone(&self) -> (res: Self)
        ensures
            res@ == self@,
    {
        let input_dirs = self.input_dirs.clone();
        let file_filters = self.file_filters.clone();
        let triggers = self.triggers.clone();
        proof {
            assert(input_dirs.deep_view() =~= self.input_dirs.deep_view());
            assert(file_filters.deep_view() =~= self.file_filters.deep_view());
            assert(triggers.deep_view() =~= self.triggers.deep_view());
        }
        JobInfo {
            job_name: self.job_name.clone(),
            uuid: self.uuid.clone(),
            file_behavior: self.file_behavior.clone(),
            input_dirs,
            output_dir: self.output_dir.clone(),
            output_device: self.output_device.clone(),
            copies: self.copies,
            portable: self.portable,
            new_folder: self.new_folder,
            file_filters,
            triggers,
            version: self.version,
        }
    }
}

/// The contents of a volume's marker document: the volume identity and
/// the portable job definitions carried on that volume.
pub struct DriveInfoFile {
    pub uuid: String,
    pub jobs: Vec<JobInfo>,
}

/// Mathematical view of a [`DriveInfoFile`].
pub struct DriveInfoFileView {
    pub uuid: Seq<char>,
    pub jobs: Seq<JobInfoView>,
}

impl View for DriveInfoFile {
    type V = DriveInfoFileView;

    open spec fn view(&self) -> DriveInfoFileView {
        DriveInfoFileView { uuid: self.uuid@, jobs: self.jobs.deep_view() }
    }
}

impl DeepView for DriveInfoFile {
    type V = DriveInfoFileView;

    open spec fn deep_view(&self) -> DriveInfoFileView {
        self.view()
    }
}

/// Number of pipeline steps for a behavior: four for `copy`, five for
/// `move` (which adds the deletion stage).
pub open spec fn total_steps_for(behavior: Seq<char>) -> u32 {
    if behavior == "copy"@ {
        4u32
    } else {
        5u32
    }
}

/// The live status of one job run.  `progress_permille` is a progress
/// fraction in thousandths (0 to 1000), or -1 for "indeterminate".
pub struct JobStatus {
    pub job: JobInfo,
    pub step: u32,
    pub total_steps: u32,
    pub step_title: String,
    pub last_action: String,
    pub success: bool,
    pub completed: bool,
    pub progress_permille: i32,
}

/// Mathematical view of a [`JobStatus`].
pub struct JobStatusView {
    pub job: JobInfoView,
    pub step: u32,
    pub total_steps: u32,
    pub step_title: Seq<char>,
    pub last_action: Seq<char>,
    pub success: bool,
    pub completed: bool,
    pub progress_permille: i32,
}

impl View for JobStatus {
    type V = JobStatusView;

    open spec fn view(&self) -> JobStatusView {
        JobStatusView {
            job: self.job@,
            step: self.step,
            total_steps: self.total_steps,
            step_title: self.step_title@,
            last_action: self.last_action@,
            success: self.success,
            completed: self.completed,
            progress_permille: self.progress_permille,
        }
    }
}

impl DeepView for JobStatus {
    type V = JobStatusView;

    open spec fn deep_view(&self) -> JobStatusView {
        self.view()
    }
}

impl Clone for JobStatus {
    fn clone(&self) -> (res: Self)
        ensures
            res@ == self@,
    {
        JobStatus {
            job: self.job.clone(),
            step: self.step,
            total_steps: self.total_steps,
            step_title: self.step_title.clone(),
            last_action: self.last_action.clone(),
            success: self.success,
            completed: self.completed,
            progress_permille: self.progress_permille,
        }
    }
}

} // verus!
