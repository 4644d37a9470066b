//! The transcode supervisor: at most one job at a time, from its creation to
//! its deletion.
//!
//! The supervisor owns the job's record and decides every transition. The
//! caller runs the encoder: it starts the subprocess with the arguments given
//! here, feeds what the subprocess prints to a
//! [`ProgressTracker`](crate::repos::offline::progress::ProgressTracker), and
//! reports the start, the progress and the end.

use crate::models::error::{ErrorKind, PipelineError};
use crate::models::files::{FileType, PathProbe};
use crate::models::transcode::{
    TranscodeState,
    TranscodeStatus,
    TranscodeStatusView,
    PROGRESS_CAP,
    PROGRESS_DONE,
};
use crate::repos::offline::hwaccel::{
    choose_profile,
    chosen_profile,
    cpu_profile,
    platform_from_name,
    platform_of,
    software_profile,
    HostProbe,
    HwAccelProfile,
    HwAccelProfileView,
};
use crate::repos::offline::progress::{lemma_progress_monotonic, progress_ratio};
use crate::utils::decimal::{decimal_text, format_decimal};
use crate::utils::paths::portable;
use crate::utils::text::{join2, join3, push_text, str_eq};
use vstd::prelude::*;

verus! {

/// The job that the supervisor holds.
#[derive(Debug)]
pub struct TranscodeTask {
    id: String,
    status: TranscodeStatus,
    process_running: bool,
    output_dir: String,
}

/// A [`TranscodeTask`] as plain values.
pub struct TranscodeTaskView {
    pub id: Seq<char>,
    pub status: TranscodeStatusView,
    /// Whether the encoder subprocess runs.
    pub process_running: bool,
    /// The directory that receives the playlist and the segments.
    pub output_dir: Seq<char>,
}

/// What is left to do once a job has been deleted.
#[derive(Debug)]
pub struct Cleanup {
    /// Whether the encoder subprocess still runs and has to be terminated.
    pub kill_process: bool,
    /// The directory to remove.
    pub output_dir: String,
}

/// How the encoder subprocess ended.
#[derive(Debug)]
pub enum ProcessExit {
    /// It ended with success.
    Success,
    /// It ended with a failure, with this exit code if it has one.
    Failure(Option<i32>),
}

/// The supervisor. Its slot holds the one job that may exist.
#[derive(Debug)]
pub struct OfflineTranscodeRepo {
    current_task: Option<TranscodeTask>,
}

/// The directory below `base_dir` that holds the output of all jobs.
pub open spec fn cache_dir_of(base_dir: Seq<char>) -> Seq<char> {
    base_dir + "/.cache"@
}

/// The output directory of the job `id`.
pub open spec fn output_dir_of(base_dir: Seq<char>, id: Seq<char>) -> Seq<char> {
    cache_dir_of(base_dir) + "/"@ + id
}

/// The playlist inside an output directory.
pub open spec fn playlist_of(output_dir: Seq<char>) -> Seq<char> {
    output_dir + "/playlist.m3u8"@
}

/// The pattern of the segment files inside an output directory.
pub open spec fn segment_pattern_of(output_dir: Seq<char>) -> Seq<char> {
    output_dir + "/segment%04d.ts"@
}

/// The path of the requested source below `base_dir`.
pub open spec fn source_path_of(base_dir: Seq<char>, data: Seq<char>) -> Seq<char> {
    base_dir + "/"@ + data
}

/// The record of a job that has just been registered.
pub open spec fn pending_task(id: Seq<char>, output_dir: Seq<char>) -> TranscodeTaskView {
    TranscodeTaskView {
        id,
        status: TranscodeStatusView {
            id,
            status: TranscodeState::Pending,
            progress: 0,
            output_path: Some(playlist_of(output_dir)),
            error: None,
        },
        process_running: false,
        output_dir,
    }
}

/// An option followed by its value, or nothing.
pub open spec fn optional_flag(flag: Seq<char>, value: Option<Seq<char>>) -> Seq<Seq<char>> {
    match value {
        Some(v) => seq![flag, v],
        None => seq![],
    }
}

/// The arguments of the encoder: the acceleration options of the profile, the
/// input, the video encoder with its preset and extra options, and an output
/// in segments of nine seconds whose playlist grows while the encoder runs.
pub open spec fn encoder_args(
    profile: HwAccelProfileView,
    file_path: Seq<char>,
    output_dir: Seq<char>,
) -> Seq<Seq<char>> {
    optional_flag("-hwaccel"@, profile.hwaccel) + optional_flag(
        "-hwaccel_output_format"@,
        profile.hwaccel_output_format,
    ) + seq!["-i"@, file_path, "-c:v"@, profile.encoder, "-preset"@, profile.preset]
        + profile.extra_args + seq![
        "-c:a"@,
        "copy"@,
        "-f"@,
        "hls"@,
        "-g"@,
        "90"@,
        "-hls_time"@,
        "9"@,
        "-hls_list_size"@,
        "0"@,
        "-hls_flags"@,
        "append_list+temp_file"@,
        "-hls_segment_filename"@,
        segment_pattern_of(output_dir),
        playlist_of(output_dir),
    ]
}

/// An exit code as the error message shows it.
pub open spec fn exit_code_text(code: Option<i32>) -> Seq<char> {
    match code {
        Some(c) => if c < 0 {
            "Some(-"@ + decimal_text((-c) as nat) + ")"@
        } else {
            "Some("@ + decimal_text(c as nat) + ")"@
        },
        None => "None"@,
    }
}

/// The record after the encoder has started.
pub open spec fn started(task: TranscodeTaskView) -> TranscodeTaskView {
    TranscodeTaskView {
        status: TranscodeStatusView { status: TranscodeState::Processing, ..task.status },
        process_running: true,
        ..task
    }
}

/// The record after a failure with the message `message`.
pub open spec fn failed(task: TranscodeTaskView, message: Seq<char>) -> TranscodeTaskView {
    TranscodeTaskView {
        status: TranscodeStatusView {
            status: TranscodeState::Error,
            error: Some(message),
            ..task.status
        },
        process_running: false,
        ..task
    }
}

/// The record after the encoder has ended with success.
pub open spec fn completed(task: TranscodeTaskView) -> TranscodeTaskView {
    TranscodeTaskView {
        status: TranscodeStatusView {
            status: TranscodeState::Completed,
            progress: PROGRESS_DONE as nat,
            ..task.status
        },
        process_running: false,
        ..task
    }
}

/// The record after a progress report.
pub open spec fn progressed(task: TranscodeTaskView, progress: u32) -> TranscodeTaskView {
    TranscodeTaskView {
        status: TranscodeStatusView {
            progress: if progress > PROGRESS_CAP {
                PROGRESS_CAP as nat
            } else {
                progress as nat
            },
            ..task.status
        },
        ..task
    }
}

/// Whether the slot holds the job `id`.
pub open spec fn holds(slot: Option<TranscodeTaskView>, id: Seq<char>) -> bool {
    slot is Some && slot->0.id == id
}

/// Whether the slot holds the job `id` in the state `state`.
pub open spec fn holds_in(
    slot: Option<TranscodeTaskView>,
    id: Seq<char>,
    state: TranscodeState,
) -> bool {
    holds(slot, id) && slot->0.status.status == state
}

/// What becomes of a request to create the job `id`, made of a supervisor
/// whose slot is `before`: the slot `after` and the result. A request that
/// finds a job in the slot is refused as `Conflict`, whatever it asks for.
/// With the slot free, a source that does not exist or is no video is refused
/// as `InvalidInput`. A refusal changes nothing. Otherwise the job is in the
/// slot, `Pending`, and its record is the result.
pub open spec fn created(
    before: Option<TranscodeTaskView>,
    after: Option<TranscodeTaskView>,
    base_dir: Seq<char>,
    source_exists: bool,
    source_type: FileType,
    id: Seq<char>,
    result: Result<TranscodeStatus, PipelineError>,
) -> bool {
    if before is Some {
        &&& result is Err
        &&& result->Err_0.kind == ErrorKind::Conflict
        &&& result->Err_0.message@ == "已有转码任务正在进行"@
        &&& after == before
    } else if !source_exists {
        &&& result is Err
        &&& result->Err_0.kind == ErrorKind::InvalidInput
        &&& result->Err_0.message@ == "文件不存在"@
        &&& after == before
    } else if source_type != FileType::Video {
        &&& result is Err
        &&& result->Err_0.kind == ErrorKind::InvalidInput
        &&& result->Err_0.message@ == "文件不是视频格式"@
        &&& after == before
    } else {
        &&& result is Ok
        &&& result->Ok_0@ == pending_task(id, output_dir_of(base_dir, id)).status
        &&& after == Some(pending_task(id, output_dir_of(base_dir, id)))
    }
}

/// What becomes of a request to delete the job `id`, made of a supervisor
/// whose slot is `before`: the slot `after` and the result. Where the slot
/// holds that job, it is freed, and the result says what is left to do:
/// terminate the subprocess if it still runs, and remove the output
/// directory. Else the request is refused as `NotFound` and changes nothing.
pub open spec fn removed(
    before: Option<TranscodeTaskView>,
    after: Option<TranscodeTaskView>,
    id: Seq<char>,
    result: Result<Cleanup, PipelineError>,
) -> bool {
    if holds(before, id) {
        &&& result is Ok
        &&& result->Ok_0.kill_process == before->0.process_running
        &&& result->Ok_0.output_dir@ == before->0.output_dir
        &&& after is None
    } else {
        &&& result is Err
        &&& result->Err_0.kind == ErrorKind::NotFound
        &&& result->Err_0.message@ == "没有找到对应的转码任务"@
        &&& after == before
    }
}

/// `uuid::Uuid::new_v4`, written out as text. The identifier is random:
/// nothing is claimed of it.
#[verifier::external_body]
fn fresh_job_id() -> (id: String) {
    uuid::Uuid::new_v4().to_string()
}

fn push_owned(args: &mut Vec<String>, text: String)
    ensures
        final(args).deep_view() == old(args).deep_view().push(text@),
{
    args.push(text);
    assert(args.deep_view() =~= old(args).deep_view().push(text@));
}

fn push_optional(args: &mut Vec<String>, flag: &str, value: &Option<String>)
    ensures
        final(args).deep_view() == old(args).deep_view() + optional_flag(flag@, value.deep_view()),
{
    match value {
        Some(v) => {
            push_text(args, flag);
            push_text(args, v.as_str());
            assert(args.deep_view() =~= old(args).deep_view() + optional_flag(
                flag@,
                value.deep_view(),
            ));
        },
        None => {
            assert(args.deep_view() =~= old(args).deep_view() + optional_flag(
                flag@,
                value.deep_view(),
            ));
        },
    }
}

fn push_all(args: &mut Vec<String>, more: &Vec<String>)
    ensures
        final(args).deep_view() == old(args).deep_view() + more.deep_view(),
{
    let ghost before = args.deep_view();
    let mut i: usize = 0;
    while i < more.len()
        invariant
            i <= more.len(),
            args.deep_view() == before + more.deep_view().take(i as int),
        decreases more.len() - i,
    {
        push_text(args, more[i].as_str());
        proof {
            assert(more.deep_view().take(i + 1) =~= more.deep_view().take(i as int).push(
                more@[i as int]@,
            ));
            assert(args.deep_view() =~= before + more.deep_view().take(i + 1));
        }
        i += 1;
    }
    proof {
        assert(more.deep_view().take(more.len() as int) =~= more.deep_view());
    }
}

/// Writes an exit code as the error message shows it: [`exit_code_text`].
pub fn format_exit_code(code: Option<i32>) -> (text: String)
    ensures
        text@ == exit_code_text(code),
{
    match code {
        Some(c) => {
            let magnitude: u64 = if c < 0 {
                (-(c as i64)) as u64
            } else {
                c as u64
            };
            let digits = format_decimal(magnitude);
            if c < 0 {
                join3("Some(-", digits.as_str(), ")")
            } else {
                join3("Some(", digits.as_str(), ")")
            }
        },
        None => "None".to_owned(),
    }
}

impl TranscodeTask {
    /// The task as plain values.
    pub closed spec fn view(&self) -> TranscodeTaskView {
        TranscodeTaskView {
            id: self.id@,
            status: self.status@,
            process_running: self.process_running,
            output_dir: self.output_dir@,
        }
    }
}

/// What holds of every job that the supervisor keeps: the record carries the
/// job's identifier and the playlist of its output directory; progress is 0
/// before the encoder runs, below one million while it runs and after a
/// failure, and exactly one million after success; there is an error message
/// exactly in the state `Error`; and a subprocess runs only in the state
/// `Processing`.
pub open spec fn task_valid(task: TranscodeTaskView) -> bool {
    &&& task.status.id == task.id
    &&& task.status.output_path == Some(playlist_of(task.output_dir))
    &&& match task.status.status {
        TranscodeState::Pending => task.status.progress == 0,
        TranscodeState::Processing => task.status.progress <= PROGRESS_CAP,
        TranscodeState::Completed => task.status.progress == PROGRESS_DONE,
        TranscodeState::Error => task.status.progress <= PROGRESS_CAP,
    }
    &&& (task.status.error is Some <==> task.status.status == TranscodeState::Error)
    &&& (task.process_running ==> task.status.status == TranscodeState::Processing)
}

impl OfflineTranscodeRepo {
    #[verifier::type_invariant]
    spec fn slot_valid(self) -> bool {
        match self.current_task {
            Some(task) => task_valid(task@),
            None => true,
        }
    }

    /// Whether the job in the slot, if there is one, is as [`task_valid`]
    /// says. Every operation leaves the supervisor so.
    pub open spec fn valid(&self) -> bool {
        self@ is Some ==> task_valid(self@->0)
    }

    /// The job in the slot, if there is one.
    pub closed spec fn view(&self) -> Option<TranscodeTaskView> {
        match self.current_task {
            Some(task) => Some(task@),
            None => None,
        }
    }

    fn take_task(&mut self) -> (task: Option<TranscodeTask>)
        ensures
            final(self).current_task is None,
            task == old(self).current_task,
            task is Some ==> task_valid(task->0@),
    {
        proof {
            use_type_invariant(&*self);
        }
        let mut slot: Option<TranscodeTask> = None;
        core::mem::swap(&mut self.current_task, &mut slot);
        slot
    }

    /// A supervisor without a job.
    pub fn new() -> (repo: Self)
        ensures
            repo@ is None,
            repo.valid(),
    {
        OfflineTranscodeRepo { current_task: None }
    }

    /// The directory below `base_dir` that holds the output of all jobs.
    pub fn get_cache_dir(base_dir: &str) -> (dir: String)
        ensures
            dir@ == cache_dir_of(base_dir@),
    {
        join2(base_dir, "/.cache")
    }

    /// The output directory of the job `id` below `base_dir`.
    pub fn output_dir(base_dir: &str, id: &str) -> (dir: String)
        ensures
            dir@ == output_dir_of(base_dir@, id@),
    {
        let cache_dir = Self::get_cache_dir(base_dir);
        join3(cache_dir.as_str(), "/", id)
    }

    /// The path of the requested source below `base_dir`.
    pub fn source_path(base_dir: &str, data: &str) -> (path: String)
        ensures
            path@ == source_path_of(base_dir@, data@),
    {
        join3(base_dir, "/", data)
    }

    /// Whether a job is in the slot.
    pub fn is_active(&self) -> (active: bool)
        ensures
            active == (self@ is Some),
    {
        self.current_task.is_some()
    }

    /// The software profile: what the encoder runs with where no hardware
    /// encoder is found.
    pub fn get_cpu_config() -> (profile: HwAccelProfile)
        ensures
            profile@ == software_profile(),
    {
        cpu_profile()
    }

    /// Chooses the encoder profile for this host from the name of its
    /// operating system and from what the probes found.
    pub fn detect_hardware_acceleration(os: &str, probe: &HostProbe) -> (profile: HwAccelProfile)
        ensures
            profile@ == chosen_profile(platform_of(os@), probe@),
    {
        choose_profile(platform_from_name(os), probe)
    }

    /// The arguments with which the encoder is started: [`encoder_args`].
    pub fn encoder_arguments(profile: &HwAccelProfile, file_path: &str, output_dir: &str) -> (args:
        Vec<String>)
        ensures
            args.deep_view() == encoder_args(profile@, file_path@, output_dir@),
    {
        let mut args: Vec<String> = Vec::new();
        assert(args.deep_view() =~= Seq::<Seq<char>>::empty());
        push_optional(&mut args, "-hwaccel", &profile.hwaccel);
        push_optional(&mut args, "-hwaccel_output_format", &profile.hwaccel_output_format);
        let ghost flags = args.deep_view();
        push_text(&mut args, "-i");
        push_text(&mut args, file_path);
        push_text(&mut args, "-c:v");
        push_text(&mut args, profile.encoder.as_str());
        push_text(&mut args, "-preset");
        push_text(&mut args, profile.preset.as_str());
        let ghost input = args.deep_view();
        assert(input =~= flags + seq![
            "-i"@,
            file_path@,
            "-c:v"@,
            profile@.encoder,
            "-preset"@,
            profile@.preset,
        ]);
        push_all(&mut args, &profile.extra_args);
        let ghost video = args.deep_view();
        push_text(&mut args, "-c:a");
        push_text(&mut args, "copy");
        push_text(&mut args, "-f");
        push_text(&mut args, "hls");
        push_text(&mut args, "-g");
        push_text(&mut args, "90");
        push_text(&mut args, "-hls_time");
        push_text(&mut args, "9");
        push_text(&mut args, "-hls_list_size");
        push_text(&mut args, "0");
        push_text(&mut args, "-hls_flags");
        push_text(&mut args, "append_list+temp_file");
        push_text(&mut args, "-hls_segment_filename");
        push_owned(&mut args, join2(output_dir, "/segment%04d.ts"));
        push_owned(&mut args, join2(output_dir, "/playlist.m3u8"));
        assert(args.deep_view() =~= video + seq![
            "-c:a"@,
            "copy"@,
            "-f"@,
            "hls"@,
            "-g"@,
            "90"@,
            "-hls_time"@,
            "9"@,
            "-hls_list_size"@,
            "0"@,
            "-hls_flags"@,
            "append_list+temp_file"@,
            "-hls_segment_filename"@,
            segment_pattern_of(output_dir@),
            playlist_of(output_dir@),
        ]);
        args
    }

    /// Registers a job under the identifier `id`, unless the request is
    /// refused: [`created`] says which requests are, and as what.
    pub fn create_with_id(
        &mut self,
        base_dir: &str,
        source_exists: bool,
        source_type: FileType,
        id: String,
    ) -> (result: Result<TranscodeStatus, PipelineError>)
        ensures
            created(
                old(self)@,
                final(self)@,
                base_dir@,
                source_exists,
                source_type,
                id@,
                result,
            ),
            final(self).valid(),
    {
        proof {
            use_type_invariant(&*self);
        }
        if self.current_task.is_some() {
            return Err(PipelineError::new(ErrorKind::Conflict, "已有转码任务正在进行"));
        }
        if !source_exists {
            return Err(PipelineError::new(ErrorKind::InvalidInput, "文件不存在"));
        }
        match source_type {
            FileType::Video => {},
            _ => {
                return Err(PipelineError::new(ErrorKind::InvalidInput, "文件不是视频格式"));
            },
        }
        let output_dir = Self::output_dir(base_dir, id.as_str());
        let status = TranscodeStatus {
            id: id.clone(),
            status: TranscodeState::Pending,
            progress: 0,
            output_path: Some(join2(output_dir.as_str(), "/playlist.m3u8")),
            error: None,
        };
        let record = status.clone();
        self.current_task = Some(TranscodeTask { id, status, process_running: false, output_dir });
        Ok(record)
    }

    /// Creates a job for the source that `source` describes, under a fresh
    /// identifier: [`created`], for the identifier that was drawn and for the
    /// type of the source, which is its [`type_in`](PathProbe::type_in) where
    /// every host reads its path alike, and else a type that its path can
    /// have. While a job is in the slot
    /// the request is a conflict; else it is refused where the source does not
    /// exist or is no video. A refusal changes nothing.
    pub fn create(&mut self, base_dir: &str, source: &PathProbe) -> (result: Result<
        TranscodeStatus,
        PipelineError,
    >)
        ensures
            portable(source.path@) ==> exists|id: Seq<char>| #[trigger]
                created(
                    old(self)@,
                    final(self)@,
                    base_dir@,
                    source.exists,
                    source.type_in(),
                    id,
                    result,
                ),
            exists|source_type: FileType, id: Seq<char>|
                source.may_have_type(source_type) && #[trigger] created(
                    old(self)@,
                    final(self)@,
                    base_dir@,
                    source.exists,
                    source_type,
                    id,
                    result,
                ),
            old(self)@ is Some ==> result is Err && result->Err_0.kind == ErrorKind::Conflict
                && final(self)@ == old(self)@,
            old(self)@ is None ==> match result {
                Ok(status) => {
                    &&& source.exists
                    &&& !source.is_dir
                    &&& created(
                        old(self)@,
                        final(self)@,
                        base_dir@,
                        true,
                        FileType::Video,
                        status@.id,
                        result,
                    )
                },
                Err(error) => {
                    &&& final(self)@ == old(self)@
                    &&& error.kind == ErrorKind::InvalidInput
                },
            },
            !source.exists || source.is_dir ==> result is Err,
            final(self).valid(),
    {
        let source_type = source.file_type();
        let id = fresh_job_id();
        let ghost drawn = id@;
        let result = self.create_with_id(base_dir, source.exists, source_type, id);
        assert(created(
            old(self)@,
            self@,
            base_dir@,
            source.exists,
            source_type,
            drawn,
            result,
        ));
        result
    }

    /// The last known record of the job `id`; `NotFound` where the slot is
    /// empty or holds another job.
    pub fn get(&self, id: &str) -> (result: Result<TranscodeStatus, PipelineError>)
        ensures
            holds(self@, id@) ==> result is Ok && result->Ok_0@ == self@->0.status,
            !holds(self@, id@) ==> result is Err && result->Err_0.kind == ErrorKind::NotFound
                && result->Err_0.message@ == "没有找到对应的转码任务"@,
            self.valid(),
    {
        proof {
            use_type_invariant(self);
        }
        match &self.current_task {
            Some(task) => {
                if str_eq(task.id.as_str(), id) {
                    return Ok(task.status.clone());
                }
            },
            None => {},
        }
        Err(PipelineError::new(ErrorKind::NotFound, "没有找到对应的转码任务"))
    }

    /// Deletes the job `id` and frees the slot, unless the slot is empty or
    /// holds another job: [`removed`].
    pub fn delete(&mut self, id: &str) -> (result: Result<Cleanup, PipelineError>)
        ensures
            removed(old(self)@, final(self)@, id@, result),
            final(self).valid(),
    {
        match self.take_task() {
            Some(task) => {
                if str_eq(task.id.as_str(), id) {
                    Ok(Cleanup { kill_process: task.process_running, output_dir: task.output_dir })
                } else {
                    self.current_task = Some(task);
                    Err(PipelineError::new(ErrorKind::NotFound, "没有找到对应的转码任务"))
                }
            },
            None => Err(PipelineError::new(ErrorKind::NotFound, "没有找到对应的转码任务")),
        }
    }

    /// Notes that the encoder of the job `id` has started: the job goes from
    /// `Pending` to `Processing`, and its record is returned for publication.
    /// Where the slot does not hold this job in the state `Pending`, nothing
    /// changes and nothing is returned.
    pub fn process_started(&mut self, id: &str) -> (published: Option<TranscodeStatus>)
        ensures
            holds_in(old(self)@, id@, TranscodeState::Pending) ==> final(self)@ == Some(
                started(old(self)@->0),
            ) && published is Some && published->0@ == started(old(self)@->0).status,
            !holds_in(old(self)@, id@, TranscodeState::Pending) ==> final(self)@ == old(self)@
                && published is None,
            final(self).valid(),
    {
        match self.take_task() {
            Some(task) => {
                let pending = match task.status.status {
                    TranscodeState::Pending => true,
                    _ => false,
                };
                if pending && str_eq(task.id.as_str(), id) {
                    let status = TranscodeStatus {
                        id: task.status.id,
                        status: TranscodeState::Processing,
                        progress: task.status.progress,
                        output_path: task.status.output_path,
                        error: task.status.error,
                    };
                    let record = status.clone();
                    self.current_task = Some(
                        TranscodeTask {
                            id: task.id,
                            status,
                            process_running: true,
                            output_dir: task.output_dir,
                        },
                    );
                    Some(record)
                } else {
                    self.current_task = Some(task);
                    None
                }
            },
            None => None,
        }
    }

    fn put_failed(&mut self, task: TranscodeTask, message: String)
        requires
            old(self).current_task is None,
            task_valid(task@),
            !task@.status.status.is_terminal(),
        ensures
            final(self)@ == Some(failed(task@, message@)),
    {
        let status = TranscodeStatus {
            id: task.status.id,
            status: TranscodeState::Error,
            progress: task.status.progress,
            output_path: task.status.output_path,
            error: Some(message),
        };
        self.current_task = Some(
            TranscodeTask {
                id: task.id,
                status,
                process_running: false,
                output_dir: task.output_dir,
            },
        );
    }

    /// Notes that the output directory of the job `id` could not be made, for
    /// the reason `reason`, and gives the error to hand on. A job that has not
    /// started yet is given up: the slot is free again. Where the slot does not
    /// hold this job in the state `Pending`, nothing changes.
    pub fn setup_failed(&mut self, id: &str, reason: &str) -> (error: PipelineError)
        ensures
            error.kind == ErrorKind::ResourceError,
            error.message@ == "无法创建输出目录: "@ + reason@,
            holds_in(old(self)@, id@, TranscodeState::Pending) ==> final(self)@ is None,
            !holds_in(old(self)@, id@, TranscodeState::Pending) ==> final(self)@ == old(self)@,
            final(self).valid(),
    {
        let error = PipelineError::with_detail(ErrorKind::ResourceError, "无法创建输出目录: ", reason);
        match self.take_task() {
            Some(task) => {
                let pending = match task.status.status {
                    TranscodeState::Pending => true,
                    _ => false,
                };
                if !(pending && str_eq(task.id.as_str(), id)) {
                    self.current_task = Some(task);
                }
            },
            None => {},
        }
        error
    }

    /// Notes that the encoder of the job `id` could not be started, for the
    /// reason `reason`, and gives the error to hand on. The job goes from
    /// `Pending` to `Error` and carries the error's message; it stays in the
    /// slot until it is deleted. Where the slot does not hold this job in the
    /// state `Pending`, nothing changes.
    pub fn spawn_failed(&mut self, id: &str, reason: &str) -> (error: PipelineError)
        ensures
            error.kind == ErrorKind::ResourceError,
            error.message@ == "无法启动转码进程: "@ + reason@,
            holds_in(old(self)@, id@, TranscodeState::Pending) ==> final(self)@ == Some(
                failed(old(self)@->0, error.message@),
            ),
            !holds_in(old(self)@, id@, TranscodeState::Pending) ==> final(self)@ == old(self)@,
            final(self).valid(),
    {
        let error = PipelineError::with_detail(ErrorKind::ResourceError, "无法启动转码进程: ", reason);
        match self.take_task() {
            Some(task) => {
                let pending = match task.status.status {
                    TranscodeState::Pending => true,
                    _ => false,
                };
                if pending && str_eq(task.id.as_str(), id) {
                    self.put_failed(task, error.message.clone());
                } else {
                    self.current_task = Some(task);
                }
            },
            None => {},
        }
        error
    }

    /// Takes a progress report for the job `id`, in millionths. While the job
    /// is `Processing` its progress becomes the reported one, held at
    /// [`PROGRESS_CAP`], and the record is returned for publication. In every
    /// other case nothing changes and nothing is returned.
    pub fn report_progress(&mut self, id: &str, progress: u32) -> (published: Option<
        TranscodeStatus,
    >)
        ensures
            holds_in(old(self)@, id@, TranscodeState::Processing) ==> final(self)@ == Some(
                progressed(old(self)@->0, progress),
            ) && published is Some && published->0@ == progressed(old(self)@->0, progress).status,
            !holds_in(old(self)@, id@, TranscodeState::Processing) ==> final(self)@ == old(self)@
                && published is None,
            final(self).valid(),
    {
        match self.take_task() {
            Some(task) => {
                let processing = match task.status.status {
                    TranscodeState::Processing => true,
                    _ => false,
                };
                if processing && str_eq(task.id.as_str(), id) {
                    let status = TranscodeStatus {
                        id: task.status.id,
                        status: TranscodeState::Processing,
                        progress: if progress > PROGRESS_CAP {
                            PROGRESS_CAP
                        } else {
                            progress
                        },
                        output_path: task.status.output_path,
                        error: task.status.error,
                    };
                    let record = status.clone();
                    self.current_task = Some(
                        TranscodeTask {
                            id: task.id,
                            status,
                            process_running: task.process_running,
                            output_dir: task.output_dir,
                        },
                    );
                    Some(record)
                } else {
                    self.current_task = Some(task);
                    None
                }
            },
            None => None,
        }
    }

    /// Notes that the encoder of the job `id` has ended. After success the
    /// job is `Completed` with a progress of exactly [`PROGRESS_DONE`]; after
    /// a failure it is `Error` and carries a message with the exit code. The
    /// final record is returned for publication, together with the outcome to
    /// hand on. Where the slot does not hold this job in the state
    /// `Processing`, nothing changes, nothing is published, and the outcome is
    /// an error: the job is gone.
    pub fn process_exited(&mut self, id: &str, exit: &ProcessExit) -> (report: (
        Option<TranscodeStatus>,
        Result<(), PipelineError>,
    ))
        ensures
            !holds_in(old(self)@, id@, TranscodeState::Processing) ==> {
                &&& final(self)@ == old(self)@
                &&& report.0 is None
                &&& report.1 is Err
                &&& report.1->Err_0.kind == ErrorKind::ResourceError
                &&& report.1->Err_0.message@ == "转码任务未找到"@
            },
            holds_in(old(self)@, id@, TranscodeState::Processing) ==> match *exit {
                ProcessExit::Success => {
                    &&& final(self)@ == Some(completed(old(self)@->0))
                    &&& report.0 is Some
                    &&& report.0->0@ == completed(old(self)@->0).status
                    &&& report.1 is Ok
                },
                ProcessExit::Failure(code) => {
                    &&& final(self)@ == Some(
                        failed(old(self)@->0, "ffmpeg进程退出，状态码: "@ + exit_code_text(code)),
                    )
                    &&& report.0 is Some
                    &&& report.0->0@ == final(self)@->0.status
                    &&& report.1 is Err
                    &&& report.1->Err_0.kind == ErrorKind::ResourceError
                    &&& report.1->Err_0.message@ == "转码进程异常退出，状态码: "@ + exit_code_text(code)
                },
            },
            final(self).valid(),
    {
        let task = match self.take_task() {
            Some(task) => task,
            None => {
                return (None, Err(PipelineError::new(ErrorKind::ResourceError, "转码任务未找到")));
            },
        };
        let processing = match task.status.status {
            TranscodeState::Processing => true,
            _ => false,
        };
        if !(processing && str_eq(task.id.as_str(), id)) {
            self.current_task = Some(task);
            return (None, Err(PipelineError::new(ErrorKind::ResourceError, "转码任务未找到")));
        }
        match exit {
            ProcessExit::Success => {
                let status = TranscodeStatus {
                    id: task.status.id,
                    status: TranscodeState::Completed,
                    progress: PROGRESS_DONE,
                    output_path: task.status.output_path,
                    error: task.status.error,
                };
                let record = status.clone();
                self.current_task = Some(
                    TranscodeTask {
                        id: task.id,
                        status,
                        process_running: false,
                        output_dir: task.output_dir,
                    },
                );
                (Some(record), Ok(()))
            },
            ProcessExit::Failure(code) => {
                let code_text = format_exit_code(*code);
                let message = join2("ffmpeg进程退出，状态码: ", code_text.as_str());
                self.put_failed(task, message);
                let record = self.get(id);
                let published = match record {
                    Ok(status) => Some(status),
                    Err(_) => None,
                };
                (
                    published,
                    Err(
                        PipelineError::with_detail(
                            ErrorKind::ResourceError,
                            "转码进程异常退出，状态码: ",
                            code_text.as_str(),
                        ),
                    ),
                )
            },
        }
    }
}

/// Every step of a job follows the state machine: an operation of the
/// supervisor either leaves the state of the job as it is or moves it along
/// one of the arrows of [`TranscodeState::may_become`], and leaves the job as
/// [`task_valid`] says. In particular nothing moves a job out of `Completed`
/// or `Error`.
pub proof fn lemma_steps_follow_state_machine(
    task: TranscodeTaskView,
    progress: u32,
    message: Seq<char>,
)
    requires
        task_valid(task),
    ensures
        task.status.status == TranscodeState::Pending ==> task.status.status.may_become(
            started(task).status.status,
        ) && task_valid(started(task)),
        !task.status.status.is_terminal() ==> task.status.status.may_become(
            failed(task, message).status.status,
        ) && task_valid(failed(task, message)),
        task.status.status == TranscodeState::Processing ==> task.status.status.may_become(
            completed(task).status.status,
        ) && task_valid(completed(task)),
        task.status.status == TranscodeState::Processing ==> progressed(task, progress).status.status
            == task.status.status && task_valid(progressed(task, progress)),
{
}

/// The progress that observers see. While the encoder runs, two reports that
/// were computed from times of which the second is no earlier show a progress
/// that does not run backwards, and every report stays below
/// [`PROGRESS_DONE`]. The end of the encoder in success shows exactly
/// [`PROGRESS_DONE`].
pub proof fn lemma_progress_seen(task: TranscodeTaskView, earlier: u64, later: u64, duration: u64)
    requires
        task_valid(task),
        task.status.status == TranscodeState::Processing,
        earlier <= later,
    ensures
        ({
            let first = progressed(task, progress_ratio(earlier as nat, duration as nat) as u32);
            let second = progressed(first, progress_ratio(later as nat, duration as nat) as u32);
            &&& first.status.progress <= second.status.progress
            &&& first.status.progress < PROGRESS_DONE
            &&& second.status.progress < PROGRESS_DONE
            &&& completed(second).status.progress == PROGRESS_DONE
        }),
{
    lemma_progress_monotonic(earlier as nat, later as nat, duration as nat);
}

/// Single flight. While a job is in the slot, a request for another one is
/// refused as a conflict, whatever it asks for, and changes nothing; once that
/// job has been deleted, a request for a video that exists is granted.
pub proof fn lemma_single_flight(
    slot: Option<TranscodeTaskView>,
    after_first: Option<TranscodeTaskView>,
    after_delete: Option<TranscodeTaskView>,
    after_second: Option<TranscodeTaskView>,
    base_dir: Seq<char>,
    source_exists: bool,
    source_type: FileType,
    id: Seq<char>,
    first: Result<TranscodeStatus, PipelineError>,
    deleted: Result<Cleanup, PipelineError>,
    second: Result<TranscodeStatus, PipelineError>,
)
    requires
        slot is Some,
        created(slot, after_first, base_dir, source_exists, source_type, id, first),
        removed(after_first, after_delete, slot->0.id, deleted),
        created(after_delete, after_second, base_dir, true, FileType::Video, id, second),
    ensures
        first is Err,
        first->Err_0.kind == ErrorKind::Conflict,
        after_first == slot,
        deleted is Ok,
        after_delete is None,
        second is Ok,
        after_second == Some(pending_task(id, output_dir_of(base_dir, id))),
{
}

} // verus!
