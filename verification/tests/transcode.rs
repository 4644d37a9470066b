use media_pipeline::models::error::ErrorKind;
use media_pipeline::models::files::{FileType, PathProbe};
use media_pipeline::models::transcode::{TranscodeState, PROGRESS_CAP, PROGRESS_DONE};
use media_pipeline::repos::offline::hwaccel::{HostProbe, HwAccelProfile, ToolRun};
use media_pipeline::repos::offline::offline_transcode_repo::{
    format_exit_code, OfflineTranscodeRepo, ProcessExit,
};

fn video(path: &str) -> PathProbe {
    PathProbe { path: path.to_string(), exists: true, is_dir: false }
}

fn running_job(repo: &mut OfflineTranscodeRepo, id: &str) {
    let status = repo.create_with_id("/srv", true, FileType::Video, id.to_string()).unwrap();
    assert_eq!(status.status, TranscodeState::Pending);
    let status = repo.process_started(id).unwrap();
    assert_eq!(status.status, TranscodeState::Processing);
}

#[test]
fn a_new_supervisor_has_no_job() {
    let repo = OfflineTranscodeRepo::new();
    assert!(!repo.is_active());
    let error = repo.get("anything").unwrap_err();
    assert_eq!(error.kind, ErrorKind::NotFound);
    assert_eq!(error.message, "没有找到对应的转码任务");
}

#[test]
fn a_created_job_is_pending_and_knows_its_playlist() {
    let mut repo = OfflineTranscodeRepo::new();
    let status = repo.create_with_id("/srv/media", true, FileType::Video, "job-1".to_string());
    let status = status.unwrap();
    assert_eq!(status.id, "job-1");
    assert_eq!(status.status, TranscodeState::Pending);
    assert_eq!(status.progress, 0);
    assert_eq!(status.output_path.as_deref(), Some("/srv/media/.cache/job-1/playlist.m3u8"));
    assert_eq!(status.error, None);
    assert!(repo.is_active());
    let pulled = repo.get("job-1").unwrap();
    assert_eq!(pulled.id, "job-1");
    assert_eq!(pulled.status, TranscodeState::Pending);
}

#[test]
fn a_fresh_identifier_is_drawn_for_each_job() {
    let mut repo = OfflineTranscodeRepo::new();
    let first = repo.create("/srv", &video("/srv/movie.mp4")).unwrap();
    assert!(!first.id.is_empty());
    assert_eq!(first.status, TranscodeState::Pending);
    assert_eq!(
        first.output_path,
        Some(format!("/srv/.cache/{}/playlist.m3u8", first.id))
    );
    assert!(repo.delete(&first.id).is_ok());
    let second = repo.create("/srv", &video("/srv/movie.MKV")).unwrap();
    assert_ne!(first.id, second.id);
}

#[test]
fn a_second_job_is_a_conflict_until_the_first_is_deleted() {
    let mut repo = OfflineTranscodeRepo::new();
    let first = repo.create("/srv", &video("/srv/one.mp4")).unwrap();
    let error = repo.create("/srv", &video("/srv/two.mp4")).unwrap_err();
    assert_eq!(error.kind, ErrorKind::Conflict);
    assert_eq!(error.message, "已有转码任务正在进行");
    // the first job is untouched
    assert_eq!(repo.get(&first.id).unwrap().status, TranscodeState::Pending);
    let cleanup = repo.delete(&first.id).unwrap();
    assert_eq!(cleanup.output_dir, format!("/srv/.cache/{}", first.id));
    assert!(!repo.is_active());
    let second = repo.create("/srv", &video("/srv/two.mp4")).unwrap();
    assert_eq!(second.status, TranscodeState::Pending);
    assert!(repo.is_active());
}

#[test]
fn a_finished_job_still_blocks_the_slot() {
    let mut repo = OfflineTranscodeRepo::new();
    running_job(&mut repo, "a");
    let (_, outcome) = repo.process_exited("a", &ProcessExit::Success);
    assert!(outcome.is_ok());
    let error = repo.create_with_id("/srv", true, FileType::Video, "b".to_string()).unwrap_err();
    assert_eq!(error.kind, ErrorKind::Conflict);
    assert!(repo.delete("a").is_ok());
    assert!(repo.create_with_id("/srv", true, FileType::Video, "b".to_string()).is_ok());
}

#[test]
fn a_source_that_is_no_video_is_invalid_input() {
    let mut repo = OfflineTranscodeRepo::new();
    for path in ["/srv/picture.png", "/srv/notes.txt", "/srv/noextension"] {
        let error = repo.create("/srv", &video(path)).unwrap_err();
        assert_eq!(error.kind, ErrorKind::InvalidInput);
        assert_eq!(error.message, "文件不是视频格式");
    }
    let folder = PathProbe { path: "/srv/folder.mp4".to_string(), exists: true, is_dir: true };
    let error = repo.create("/srv", &folder).unwrap_err();
    assert_eq!(error.kind, ErrorKind::InvalidInput);
    assert!(!repo.is_active());
}

#[test]
fn a_source_that_does_not_exist_is_invalid_input() {
    let mut repo = OfflineTranscodeRepo::new();
    let missing = PathProbe { path: "/srv/gone.mp4".to_string(), exists: false, is_dir: false };
    let error = repo.create("/srv", &missing).unwrap_err();
    assert_eq!(error.kind, ErrorKind::InvalidInput);
    assert_eq!(error.message, "文件不存在");
    assert!(!repo.is_active());
}

#[test]
fn every_request_is_a_conflict_while_a_job_runs() {
    let mut repo = OfflineTranscodeRepo::new();
    running_job(&mut repo, "a");
    let missing = PathProbe { path: "/srv/gone.mp4".to_string(), exists: false, is_dir: false };
    for source in [video("/srv/picture.png"), video("/srv/other.mp4"), missing] {
        let error = repo.create("/srv", &source).unwrap_err();
        assert_eq!(error.kind, ErrorKind::Conflict);
        assert_eq!(error.message, "已有转码任务正在进行");
    }
    assert_eq!(repo.get("a").unwrap().status, TranscodeState::Processing);
}

#[test]
fn an_encoder_that_cannot_be_started_fails_the_job() {
    let mut repo = OfflineTranscodeRepo::new();
    let status = repo.create("/srv", &video("/srv/video.mp4")).unwrap();
    let error = repo.spawn_failed(&status.id, "No such file or directory (os error 2)");
    assert_eq!(error.kind, ErrorKind::ResourceError);
    assert_eq!(error.message, "无法启动转码进程: No such file or directory (os error 2)");
    let failed = repo.get(&status.id).unwrap();
    assert_eq!(failed.status, TranscodeState::Error);
    assert_eq!(failed.progress, 0);
    assert_eq!(
        failed.error.as_deref(),
        Some("无法启动转码进程: No such file or directory (os error 2)")
    );
    // the job stays until it is deleted, and its directory is still cleaned up
    assert!(repo.is_active());
    let cleanup = repo.delete(&status.id).unwrap();
    assert!(!cleanup.kill_process);
    assert_eq!(cleanup.output_dir, format!("/srv/.cache/{}", status.id));
    assert!(!repo.is_active());
}

#[test]
fn a_started_job_is_processing() {
    let mut repo = OfflineTranscodeRepo::new();
    let _ = repo.create_with_id("/srv", true, FileType::Video, "a".to_string()).unwrap();
    assert!(repo.process_started("other").is_none());
    let status = repo.process_started("a").unwrap();
    assert_eq!(status.status, TranscodeState::Processing);
    assert_eq!(status.progress, 0);
    // a job starts once
    assert!(repo.process_started("a").is_none());
    assert_eq!(repo.get("a").unwrap().status, TranscodeState::Processing);
}

#[test]
fn progress_is_taken_only_while_the_encoder_runs() {
    let mut repo = OfflineTranscodeRepo::new();
    assert!(repo.report_progress("a", 10).is_none());
    let _ = repo.create_with_id("/srv", true, FileType::Video, "a".to_string()).unwrap();
    assert!(repo.report_progress("a", 10).is_none());
    let _ = repo.process_started("a");
    assert!(repo.report_progress("b", 10).is_none());
    let status = repo.report_progress("a", 250_000).unwrap();
    assert_eq!(status.progress, 250_000);
    assert_eq!(status.status, TranscodeState::Processing);
    assert_eq!(repo.get("a").unwrap().progress, 250_000);
}

#[test]
fn progress_stays_below_one_until_the_encoder_has_ended() {
    let mut repo = OfflineTranscodeRepo::new();
    running_job(&mut repo, "a");
    assert_eq!(repo.report_progress("a", 999_999).unwrap().progress, PROGRESS_CAP);
    assert_eq!(repo.report_progress("a", 1_000_000).unwrap().progress, PROGRESS_CAP);
    assert_eq!(repo.report_progress("a", u32::MAX).unwrap().progress, PROGRESS_CAP);
    let (published, outcome) = repo.process_exited("a", &ProcessExit::Success);
    assert!(outcome.is_ok());
    let published = published.unwrap();
    assert_eq!(published.status, TranscodeState::Completed);
    assert_eq!(published.progress, PROGRESS_DONE);
    assert_eq!(published.progress, 1_000_000);
    assert_eq!(published.error, None);
    assert_eq!(published.output_path.as_deref(), Some("/srv/.cache/a/playlist.m3u8"));
}

#[test]
fn an_encoder_that_failed_fails_the_job() {
    let mut repo = OfflineTranscodeRepo::new();
    running_job(&mut repo, "a");
    let _ = repo.report_progress("a", 400_000);
    let (published, outcome) = repo.process_exited("a", &ProcessExit::Failure(Some(1)));
    let error = outcome.unwrap_err();
    assert_eq!(error.kind, ErrorKind::ResourceError);
    assert_eq!(error.message, "转码进程异常退出，状态码: Some(1)");
    let published = published.unwrap();
    assert_eq!(published.status, TranscodeState::Error);
    assert_eq!(published.progress, 400_000);
    assert_eq!(published.error.as_deref(), Some("ffmpeg进程退出，状态码: Some(1)"));
    let (published, outcome) = {
        let mut other = OfflineTranscodeRepo::new();
        running_job(&mut other, "b");
        other.process_exited("b", &ProcessExit::Failure(None))
    };
    assert_eq!(outcome.unwrap_err().message, "转码进程异常退出，状态码: None");
    assert_eq!(published.unwrap().error.as_deref(), Some("ffmpeg进程退出，状态码: None"));
}

#[test]
fn final_states_are_final() {
    let mut repo = OfflineTranscodeRepo::new();
    running_job(&mut repo, "a");
    let _ = repo.process_exited("a", &ProcessExit::Success);
    assert!(repo.report_progress("a", 5).is_none());
    assert!(repo.process_started("a").is_none());
    let (published, outcome) = repo.process_exited("a", &ProcessExit::Failure(Some(9)));
    assert!(published.is_none());
    assert_eq!(outcome.unwrap_err().message, "转码任务未找到");
    let _ = repo.spawn_failed("a", "late");
    let status = repo.get("a").unwrap();
    assert_eq!(status.status, TranscodeState::Completed);
    assert_eq!(status.progress, PROGRESS_DONE);
    assert_eq!(status.error, None);
}

#[test]
fn the_end_of_an_unknown_job_is_an_error() {
    let mut repo = OfflineTranscodeRepo::new();
    let (published, outcome) = repo.process_exited("a", &ProcessExit::Success);
    assert!(published.is_none());
    let error = outcome.unwrap_err();
    assert_eq!(error.kind, ErrorKind::ResourceError);
    assert_eq!(error.message, "转码任务未找到");
    let _ = repo.create_with_id("/srv", true, FileType::Video, "a".to_string()).unwrap();
    let (published, outcome) = repo.process_exited("a", &ProcessExit::Success);
    assert!(published.is_none());
    assert!(outcome.is_err());
    assert_eq!(repo.get("a").unwrap().status, TranscodeState::Pending);
}

#[test]
fn deleting_needs_the_identifier_of_the_job() {
    let mut repo = OfflineTranscodeRepo::new();
    let error = repo.delete("a").unwrap_err();
    assert_eq!(error.kind, ErrorKind::NotFound);
    assert_eq!(error.message, "没有找到对应的转码任务");
    running_job(&mut repo, "a");
    let error = repo.delete("b").unwrap_err();
    assert_eq!(error.kind, ErrorKind::NotFound);
    assert_eq!(repo.get("a").unwrap().status, TranscodeState::Processing);
    let error = repo.get("b").unwrap_err();
    assert_eq!(error.kind, ErrorKind::NotFound);
}

#[test]
fn deleting_a_running_job_asks_for_the_encoder_to_be_killed() {
    let mut repo = OfflineTranscodeRepo::new();
    running_job(&mut repo, "a");
    let cleanup = repo.delete("a").unwrap();
    assert!(cleanup.kill_process);
    assert_eq!(cleanup.output_dir, "/srv/.cache/a");
    assert!(!repo.is_active());
    assert!(repo.delete("a").is_err());

    let _ = repo.create_with_id("/srv", true, FileType::Video, "b".to_string()).unwrap();
    assert!(!repo.delete("b").unwrap().kill_process);

    running_job(&mut repo, "c");
    let _ = repo.process_exited("c", &ProcessExit::Success);
    assert!(!repo.delete("c").unwrap().kill_process);
}

#[test]
fn the_paths_of_a_job_lie_below_the_cache_directory() {
    assert_eq!(OfflineTranscodeRepo::get_cache_dir("/srv/media"), "/srv/media/.cache");
    assert_eq!(OfflineTranscodeRepo::source_path("/srv/media", "films/a.mp4"), "/srv/media/films/a.mp4");
}

#[test]
fn the_software_encoder_is_run_with_these_arguments() {
    let profile = OfflineTranscodeRepo::get_cpu_config();
    let args = OfflineTranscodeRepo::encoder_arguments(&profile, "/srv/a.mp4", "/srv/.cache/j");
    assert_eq!(
        args,
        vec![
            "-i",
            "/srv/a.mp4",
            "-c:v",
            "libx264",
            "-preset",
            "fast",
            "-crf",
            "25",
            "-c:a",
            "copy",
            "-f",
            "hls",
            "-g",
            "90",
            "-hls_time",
            "9",
            "-hls_list_size",
            "0",
            "-hls_flags",
            "append_list+temp_file",
            "-hls_segment_filename",
            "/srv/.cache/j/segment%04d.ts",
            "/srv/.cache/j/playlist.m3u8"
        ]
    );
}

#[test]
fn a_hardware_encoder_is_run_with_its_acceleration_options() {
    let probe = HostProbe {
        nvidia_tool: ToolRun::Succeeded(String::new()),
        encoder_toolchain: ToolRun::Succeeded(
            " V....D h264_nvenc           NVIDIA NVENC H.264 encoder".to_string(),
        ),
    };
    let profile = OfflineTranscodeRepo::detect_hardware_acceleration("windows", &probe);
    let args = OfflineTranscodeRepo::encoder_arguments(&profile, "in.mkv", "out");
    assert_eq!(
        &args[..10],
        &[
            "-hwaccel",
            "cuda",
            "-hwaccel_output_format",
            "cuda",
            "-i",
            "in.mkv",
            "-c:v",
            "h264_nvenc",
            "-preset",
            "p6"
        ]
    );
    assert_eq!(args[10], "-c:a");
    assert_eq!(args.len(), 25);
    assert_eq!(args[24], "out/playlist.m3u8");
}

#[test]
fn extra_arguments_of_the_profile_follow_the_preset() {
    let profile = HwAccelProfile {
        encoder: "enc".to_string(),
        preset: "pre".to_string(),
        hwaccel: Some("hw".to_string()),
        hwaccel_output_format: None,
        extra_args: vec!["-x".to_string(), "1".to_string(), "-y".to_string()],
    };
    let args = OfflineTranscodeRepo::encoder_arguments(&profile, "in", "out");
    assert_eq!(
        &args[..11],
        &["-hwaccel", "hw", "-i", "in", "-c:v", "enc", "-preset", "pre", "-x", "1", "-y"]
    );
    assert_eq!(args.len(), 26);
}

#[test]
fn exit_codes_are_shown_as_options() {
    assert_eq!(format_exit_code(None), "None");
    assert_eq!(format_exit_code(Some(0)), "Some(0)");
    assert_eq!(format_exit_code(Some(1)), "Some(1)");
    assert_eq!(format_exit_code(Some(255)), "Some(255)");
    assert_eq!(format_exit_code(Some(-1)), "Some(-1)");
    assert_eq!(format_exit_code(Some(i32::MAX)), "Some(2147483647)");
    assert_eq!(format_exit_code(Some(i32::MIN)), "Some(-2147483648)");
}

#[test]
fn the_states_know_whether_they_are_final() {
    assert!(!TranscodeState::Pending.terminal());
    assert!(!TranscodeState::Processing.terminal());
    assert!(TranscodeState::Completed.terminal());
    assert!(TranscodeState::Error.terminal());
}

#[test]
fn a_job_whose_directory_cannot_be_made_is_given_up() {
    let mut repo = OfflineTranscodeRepo::new();
    let status = repo.create("/srv", &video("/srv/video.mp4")).unwrap();
    assert_eq!(
        OfflineTranscodeRepo::output_dir("/srv", &status.id),
        format!("/srv/.cache/{}", status.id)
    );
    let error = repo.setup_failed(&status.id, "Permission denied (os error 13)");
    assert_eq!(error.kind, ErrorKind::ResourceError);
    assert_eq!(error.message, "无法创建输出目录: Permission denied (os error 13)");
    assert!(!repo.is_active());
    assert!(repo.create("/srv", &video("/srv/video.mp4")).is_ok());
}

#[test]
fn only_a_pending_job_is_given_up() {
    let mut repo = OfflineTranscodeRepo::new();
    let _ = repo.setup_failed("nobody", "x");
    assert!(!repo.is_active());
    running_job(&mut repo, "a");
    let _ = repo.setup_failed("a", "x");
    assert_eq!(repo.get("a").unwrap().status, TranscodeState::Processing);
    let mut repo = OfflineTranscodeRepo::new();
    let _ = repo.create_with_id("/srv", true, FileType::Video, "a".to_string()).unwrap();
    let _ = repo.setup_failed("b", "x");
    assert_eq!(repo.get("a").unwrap().status, TranscodeState::Pending);
}
