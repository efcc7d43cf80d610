use polysaver::error::{CoreError, DownloadErrorCode, DownloadErrorDetails};
use polysaver::format::{DownloadPreset, DownloadPresetDto, Mp3Quality, OutputFormat, VideoQuality};
use polysaver::history::{
    replay_journal, should_compact, DownloadHistoryEntry, DownloadHistoryEntryDto,
    HistoryEntryId, HistoryJournalOp, InMemoryHistory, JournalLine, history_file_path,
    history_source_url,
};
use polysaver::job::{DownloadId, DownloadJob, DownloadStatus};
use polysaver::limiter::LimiterState;
use polysaver::media_url::MediaUrl;
use polysaver::path_resolver::{normalize_lexical, resolve_user_directory};
use polysaver::pipeline::{
    check_converted_size, converted_file_name, enter_converting, enter_downloading,
    enter_finalizing, enter_preparing, history_warning, plan_conversion, plan_start,
    resolve_target_dir, select_inputs, settle_pipeline, stream_progress_event, InspectedArtifact,
    Settled,
};
use polysaver::ports::{AudioCodec, ConvertRequest, ProgressPhase, StreamProgress};
use polysaver::probe::{FormatOption, ProbeResult};
use polysaver::publish::{
    candidate_file_name, stage_file_name, CreateResult, LinkResult, PublishStep, Publisher,
};
use polysaver::service::{check_web_url, JobRegistry};
use polysaver::settings::AppSettings;

fn url(s: &str) -> MediaUrl {
    MediaUrl::parse(s).unwrap()
}

#[test]
fn test_resolve_tilde_only() {
    let fake_home = "/Users/alice";
    let res = resolve_user_directory("~", fake_home, false).unwrap();
    assert_eq!(res, "/Users/alice");

    let res_spaced = resolve_user_directory("  ~  ", fake_home, false).unwrap();
    assert_eq!(res_spaced, "/Users/alice");
}

#[test]
fn test_resolve_tilde_subdirectories() {
    let fake_home = "/Users/alice";

    let res1 = resolve_user_directory("~/documents", fake_home, false).unwrap();
    assert_eq!(res1, "/Users/alice/documents");
    assert_ne!(res1, "/documents");

    let res2 = resolve_user_directory("~/Documents/PolySaver", fake_home, false).unwrap();
    assert_eq!(res2, "/Users/alice/Documents/PolySaver");

    let res3 = resolve_user_directory(r"~\Downloads\PolySaver", fake_home, false).unwrap();
    assert_eq!(res3, r"/Users/alice/Downloads\PolySaver");
}

#[test]
fn test_reject_invalid_tilde_forms() {
    let fake_home = "/Users/alice";

    let err1 = resolve_user_directory("~other", fake_home, false);
    assert!(err1.is_err());
    assert_eq!(err1.unwrap_err().code, "INVALID_DIRECTORY");

    let err2 = resolve_user_directory("abc/~/test", fake_home, false);
    assert!(err2.is_err());
    assert_eq!(err2.unwrap_err().code, "INVALID_DIRECTORY");
}

#[test]
fn test_reject_relative_paths_and_empty() {
    let fake_home = "/Users/alice";

    assert!(resolve_user_directory("", fake_home, false).is_err());
    assert!(resolve_user_directory("   ", fake_home, false).is_err());

    assert!(resolve_user_directory("documents", fake_home, false).is_err());
    assert!(resolve_user_directory("../documents", fake_home, false).is_err());
    assert!(resolve_user_directory("./downloads", fake_home, false).is_err());

    assert!(resolve_user_directory("/Users/alice/\0danger", fake_home, false).is_err());
}

#[test]
fn test_reject_tilde_escaping_home() {
    let fake_home = "/Users/alice";

    let err = resolve_user_directory("~/../Shared", fake_home, false);
    assert!(err.is_err());
    assert_eq!(err.unwrap_err().code, "INVALID_DIRECTORY");
}

#[test]
fn test_preserve_explicit_absolute_paths() {
    let fake_home = "/Users/alice";

    let external = "/Volumes/ExternalSSD/PolySaver";
    let res1 = resolve_user_directory(external, fake_home, false).unwrap();
    assert_eq!(res1, "/Volumes/ExternalSSD/PolySaver");

    let res2 = resolve_user_directory("/opt/storage/./media/../media/vids", fake_home, false).unwrap();
    assert_eq!(res2, "/opt/storage/media/vids");
}

#[test]
fn test_normalize_lexical_examples() {
    assert_eq!(normalize_lexical("/a/./b/../c", false), "/a/c");
    assert_eq!(normalize_lexical("/../x", false), "/x");
    assert_eq!(normalize_lexical("a//b/", false), "a/b");
    assert_eq!(normalize_lexical(&normalize_lexical("/a/b/../../c/.", false), false), normalize_lexical("/a/b/../../c/.", false));
}

#[test]
fn test_available_video_qualities_filtering_and_sorting() {
    let formats = vec![
        FormatOption {
            format_id: "sb0".to_string(),
            height: Some(90),
            has_video: false,
            has_audio: false,
            extension: "mhtml".to_string(),
            filesize_approx_bytes: None,
            note: Some("storyboard".to_string()),
        },
        FormatOption {
            format_id: "140".to_string(),
            height: None,
            has_video: false,
            has_audio: true,
            extension: "m4a".to_string(),
            filesize_approx_bytes: None,
            note: Some("audio".to_string()),
        },
        FormatOption {
            format_id: "278".to_string(),
            height: Some(144),
            has_video: true,
            has_audio: false,
            extension: "webm".to_string(),
            filesize_approx_bytes: None,
            note: None,
        },
        FormatOption {
            format_id: "247".to_string(),
            height: Some(720),
            has_video: true,
            has_audio: false,
            extension: "webm".to_string(),
            filesize_approx_bytes: None,
            note: None,
        },
        FormatOption {
            format_id: "136".to_string(),
            height: Some(720),
            has_video: true,
            has_audio: false,
            extension: "mp4".to_string(),
            filesize_approx_bytes: None,
            note: None,
        },
        FormatOption {
            format_id: "248".to_string(),
            height: Some(1080),
            has_video: true,
            has_audio: false,
            extension: "webm".to_string(),
            filesize_approx_bytes: None,
            note: None,
        },
    ];

    let probe = ProbeResult::new(
        MediaUrl::parse("https://www.youtube.com/watch?v=dQw4w9WgXcQ").unwrap(),
        "Rick Astley".to_string(),
        Some(212),
        None,
        Some("RickAstleyVEVO".to_string()),
        formats,
    );

    assert!(probe.has_video_stream());
    let available = &probe.available_video_qualities;

    assert_eq!(available, &vec![VideoQuality::P1080, VideoQuality::P720, VideoQuality::P144]);
}

#[test]
fn test_registry_cancel_dismiss_and_idempotence() {
    let mut reg = JobRegistry::new();
    let job = DownloadJob::new(url("https://example.com/a"), DownloadPreset::flac());
    let id = job.id();
    reg.upsert(job);

    assert!(matches!(reg.dismiss(id), Err(CoreError::InvalidState(_))));

    let (canceled, fresh) = reg.cancel(id).unwrap();
    assert_eq!(canceled.status(), DownloadStatus::Canceled);
    assert!(fresh);
    let listed = reg.list();
    assert_eq!(listed.len(), 1);
    assert_eq!(listed[0].status(), DownloadStatus::Canceled);

    let (again, fresh_again) = reg.cancel(id).unwrap();
    assert_eq!(again.status(), DownloadStatus::Canceled);
    assert!(!fresh_again);

    assert!(reg.dismiss(id).is_ok());
    assert!(reg.get(id).is_none());
    assert!(reg.dismiss(id).is_ok());
    assert!(matches!(reg.cancel(id), Err(CoreError::JobNotFound(x)) if x == id));
}

#[test]
fn test_registry_cannot_cancel_completed_job() {
    let mut reg = JobRegistry::new();
    let job = DownloadJob::new(url("https://example.com/b"), DownloadPreset::flac());
    let id = job.id();
    reg.upsert(job);
    assert!(reg.complete(id, "/out/b.flac".to_string()).is_some());
    match reg.cancel(id) {
        Err(CoreError::InvalidState(m)) => {
            assert_eq!(m, format!("Cannot cancel job '{}' in terminal state 'Completed'", id.to_text()))
        }
        other => panic!("unexpected {other:?}"),
    }
    assert_eq!(reg.completed_destination(id).unwrap(), "/out/b.flac");
    assert_eq!(reg.download_source_url(id).unwrap(), "https://example.com/b");
}

#[test]
fn test_pipeline_steps_on_registry() {
    let mut reg = JobRegistry::new();
    let job = DownloadJob::new(url("https://example.com/c"), DownloadPreset::mp3(Mp3Quality::K192));
    let id = job.id();
    reg.upsert(job);

    assert!(matches!(enter_preparing(&mut reg, id, true), Err(CoreError::OperationCancelled)));
    let e = enter_preparing(&mut reg, id, false).unwrap();
    assert_eq!(e.phase, ProgressPhase::Preparing);
    enter_downloading(&mut reg, id, false).unwrap();
    assert!(!reg.record_progress(id, StreamProgress { percent: Some(50), downloaded_bytes: Some(5), total_bytes: Some(10), speed_bytes_per_second: Some(2) }));
    assert_eq!(reg.get(id).unwrap().progress_percent(), Some(50));
    let ev = stream_progress_event(id, StreamProgress { percent: Some(50), downloaded_bytes: None, total_bytes: None, speed_bytes_per_second: None }, false, false).unwrap();
    assert_eq!(ev.phase, ProgressPhase::Downloading);
    assert!(stream_progress_event(id, StreamProgress { percent: None, downloaded_bytes: None, total_bytes: None, speed_bytes_per_second: None }, true, false).is_none());

    reg.set_title(id, "Song".to_string());
    let c = enter_converting(&mut reg, id, false).unwrap();
    assert_eq!(c.phase, ProgressPhase::Converting);
    assert_eq!(reg.get(id).unwrap().progress_percent(), None);
    enter_finalizing(&mut reg, id, false).unwrap();
    let done = reg.complete(id, "/music/Song.mp3".to_string()).unwrap();
    assert_eq!(done.status(), DownloadStatus::Completed);
    assert_eq!(done.title(), Some("Song"));

    assert!(matches!(enter_finalizing(&mut reg, id, false), Err(CoreError::OperationCancelled)));
    assert!(matches!(settle_pipeline(&mut reg, id, &Ok(())), Settled::Finished));
}

#[test]
fn test_settle_pipeline_outcomes() {
    let mut reg = JobRegistry::new();
    let job = DownloadJob::new(url("https://example.com/d"), DownloadPreset::flac());
    let id = job.id();
    reg.upsert(job);
    match settle_pipeline(&mut reg, id, &Err(CoreError::StorageError("disk".to_string()))) {
        Settled::Failed(Some(j), d) => {
            assert_eq!(j.status(), DownloadStatus::Failed);
            assert_eq!(d.code, DownloadErrorCode::DownloadProcessFailed);
            assert_eq!(d.message, "disk");
            assert_eq!(j.error_message(), Some("disk"));
        }
        _ => panic!("expected a failure"),
    }
    match settle_pipeline(&mut reg, id, &Err(CoreError::OperationCancelled)) {
        Settled::Canceled(Some(j)) => assert_eq!(j.status(), DownloadStatus::Failed),
        _ => panic!("expected the failed job to be answered"),
    }

    let other = DownloadJob::new(url("https://example.com/e"), DownloadPreset::flac());
    let oid = other.id();
    reg.upsert(other);
    match settle_pipeline(&mut reg, oid, &Err(CoreError::OperationCancelled)) {
        Settled::Canceled(Some(j)) => assert_eq!(j.status(), DownloadStatus::Canceled),
        _ => panic!("expected a cancellation"),
    }
    assert!(matches!(settle_pipeline(&mut reg, oid, &Err(CoreError::OperationCancelled)), Settled::Canceled(None)));
}

#[test]
fn test_target_dir_and_start_plan() {
    let settings = AppSettings::defaults_for("/home/me/Downloads", false).unwrap();
    assert_eq!(resolve_target_dir(None, "/d", false).unwrap(), "/d");
    assert_eq!(resolve_target_dir(Some("   ".to_string()), "/d", false).unwrap(), "/d");
    assert_eq!(resolve_target_dir(Some("/custom".to_string()), "/d", false).unwrap(), "/custom");
    match resolve_target_dir(Some("~/x".to_string()), "/d", false) {
        Err(CoreError::InvalidSettings(m)) => assert_eq!(m, "Custom download directory cannot start with '~'"),
        other => panic!("unexpected {other:?}"),
    }
    match resolve_target_dir(Some(" rel/x ".to_string()), "/d", false) {
        Err(CoreError::InvalidSettings(m)) => {
            assert_eq!(m, "Custom download directory must be an absolute path: 'rel/x'")
        }
        other => panic!("unexpected {other:?}"),
    }
    assert!(resolve_target_dir(Some("/a\0b".to_string()), "/d", false).is_err());

    let plan = plan_start(None, None, &settings, false).unwrap();
    assert_eq!(plan.preset, settings.default_preset());
    assert_eq!(plan.target_dir, "/home/me/Downloads");
    let custom = plan_start(Some(DownloadPreset::flac()), Some("/srv".to_string()), &settings, false).unwrap();
    assert_eq!(custom.preset, DownloadPreset::flac());
    assert_eq!(custom.target_dir, "/srv");
}

#[test]
fn test_input_selection_and_conversion_plan() {
    let artifacts = vec![
        InspectedArtifact { path: "/t/a.m4a".to_string(), has_video: false, has_audio: true },
        InspectedArtifact { path: "/t/v.mp4".to_string(), has_video: true, has_audio: true },
    ];
    let (v, a) = select_inputs(&artifacts, Some("/t/fallback.mp4".to_string()), None);
    assert_eq!(v.as_deref(), Some("/t/v.mp4"));
    assert_eq!(a.as_deref(), Some("/t/a.m4a"));
    let (v2, a2) = select_inputs(&vec![], Some("/t/fv".to_string()), Some("/t/fa".to_string()));
    assert_eq!(v2.as_deref(), Some("/t/fv"));
    assert_eq!(a2.as_deref(), Some("/t/fa"));

    let mp3 = DownloadPreset::mp3(Mp3Quality::K128);
    assert_eq!(converted_file_name(mp3), "output_converted.mp3");
    match plan_conversion(mp3, Some("/t/v.mp4".to_string()), None, "/t/out.mp3".to_string(), Some(3), "/t".to_string()).unwrap() {
        ConvertRequest::AudioTranscode { audio_input, codec, .. } => {
            assert_eq!(audio_input, "/t/v.mp4");
            assert_eq!(codec, AudioCodec::Mp3(Mp3Quality::K128));
        }
        other => panic!("unexpected {other:?}"),
    }
    let video = DownloadPreset::video(OutputFormat::Mov, VideoQuality::P480).unwrap();
    match plan_conversion(video, None, Some("/t/a".to_string()), "/t/o.mov".to_string(), None, "/t".to_string()) {
        Err(CoreError::DownloadFailed(d)) => {
            assert_eq!(d.code, DownloadErrorCode::FfmpegFailed);
            assert_eq!(d.message, "Missing downloaded video stream for conversion");
        }
        other => panic!("unexpected {other:?}"),
    }
    assert!(plan_conversion(DownloadPreset::flac(), None, None, "/o".to_string(), None, "/t".to_string()).is_err());
    assert!(check_converted_size(0, "/t/o").is_err());
    assert!(check_converted_size(10, "/t/o").is_ok());
    let w = history_warning(DownloadId(7), "full");
    assert_eq!(w.code, "HISTORY_SAVE_FAILED");
    assert_eq!(w.message, "Failed to record download history: full");
}

#[test]
fn test_publisher_tries_free_names() {
    assert_eq!(candidate_file_name("Song", "mp3", 0), "Song.mp3");
    assert_eq!(candidate_file_name("Song", "mp3", 12), "Song (12).mp3");
    let (mut p, first) = Publisher::new("/music".to_string(), "Song".to_string(), "mp3".to_string());
    assert!(matches!(first, PublishStep::Link(ref x) if x == "/music/Song.mp3"));
    match p.after_link(LinkResult::AlreadyExists) {
        PublishStep::Link(x) => assert_eq!(x, "/music/Song (1).mp3"),
        _ => panic!("expected the next name"),
    }
    match p.after_link(LinkResult::Failed) {
        PublishStep::Create(x) => assert_eq!(x, "/music/Song (1).mp3"),
        _ => panic!("expected a create"),
    }
    match p.after_create(CreateResult::AlreadyExists) {
        PublishStep::Link(x) => assert_eq!(x, "/music/Song (2).mp3"),
        _ => panic!("expected the next name"),
    }
    match p.after_create(CreateResult::Failed("denied".to_string())) {
        PublishStep::Refused(CoreError::DownloadFailed(d)) => {
            assert_eq!(d.code, DownloadErrorCode::OutputPermissionDenied);
            assert_eq!(d.message, "Impossible de créer le fichier '/music/Song (2).mp3': denied");
        }
        _ => panic!("expected a refusal"),
    }
    match p.after_create(CreateResult::Created) {
        PublishStep::Published(x) => assert_eq!(x, "/music/Song (2).mp3"),
        _ => panic!("expected publication"),
    }
    assert_eq!(p.attempts(), 2);
    let stage = stage_file_name("mp3");
    assert!(stage.starts_with(".polysaver_stage_") && stage.ends_with(".mp3"));
    assert_eq!(stage.len(), ".polysaver_stage_".len() + 32 + 4);
}

#[test]
fn test_web_url_check() {
    assert_eq!(check_web_url("https://a.b/c".to_string()).unwrap(), "https://a.b/c");
    match check_web_url("javascript:alert(1)".to_string()) {
        Err(CoreError::DownloadFailed(d)) => {
            assert_eq!(d.code, DownloadErrorCode::SourceUrlInvalid);
            assert_eq!(d.message, "Seules les URL HTTP et HTTPS sont autorisées.");
        }
        other => panic!("unexpected {other:?}"),
    }
}

fn entry(title: &str, dest: &str, at: u64) -> DownloadHistoryEntry {
    DownloadHistoryEntry::new(
        DownloadId::new(),
        url("https://www.youtube.com/watch?v=jNQXAC9IVRw"),
        title.to_string(),
        DownloadPreset::video(OutputFormat::Mp4, VideoQuality::P720).unwrap(),
        dest.to_string(),
        Some(at),
    )
    .unwrap()
}

#[test]
fn test_history_entry_invariants() {
    let e = entry("  Me at the zoo  ", "/downloads/zoo.mp4", 123456789);
    assert_eq!(e.title(), "Me at the zoo");
    assert_eq!(e.destination_path(), "/downloads/zoo.mp4");
    assert_eq!(e.completed_at(), 123456789);
    let empty = DownloadHistoryEntry::new(
        DownloadId::new(),
        url("https://example.com/x"),
        "Title".to_string(),
        DownloadPreset::flac(),
        "   ".to_string(),
        None,
    );
    assert!(matches!(empty, Err(CoreError::ValidationError(_))));

    let dto = DownloadHistoryEntryDto::from_entry(&e);
    let back = DownloadHistoryEntry::try_from_dto(dto.clone()).unwrap();
    assert_eq!(back.id(), e.id());
    assert_eq!(back.download_id(), e.download_id());
    assert_eq!(back.title(), e.title());
    let mut bad = dto;
    bad.id = "nope".to_string();
    match DownloadHistoryEntry::try_from_dto(bad) {
        Err(CoreError::ValidationError(m)) => assert_eq!(m, "Invalid history entry id 'nope'"),
        other => panic!("unexpected {other:?}"),
    }
}

fn line(text: String, op: Result<HistoryJournalOp, String>) -> JournalLine {
    JournalLine { text, op }
}

#[test]
fn test_journal_replay() {
    let e1 = entry("Video 1", "/p/1.mp4", 1000);
    let e2 = entry("Video 2", "/p/2.mp4", 2000);
    let lines = vec![
        line("{upsert 1}".to_string(), Ok(HistoryJournalOp::upsert(&e1))),
        line("   ".to_string(), Err(String::new())),
        line("{upsert 2}".to_string(), Ok(HistoryJournalOp::upsert(&e2))),
        line("{corrupt}".to_string(), Err("bad".to_string())),
        line("{remove 1}".to_string(), Ok(HistoryJournalOp::remove(e1.id()))),
        line("{trunc".to_string(), Err("eof".to_string())),
    ];
    let r = replay_journal(&lines);
    assert_eq!(r.op_count, 5);
    assert_eq!(r.entries.len(), 1);
    assert_eq!(r.entries[0].id(), e2.id());
    assert_eq!(r.rejected, vec!["{corrupt}".to_string()]);

    let both = vec![
        line("a".to_string(), Ok(HistoryJournalOp::upsert(&e1))),
        line("b".to_string(), Ok(HistoryJournalOp::upsert(&e2))),
    ];
    let r2 = replay_journal(&both);
    assert_eq!(r2.entries[0].id(), e2.id());
    assert_eq!(r2.entries[1].id(), e1.id());

    assert!(should_compact(5 * 1024 * 1024, 1, 1));
    assert!(should_compact(10, 301, 100));
    assert!(!should_compact(10, 300, 100));
    assert!(!should_compact(10, 100, 0));
}

#[test]
fn test_in_memory_history_and_lookups() {
    let mut h = InMemoryHistory::new();
    let e1 = entry("One", "/p/1.mp4", 10);
    let e2 = entry("Two", "/p/2.mp4", 20);
    let id1 = e1.id();
    let id2 = e2.id();
    h.append(e1);
    h.append(e2);
    let loaded = h.load();
    assert_eq!(loaded.len(), 2);
    assert_eq!(loaded[0].id(), id2);
    assert_eq!(history_file_path(&loaded, id1).unwrap(), "/p/1.mp4");
    assert_eq!(
        history_source_url(&loaded, id2).unwrap(),
        "https://www.youtube.com/watch?v=jNQXAC9IVRw"
    );
    h.remove(id1);
    let after = h.load();
    assert_eq!(after.len(), 1);
    match history_file_path(&after, id1) {
        Err(CoreError::DownloadFailed(d)) => {
            assert_eq!(d.code, DownloadErrorCode::OutputFileNotFound);
            assert_eq!(d.message, format!("Entrée d'historique '{}' introuvable.", id1.as_str()));
        }
        other => panic!("unexpected {other:?}"),
    }
    assert!(matches!(HistoryEntryId::try_from_text("zz"), Err(CoreError::ValidationError(_))));
    let preset_dto = DownloadPresetDto::from(&DownloadPreset::flac());
    assert_eq!(preset_dto.format, OutputFormat::Flac);
}

#[test]
fn test_limiter_grants_up_to_limit() {
    let mut l = LimiterState::new(2);
    assert_eq!(l.current_limit(), 2);
    assert!(l.try_acquire());
    assert!(l.try_acquire());
    assert!(!l.try_acquire());
    assert_eq!(l.active_count(), 2);
    l.release();
    assert_eq!(l.active_count(), 1);
    assert_eq!(l.set_limit(3), 2);
    assert_eq!(l.current_limit(), 3);
    assert_eq!(l.set_limit(0), 0);
    assert_eq!(l.current_limit(), 1);
    assert_eq!(LimiterState::new(50).current_limit(), 8);
    l.release();
    l.release();
    assert_eq!(l.active_count(), 0);
}

#[test]
fn test_download_error_details_copy() {
    let d = DownloadErrorDetails::from_code(DownloadErrorCode::DiskFull);
    let c = d.duplicate();
    assert_eq!(c.code, d.code);
    assert_eq!(c.message, "DISK_FULL");
}

#[test]
fn test_normalization_is_idempotent() {
    for path in ["/opt/storage/./media/../media/vids", "a/../../b/./c/", "/..", "", "//x//y/"] {
        let once = normalize_lexical(path, false);
        assert_eq!(normalize_lexical(&once, false), once);
    }
    assert_eq!(normalize_lexical("a/../../b/./c/", false), "b/c");
    assert_eq!(normalize_lexical("/..", false), "/");
}

#[test]
fn test_tilde_paths_stay_in_home() {
    let home = "/Users/alice";
    let inside = resolve_user_directory("~/Music/../Videos/./clips", home, false).unwrap();
    assert_eq!(inside, "/Users/alice/Videos/clips");
    assert!(inside.starts_with("/Users/alice/"));
    let escaped = resolve_user_directory("~/Music/../../bob", home, false).unwrap_err();
    assert_eq!(escaped.code, "INVALID_DIRECTORY");
    assert_eq!(escaped.message, "Path escapes user home directory.");
    let absolute = resolve_user_directory("~//etc", home, false).unwrap_err();
    assert_eq!(absolute.message, "Path escapes user home directory.");
}

#[test]
fn test_registry_keeps_one_job_per_id() {
    let mut reg = JobRegistry::new();
    let id = DownloadId(7);
    reg.upsert(DownloadJob::with_id(id, url("https://example.com/watch?v=a"), DownloadPreset::flac()));
    reg.upsert(DownloadJob::with_id(DownloadId(8), url("https://example.com/watch?v=b"), DownloadPreset::flac()));
    let mut again = DownloadJob::with_id(id, url("https://example.com/watch?v=c"), DownloadPreset::flac());
    again.set_title("second".to_string());
    reg.upsert(again);
    let jobs = reg.list();
    assert_eq!(jobs.len(), 2);
    assert_eq!(jobs[0].id(), id);
    assert_eq!(jobs[0].title(), Some("second"));
    assert_eq!(jobs[0].url().as_str(), "https://example.com/watch?v=c");
    assert_eq!(jobs[1].id(), DownloadId(8));
}

#[test]
fn test_history_append_is_idempotent() {
    let mut h = InMemoryHistory::new();
    let e1 = entry("One", "/p/1.mp4", 10);
    let e2 = entry("Two", "/p/2.mp4", 20);
    let id2 = e2.id();
    h.append(e1);
    h.append(e2.duplicate());
    h.append(e2);
    let loaded = h.load();
    assert_eq!(loaded.len(), 2);
    assert_eq!(loaded[0].id(), id2);
    assert_eq!(loaded[1].title(), "One");
}

#[test]
fn test_fresh_ids_are_version_4_uuids() {
    for _ in 0..32 {
        let d = DownloadId::new();
        let h = HistoryEntryId::new();
        assert_eq!(d.0 & 0xF000C000000000000000, 0x40008000000000000000);
        assert_eq!(h.0 & 0xF000C000000000000000, 0x40008000000000000000);
        let text: Vec<char> = d.to_text().chars().collect();
        assert_eq!(text[14], '4');
        assert!(matches!(text[19], '8' | '9' | 'a' | 'b'));
    }
    assert_ne!(DownloadId::new(), DownloadId::new());
}

#[test]
fn test_replayed_history_is_sorted_and_keyed() {
    let e1 = entry("Video 1", "/p/1.mp4", 1000);
    let e2 = entry("Video 2", "/p/2.mp4", 2000);
    let e3 = entry("Video 3", "/p/3.mp4", 1500);
    let same_download = DownloadHistoryEntry::reconstruct(
        HistoryEntryId::new(),
        e1.download_id(),
        url("https://www.youtube.com/watch?v=jNQXAC9IVRw"),
        "Video 1 again".to_string(),
        DownloadPreset::flac(),
        "/p/1b.flac".to_string(),
        500,
    )
    .unwrap();
    let lines = vec![
        line("a".to_string(), Ok(HistoryJournalOp::upsert(&e1))),
        line("b".to_string(), Ok(HistoryJournalOp::upsert(&e2))),
        line("c".to_string(), Ok(HistoryJournalOp::upsert(&e3))),
        line("d".to_string(), Ok(HistoryJournalOp::upsert(&e2))),
        line("e".to_string(), Ok(HistoryJournalOp::upsert(&same_download))),
    ];
    let r = replay_journal(&lines);
    let ids: Vec<HistoryEntryId> = r.entries.iter().map(|e| e.id()).collect();
    assert_eq!(ids, vec![e2.id(), e3.id(), same_download.id()]);
    for w in r.entries.windows(2) {
        assert!(w[0].completed_at() >= w[1].completed_at());
    }
}

#[test]
fn test_canceled_job_goes_no_further() {
    let mut reg = JobRegistry::new();
    let id = DownloadId(42);
    reg.upsert(DownloadJob::with_id(id, url("https://example.com/watch?v=z"), DownloadPreset::flac()));
    assert!(reg.cancel(id).unwrap().1);
    assert!(matches!(
        reg.advance_unless_terminal(id, DownloadStatus::Converting),
        Err(CoreError::OperationCancelled)
    ));
    assert!(reg.complete(id, "/out/z.flac".to_string()).is_none());
    assert!(reg.mark_canceled(id).is_none());
    assert!(reg.mark_failed(id, DownloadErrorDetails::from_code(DownloadErrorCode::FfmpegFailed)).is_none());
    let job = reg.get(id).unwrap();
    assert_eq!(job.status(), DownloadStatus::Canceled);
    assert_eq!(job.destination_path(), None);
}

#[test]
fn test_windows_paths() {
    assert_eq!(normalize_lexical(r"C:\Users\alice\..\bob\.\x", true), r"C:\Users\bob\x");
    assert_eq!(normalize_lexical("C:/a/b/../c", true), r"C:\a\c");
    assert_eq!(normalize_lexical(r"\\server\share\a\..\b", true), r"\\server\share\b");
    assert_eq!(normalize_lexical(r"C:x\..\y", true), "C:y");
    assert_eq!(normalize_lexical(r"a\b", false), r"a\b");

    let home = r"C:\Users\alice";
    assert_eq!(resolve_user_directory(r"C:\Users\alice\Videos", home, true).unwrap(), r"C:\Users\alice\Videos");
    assert_eq!(resolve_user_directory(r"~\Downloads\PolySaver", home, true).unwrap(), r"C:\Users\alice\Downloads\PolySaver");
    assert_eq!(resolve_user_directory("~/Music", home, true).unwrap(), r"C:\Users\alice\Music");
    let escaped = resolve_user_directory(r"~\Downloads\..\..\x", home, true).unwrap_err();
    assert_eq!(escaped.message, "Path escapes user home directory.");
    assert!(resolve_user_directory(r"Users\alice", home, true).is_err());
    assert!(resolve_user_directory(r"C:Users", home, true).is_err());
    assert_eq!(resolve_user_directory(r"\\nas\media\films", home, true).unwrap(), r"\\nas\media\films");
    assert!(resolve_user_directory(r"C:\Users\alice\Videos", "/Users/alice", false).is_err());

    assert_eq!(resolve_target_dir(Some(r"D:\Media".to_string()), "/d", true).unwrap(), r"D:\Media");
    assert!(resolve_target_dir(Some(r"D:\Media".to_string()), "/d", false).is_err());
    let settings = AppSettings::new(
        r"C:\Users\alice\Downloads".to_string(),
        polysaver::format::ThemeMode::System,
        true,
        DownloadPreset::default(),
        3,
        polysaver::format::Language::French,
        true,
    )
    .unwrap();
    assert_eq!(settings.download_directory(), r"C:\Users\alice\Downloads");
    assert!(AppSettings::defaults_for(r"C:\Users\alice\Downloads", false).is_err());
    assert!(AppSettings::defaults_for("/home/alice", true).is_err());
    settings.check_invariant();
}
