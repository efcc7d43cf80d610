use polysaver::binres::{
    alternate_version_flag, candidate_file_names, first_output_line, search_paths,
    version_from_outputs, BinResError, BinaryCache, BinaryKind, ProcessOutput, ResolvedBinary,
    SearchDirs,
};
use polysaver::error::{CoreError, DownloadErrorCode};
use polysaver::ffmpeg::{
    build_audio_ffmpeg_args, build_video_ffmpeg_args, classify_progress_line, expect_audio,
    ffmpeg_availability, inspection_from_output, parse_time_string_to_us, video_conversion_failure,
    audio_conversion_failure, FfprobeInspector, MediaInspection, ProgressLine, ProgressReport,
    ProgressTracker, StderrTail, ConversionStep, VideoConversion,
};
use polysaver::json::{JsonRecord, JsonScalar};
use polysaver::format::{DownloadPreset, Mp3Quality, OutputFormat, VideoQuality};
use polysaver::media_url::MediaUrl;
use polysaver::ports::AudioCodec;
use polysaver::ytdlp::{
    build_download_args, file_extension, format_selector, map_downloaded_streams,
    parse_ytdlp_progress_line, probe_from_metadata, probe_from_records, ytdlp_availability,
    ytdlp_run_failure,
    ytdlp_start_failure,
};

#[test]
fn test_parse_time_string_to_us() {
    assert_eq!(parse_time_string_to_us("00:00:01.000000"), Some(1_000_000));
    assert_eq!(parse_time_string_to_us("00:01:30.500000"), Some(90_500_000));
    assert_eq!(parse_time_string_to_us("01:00:00.000000"), Some(3_600_000_000));
    assert_eq!(parse_time_string_to_us("invalid"), None);
}

#[test]
fn test_parse_time_fraction_scaling_and_limits() {
    assert_eq!(parse_time_string_to_us("00:00:02.5"), Some(2_500_000));
    assert_eq!(parse_time_string_to_us("00:00:02.123456789"), Some(2_123_456));
    assert_eq!(parse_time_string_to_us("00:00:07"), Some(7_000_000));
    assert_eq!(parse_time_string_to_us("00:00:07.x"), Some(7_000_000));
    assert_eq!(parse_time_string_to_us("1:2"), None);
    assert_eq!(parse_time_string_to_us("a:00:00"), None);
    assert_eq!(
        parse_time_string_to_us("99999999999999:00:00.0"),
        Some(u64::MAX)
    );
}

#[test]
fn test_parse_ytdlp_progress_line() {
    let line = "[download]  45.2% of 100.00MiB at 5.50MiB/s ETA 00:10";
    let progress = parse_ytdlp_progress_line(line);
    assert_eq!(progress.percent, Some(45));
    assert_eq!(progress.total_bytes, Some(100 * 1024 * 1024));
    assert_eq!(progress.speed_bytes_per_second, Some((5.5 * 1024.0 * 1024.0) as u64));
}

#[test]
fn test_progress_line_variants() {
    let est = parse_ytdlp_progress_line("[download]   3.0% of ~ 2.00GiB at 1.00KiB/s ETA 10:00");
    assert_eq!(est.percent, Some(3));
    assert_eq!(est.total_bytes, None);
    let est2 = parse_ytdlp_progress_line("[download]   3.0% of ~2.00GiB at Unknown speed");
    assert_eq!(est2.total_bytes, Some(2 * 1024 * 1024 * 1024));
    assert_eq!(est2.speed_bytes_per_second, None);
    let other = parse_ytdlp_progress_line("[youtube] Extracting URL");
    assert_eq!(other.percent, None);
    assert_eq!(other.total_bytes, None);
}

#[test]
fn test_ffmpeg_progress_lines() {
    assert_eq!(classify_progress_line("out_time_us=1500000"), ProgressLine::OutTimeMicros(1_500_000));
    assert_eq!(classify_progress_line("  out_time=00:00:01.500000 "), ProgressLine::OutTime(Some(1_500_000)));
    assert_eq!(classify_progress_line("out_time=N/A"), ProgressLine::OutTime(None));
    assert_eq!(classify_progress_line("progress=end"), ProgressLine::End);
    assert_eq!(classify_progress_line("progress=continue"), ProgressLine::Other);
    assert_eq!(classify_progress_line("out_time_us=N/A"), ProgressLine::Other);
}

#[test]
fn test_stderr_tail_keeps_last_lines() {
    let mut tail = StderrTail::new();
    for i in 0..30 {
        tail.push(format!("line {i}"));
    }
    let joined = tail.joined();
    let lines: Vec<&str> = joined.split('\n').collect();
    assert_eq!(lines.len(), 25);
    assert_eq!(lines[0], "line 5");
    assert_eq!(lines[24], "line 29");
    let mut short = StderrTail::new();
    short.push("a".to_string());
    short.push("b".to_string());
    assert_eq!(short.joined(), "a\nb");
}

#[test]
fn test_video_ffmpeg_args() {
    let copy = build_video_ffmpeg_args("/t/v.mp4", Some("/t/a.m4a"), "/t/o.mp4", OutputFormat::Mp4, true);
    assert_eq!(
        copy,
        vec![
            "-y", "-progress", "pipe:1", "-nostats", "-loglevel", "error", "-i", "/t/v.mp4", "-i",
            "/t/a.m4a", "-map", "0:v:0", "-map", "1:a:0?", "-sn", "-dn", "-c", "copy", "-f", "mp4",
            "-movflags", "+faststart", "/t/o.mp4"
        ]
    );
    let transcode = build_video_ffmpeg_args("/t/v.webm", None, "/t/o.mov", OutputFormat::Mov, false);
    assert_eq!(
        transcode,
        vec![
            "-y", "-progress", "pipe:1", "-nostats", "-loglevel", "error", "-i", "/t/v.webm", "-map",
            "0:v:0?", "-map", "0:a:0?", "-sn", "-dn", "-c:v", "libx264", "-preset", "fast",
            "-pix_fmt", "yuv420p", "-c:a", "aac", "-b:a", "192k", "-f", "mov", "/t/o.mov"
        ]
    );
}

#[test]
fn test_audio_ffmpeg_args() {
    let mp3 = build_audio_ffmpeg_args("/t/in.webm", AudioCodec::Mp3(Mp3Quality::K320), "/t/out.mp3");
    assert_eq!(
        mp3,
        vec![
            "-y", "-progress", "pipe:1", "-nostats", "-loglevel", "error", "-i", "/t/in.webm",
            "-map", "0:a:0", "-vn", "-sn", "-dn", "-c:a", "libmp3lame", "-b:a", "320k", "/t/out.mp3"
        ]
    );
    let flac = build_audio_ffmpeg_args("/t/in.webm", AudioCodec::Flac, "/t/out.flac");
    assert_eq!(&flac[13..], &["-c:a", "flac", "/t/out.flac"]);
}

#[test]
fn test_conversion_failures_carry_stderr() {
    match video_conversion_failure("remux err", "transcode err") {
        CoreError::DownloadFailed(d) => {
            assert_eq!(d.code, DownloadErrorCode::FfmpegFailed);
            assert_eq!(
                d.stderr_tail.as_deref(),
                Some("[Échec Remux -c copy]:\nremux err\n\n[Échec Transcodage repli]:\ntranscode err")
            );
        }
        other => panic!("unexpected {other:?}"),
    }
    match video_conversion_failure("only remux", "") {
        CoreError::DownloadFailed(d) => assert_eq!(d.stderr_tail.as_deref(), Some("only remux")),
        other => panic!("unexpected {other:?}"),
    }
    match audio_conversion_failure("") {
        CoreError::DownloadFailed(d) => {
            assert_eq!(d.message, "La conversion audio avec FFmpeg a échoué.");
            assert!(d.stderr_tail.is_none());
        }
        other => panic!("unexpected {other:?}"),
    }
    assert!(expect_audio(false, Some(true)));
    assert!(!expect_audio(false, None));
    assert!(expect_audio(true, Some(false)));
}

#[test]
fn test_ffprobe_report_summary_and_validation() {
    let json = r#"{"streams":[{"index":0,"codec_type":"video","codec_name":"h264"},
        {"index":1,"codec_type":"audio","codec_name":"aac","bit_rate":"128000"},
        {"index":2,"codec_type":"audio","codec_name":"opus","bit_rate":64000}]}"#;
    let i = inspection_from_output(true, json, "", "/m.mp4").unwrap();
    assert!(i.has_video && i.has_audio);
    assert_eq!(i.video_codec.as_deref(), Some("h264"));
    assert_eq!(i.audio_codec.as_deref(), Some("aac"));
    assert_eq!(i.audio_bitrate, Some(64000));
    assert!(FfprobeInspector::validate_video_output(&i, "/m.mp4", true).is_ok());
    assert!(FfprobeInspector::validate_mp3_output(&i, "/m.mp4").is_err());

    let audio_only = MediaInspection {
        has_video: false,
        video_codec: None,
        has_audio: true,
        audio_codec: Some("mp3".to_string()),
        audio_bitrate: None,
    };
    assert!(FfprobeInspector::validate_mp3_output(&audio_only, "/a.mp3").is_ok());
    match FfprobeInspector::validate_flac_output(&audio_only, "/a.mp3") {
        Err(CoreError::DownloadFailed(d)) => {
            assert_eq!(d.message, "Generated file '/a.mp3' codec is 'mp3', expected 'flac'")
        }
        other => panic!("unexpected {other:?}"),
    }
    match FfprobeInspector::validate_video_output(&audio_only, "/a.mp3", false) {
        Err(CoreError::DownloadFailed(d)) => {
            assert_eq!(d.message, "Generated file '/a.mp3' contains no video stream")
        }
        other => panic!("unexpected {other:?}"),
    }

    match inspection_from_output(false, "", "  bad input  \n", "/x") {
        Err(CoreError::DownloadFailed(d)) => {
            assert_eq!(d.message, "ffprobe verification failed on '/x'");
            assert_eq!(d.stderr_tail.as_deref(), Some("bad input"));
        }
        other => panic!("unexpected {other:?}"),
    }
    assert!(matches!(
        inspection_from_output(true, "{not json", "", "/x"),
        Err(CoreError::ConverterError(_))
    ));
    let empty = inspection_from_output(true, "{}", "", "/x").unwrap();
    assert!(!empty.has_video && !empty.has_audio);
}

#[test]
fn test_format_selector_and_download_args() {
    let mp4 = DownloadPreset::video(OutputFormat::Mp4, VideoQuality::P720).unwrap();
    assert_eq!(
        format_selector(mp4),
        "bestvideo[height=720][ext=mp4]+bestaudio[ext=m4a]/bestvideo[height=720]+bestaudio/best[height=720]"
    );
    let mov_best = DownloadPreset::video(OutputFormat::Mov, VideoQuality::Best).unwrap();
    assert_eq!(format_selector(mov_best), "bestvideo+bestaudio/best");
    assert_eq!(format_selector(DownloadPreset::flac()), "bestaudio/best");

    let url = MediaUrl::parse("https://example.com/v").unwrap();
    let args = build_download_args(DownloadPreset::mp3(Mp3Quality::K192), "/tmp/job", 8, &url);
    assert_eq!(args[0], "-f");
    assert_eq!(args[1], "bestaudio/best");
    assert_eq!(args[3], "/tmp/job/stream.%(ext)s");
    assert_eq!(&args[12..], &["-N", "8", "https://example.com/v"]);
    let single = build_download_args(DownloadPreset::flac(), "/tmp/job/", 1, &url);
    assert_eq!(single[3], "/tmp/job/stream.%(ext)s");
    assert_eq!(single.len(), 13);
}

#[test]
fn test_downloaded_streams_mapping() {
    let video = DownloadPreset::video(OutputFormat::Mp4, VideoQuality::P1080).unwrap();
    let s = map_downloaded_streams(
        video,
        vec!["/t/stream.f137.mp4".to_string(), "/t/stream.f140.m4a".to_string()],
        Some("Title".to_string()),
        Some(12),
    )
    .unwrap();
    assert_eq!(s.video_path.as_deref(), Some("/t/stream.f137.mp4"));
    assert_eq!(s.audio_path.as_deref(), Some("/t/stream.f140.m4a"));
    assert_eq!(s.title, "Title");
    assert_eq!(s.duration_seconds, Some(12));

    let webm = map_downloaded_streams(
        video,
        vec!["/t/a.webm".to_string(), "/t/b.webm".to_string()],
        None,
        None,
    )
    .unwrap();
    assert_eq!(webm.video_path.as_deref(), Some("/t/a.webm"));
    assert_eq!(webm.audio_path.as_deref(), Some("/t/b.webm"));
    assert_eq!(webm.title, "PolySaver_Media");

    let audio = map_downloaded_streams(DownloadPreset::flac(), vec!["/t/x.opus".to_string()], None, None).unwrap();
    assert_eq!(audio.video_path, None);
    assert_eq!(audio.audio_path.as_deref(), Some("/t/x.opus"));

    match map_downloaded_streams(video, vec![], None, None) {
        Err(CoreError::ProviderError(m)) => {
            assert_eq!(m, "No media files produced by yt-dlp in the temporary directory")
        }
        other => panic!("unexpected {other:?}"),
    }
    assert_eq!(file_extension("/a/b.tar.gz"), "gz");
    assert_eq!(file_extension("/a/.hidden"), "");
    assert_eq!(file_extension("/a.b/c"), "");
}

#[test]
fn test_probe_metadata_to_result() {
    let url = MediaUrl::parse("https://example.com/watch?v=1").unwrap();
    let lines = vec![
        r#"{"title":"Clip","duration":212,"channel":"Chan","thumbnail":"https://i/1.jpg","#.to_string(),
        r#""formats":[{"format_id":"sb0","height":90,"vcodec":"none","acodec":"none","format_note":"storyboard"},"#.to_string(),
        r#"{"format_id":"140","vcodec":"none","acodec":"mp4a","ext":"m4a","filesize_approx":1000},"#.to_string(),
        r#"{"format_id":"137","height":1080,"vcodec":"avc1","acodec":"none","ext":"mp4","format_note":"1080p"}]}"#.to_string(),
    ];
    let p = probe_from_metadata(&url, &lines).unwrap();
    assert_eq!(p.title, "Clip");
    assert_eq!(p.duration_seconds, Some(212));
    assert_eq!(p.uploader.as_deref(), Some("Chan"));
    assert_eq!(p.thumbnail_url.as_deref(), Some("https://i/1.jpg"));
    assert_eq!(p.formats.len(), 2);
    assert_eq!(p.formats[0].format_id, "140");
    assert!(p.formats[0].has_audio && !p.formats[0].has_video);
    assert_eq!(p.formats[0].filesize_approx_bytes, Some(1000));
    assert_eq!(p.formats[1].height, Some(1080));
    assert_eq!(p.formats[1].note.as_deref(), Some("1080p"));
    assert_eq!(p.available_video_qualities, vec![VideoQuality::P1080]);

    let untitled = probe_from_metadata(&url, &vec!["{}".to_string()]).unwrap();
    assert_eq!(untitled.title, "Sans titre");
    assert!(untitled.formats.is_empty());
    assert!(matches!(
        probe_from_metadata(&url, &vec!["{".to_string()]),
        Err(CoreError::ProviderError(_))
    ));
}

#[test]
fn test_binary_names_paths_and_versions() {
    assert_eq!(BinaryKind::YtDlp.base_name(), "yt-dlp");
    assert_eq!(BinaryKind::Ffprobe.version_flag(), "-version");
    assert_eq!(alternate_version_flag(BinaryKind::YtDlp), "-version");
    assert_eq!(candidate_file_names("ffmpeg", false), vec!["ffmpeg"]);
    assert_eq!(candidate_file_names("ffmpeg", true), vec!["ffmpeg.exe", "ffmpeg"]);
    assert_eq!(candidate_file_names("tool.exe", true), vec!["tool.exe"]);

    let dirs = SearchDirs {
        resource_dir: Some("/res".to_string()),
        app_dir: "/app/bin".to_string(),
        exe_dir: Some("/opt/ps".to_string()),
        system_dirs: true,
        path_dirs: vec!["/p1".to_string(), "/p2/".to_string()],
    };
    let paths = search_paths(&dirs, &vec!["yt-dlp".to_string()]);
    assert_eq!(
        paths,
        vec![
            "/res/yt-dlp",
            "/app/bin/yt-dlp",
            "/opt/ps/yt-dlp",
            "/opt/ps/bin/yt-dlp",
            "/opt/ps/../Resources/bin/yt-dlp",
            "/opt/homebrew/bin/yt-dlp",
            "/usr/local/bin/yt-dlp",
            "/usr/bin/yt-dlp",
            "/p1/yt-dlp",
            "/p2/yt-dlp"
        ]
    );

    assert_eq!(first_output_line("  2026.08.19 \nmore"), "2026.08.19");
    let ok = ProcessOutput { success: true, code: Some(0), stdout: "ffmpeg version 7.1\nbuilt".to_string(), stderr: String::new() };
    assert_eq!(version_from_outputs(BinaryKind::Ffmpeg, &ok, None).unwrap(), "ffmpeg version 7.1");
    let failed = ProcessOutput { success: false, code: Some(-2), stdout: String::new(), stderr: "boom".to_string() };
    let alt = ProcessOutput { success: true, code: Some(0), stdout: "v2\n".to_string(), stderr: String::new() };
    assert_eq!(version_from_outputs(BinaryKind::YtDlp, &failed, Some(alt)).unwrap(), "v2");
    match version_from_outputs(BinaryKind::YtDlp, &failed, None) {
        Err(BinResError::ProbeFailed { error, .. }) => {
            assert_eq!(error, "Binary exited with code Some(-2): boom")
        }
        other => panic!("unexpected {other:?}"),
    }
    let empty = ProcessOutput { success: true, code: Some(0), stdout: "\n".to_string(), stderr: String::new() };
    assert!(version_from_outputs(BinaryKind::Ffmpeg, &empty, None).is_err());
    assert_eq!(
        BinResError::NotFound { kind: BinaryKind::Ffmpeg }.message(),
        "Binary 'ffmpeg' was not found in any searched locations"
    );
}

#[test]
fn test_binary_cache_read_write() {
    let mut cache = BinaryCache::new();
    assert!(cache.get(BinaryKind::Ffmpeg).is_none());
    cache.insert(ResolvedBinary {
        kind: BinaryKind::Ffmpeg,
        path: "/usr/bin/ffmpeg".to_string(),
        version: "7.1".to_string(),
        size: 10,
        modified_nanos: 5,
    });
    let got = cache.get(BinaryKind::Ffmpeg).unwrap();
    assert_eq!(got.path, "/usr/bin/ffmpeg");
    assert!(got.is_fresh(10, 5));
    assert!(!got.is_fresh(11, 5));
    cache.insert(ResolvedBinary {
        kind: BinaryKind::Ffmpeg,
        path: "/opt/ffmpeg".to_string(),
        version: "8".to_string(),
        size: 1,
        modified_nanos: 1,
    });
    assert_eq!(cache.get(BinaryKind::Ffmpeg).unwrap().path, "/opt/ffmpeg");
    cache.invalidate(BinaryKind::Ffmpeg);
    assert!(cache.get(BinaryKind::Ffmpeg).is_none());
    cache.insert(ResolvedBinary {
        kind: BinaryKind::YtDlp,
        path: "/y".to_string(),
        version: "1".to_string(),
        size: 1,
        modified_nanos: 1,
    });
    cache.invalidate_all();
    assert!(cache.get(BinaryKind::YtDlp).is_none());
}

#[test]
fn test_availability_reports() {
    let found: Result<ResolvedBinary, BinResError> = Ok(ResolvedBinary {
        kind: BinaryKind::Ffmpeg,
        path: "/usr/bin/ffmpeg".to_string(),
        version: "7.1".to_string(),
        size: 1,
        modified_nanos: 0,
    });
    let a = ffmpeg_availability(&found);
    assert!(a.is_ready);
    assert_eq!(a.status_message, "FFmpeg version 7.1 prête");
    let missing: Result<ResolvedBinary, BinResError> = Err(BinResError::NotFound { kind: BinaryKind::YtDlp });
    let y = ytdlp_availability(&missing);
    assert!(!y.is_ready);
    assert_eq!(
        y.status_message,
        "yt-dlp indisponible: Binary 'yt-dlp' was not found in any searched locations"
    );
}

#[test]
fn test_progress_tracker_reports() {
    let mut t = ProgressTracker::new(Some(10));
    assert_eq!(t.step("frame=12"), None);
    assert_eq!(t.step("out_time=00:00:01.500000"), Some(ProgressReport::Elapsed(1_500_000)));
    assert_eq!(t.step("out_time_us=2000000"), Some(ProgressReport::Elapsed(2_000_000)));
    assert_eq!(t.step("out_time=00:00:03.000000"), None);
    assert_eq!(t.step("out_time_us=N/A"), None);
    assert_eq!(t.step("progress=end"), Some(ProgressReport::Done));

    let mut unknown = ProgressTracker::new(None);
    assert_eq!(unknown.step("out_time=00:00:01.000000"), None);
    assert_eq!(unknown.step("out_time_us=5"), Some(ProgressReport::Unknown));

    let mut zero = ProgressTracker::new(Some(0));
    assert_eq!(zero.step("out_time_us=5"), None);
    assert_eq!(zero.step("progress=end"), Some(ProgressReport::Done));
}

#[test]
fn test_ytdlp_failures() {
    match ytdlp_run_failure("ERROR: Video unavailable".to_string()) {
        CoreError::DownloadFailed(d) => {
            assert_eq!(d.code, DownloadErrorCode::DownloadProcessFailed);
            assert_eq!(d.message, "DOWNLOAD_PROCESS_FAILED");
            assert!(d.retryable);
            assert_eq!(d.stderr_tail.as_deref(), Some("ERROR: Video unavailable"));
        }
        other => panic!("unexpected {other:?}"),
    }
    match ytdlp_run_failure(String::new()) {
        CoreError::DownloadFailed(d) => assert_eq!(d.stderr_tail, None),
        other => panic!("unexpected {other:?}"),
    }
    match ytdlp_start_failure("/bin/yt-dlp", "denied") {
        CoreError::DownloadFailed(d) => {
            assert_eq!(d.code, DownloadErrorCode::YtdlpStartFailed);
            assert_eq!(d.message, "Impossible de démarrer yt-dlp '/bin/yt-dlp': denied");
        }
        other => panic!("unexpected {other:?}"),
    }
}

#[test]
fn test_video_conversion_attempts() {
    let (mut conv, step) = VideoConversion::start(
        "/tmp/job/v.webm".to_string(),
        Some("/tmp/job/a.m4a".to_string()),
        OutputFormat::Mp4,
        "/tmp/job".to_string(),
    );
    let first_out = match step {
        ConversionStep::Run(args, out) => {
            assert!(out.starts_with("/tmp/job/remux_"));
            assert!(out.ends_with(".mp4"));
            assert!(args.contains(&"copy".to_string()));
            assert_eq!(args.last(), Some(&out));
            out
        }
        other => panic!("unexpected {other:?}"),
    };
    match conv.after_attempt(false, "copy failed".to_string()) {
        ConversionStep::Run(args, out) => {
            assert!(out.starts_with("/tmp/job/transcode_"));
            assert_ne!(out, first_out);
            assert!(!args.contains(&"copy".to_string()));
        }
        other => panic!("unexpected {other:?}"),
    }
    match conv.after_attempt(false, "transcode failed".to_string()) {
        ConversionStep::Fail(CoreError::DownloadFailed(d)) => {
            assert_eq!(d.code, DownloadErrorCode::FfmpegFailed);
            assert_eq!(
                d.stderr_tail.as_deref(),
                Some("[Échec Remux -c copy]:\ncopy failed\n\n[Échec Transcodage repli]:\ntranscode failed")
            );
        }
        other => panic!("unexpected {other:?}"),
    }

    let (mut ok, _) = VideoConversion::start("/in.mp4".to_string(), None, OutputFormat::Mov, "/t".to_string());
    assert!(matches!(ok.after_attempt(true, String::new()), ConversionStep::Keep));
}

fn record(fields: &[(&str, JsonScalar)]) -> JsonRecord {
    JsonRecord { fields: fields.iter().map(|(k, v)| (k.to_string(), v.clone())).collect() }
}

#[test]
fn test_probe_from_parsed_records() {
    let url = MediaUrl::parse("https://example.com/watch?v=2").unwrap();
    let top = record(&[
        ("title", JsonScalar::Text("Talk".to_string())),
        ("duration", JsonScalar::Unsigned(60)),
        ("uploader", JsonScalar::Text("Up".to_string())),
        ("channel", JsonScalar::Text("Chan".to_string())),
    ]);
    let list = Some(vec![
        record(&[
            ("format_id", JsonScalar::Text("sb1".to_string())),
            ("vcodec", JsonScalar::Text("none".to_string())),
        ]),
        record(&[
            ("format_id", JsonScalar::Text("22".to_string())),
            ("height", JsonScalar::Unsigned(720)),
            ("vcodec", JsonScalar::Text("avc1".to_string())),
            ("acodec", JsonScalar::Text("mp4a".to_string())),
            ("filesize", JsonScalar::Unsigned(500)),
            ("filesize_approx", JsonScalar::Unsigned(900)),
        ]),
    ]);
    let p = probe_from_records(&url, &top, &list);
    assert_eq!(p.title, "Talk");
    assert_eq!(p.duration_seconds, Some(60));
    assert_eq!(p.uploader.as_deref(), Some("Up"));
    assert_eq!(p.thumbnail_url, None);
    assert_eq!(p.formats.len(), 1);
    assert_eq!(p.formats[0].format_id, "22");
    assert_eq!(p.formats[0].extension, "mp4");
    assert_eq!(p.formats[0].filesize_approx_bytes, Some(500));
    assert!(p.formats[0].has_video && p.formats[0].has_audio);
    assert_eq!(p.available_video_qualities, vec![VideoQuality::P720]);

    let bare = probe_from_records(&url, &record(&[("duration", JsonScalar::Other)]), &None);
    assert_eq!(bare.title, "Sans titre");
    assert_eq!(bare.duration_seconds, None);
    assert!(bare.formats.is_empty());
}
