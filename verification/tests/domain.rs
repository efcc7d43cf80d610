use polysaver::error::{CoreError, DownloadErrorCode, DownloadErrorDetails, IpcError};
use polysaver::filename::sanitize_filename;
use polysaver::format::{
    DownloadPreset, DownloadPresetDto, Language, Mp3Quality, OutputFormat, ThemeMode, VideoQuality,
};
use polysaver::job::{DownloadJob, DownloadStatus};
use polysaver::media_url::MediaUrl;
use polysaver::settings::{settings_from_stored, AppSettings, AppSettingsDto};

#[test]
fn test_all_output_formats_accepted() {
    assert!(OutputFormat::Mp4.is_video());
    assert!(OutputFormat::Mov.is_video());
    assert!(OutputFormat::Mp3.is_audio());
    assert!(OutputFormat::Flac.is_audio());

    assert_eq!(OutputFormat::Mp4.extension(), "mp4");
    assert_eq!(OutputFormat::Mov.extension(), "mov");
    assert_eq!(OutputFormat::Mp3.extension(), "mp3");
    assert_eq!(OutputFormat::Flac.extension(), "flac");
}

#[test]
fn test_mp4_with_video_quality_accepted() {
    let preset = DownloadPreset::video(OutputFormat::Mp4, VideoQuality::P1080);
    assert!(preset.is_ok());
    let p = preset.unwrap();
    assert_eq!(p.format(), OutputFormat::Mp4);
    assert_eq!(p.video_quality(), Some(VideoQuality::P1080));
    assert_eq!(p.mp3_quality(), None);
}

#[test]
fn test_mov_with_video_quality_accepted() {
    let preset = DownloadPreset::video(OutputFormat::Mov, VideoQuality::Best);
    assert!(preset.is_ok());
    let p = preset.unwrap();
    assert_eq!(p.format(), OutputFormat::Mov);
    assert_eq!(p.video_quality(), Some(VideoQuality::Best));
}

#[test]
fn test_mp3_with_quality_accepted() {
    let preset = DownloadPreset::mp3(Mp3Quality::K320);
    assert_eq!(preset.format(), OutputFormat::Mp3);
    assert_eq!(preset.mp3_quality(), Some(Mp3Quality::K320));
    assert_eq!(preset.video_quality(), None);
}

#[test]
fn test_flac_without_quality_accepted() {
    let preset = DownloadPreset::flac();
    assert_eq!(preset.format(), OutputFormat::Flac);
    assert_eq!(preset.mp3_quality(), None);
    assert_eq!(preset.video_quality(), None);
}

#[test]
fn test_mp3_without_quality_rejected_via_dto() {
    let dto = DownloadPresetDto {
        format: OutputFormat::Mp3,
        video_quality: None,
        mp3_quality: None,
    };
    let result = DownloadPreset::try_from(dto);
    assert!(matches!(result, Err(CoreError::InvalidSettings(_))));
}

#[test]
fn test_flac_with_quality_rejected_via_dto() {
    let dto_video_q = DownloadPresetDto {
        format: OutputFormat::Flac,
        video_quality: Some(VideoQuality::P1080),
        mp3_quality: None,
    };
    assert!(DownloadPreset::try_from(dto_video_q).is_err());

    let dto_mp3_q = DownloadPresetDto {
        format: OutputFormat::Flac,
        video_quality: None,
        mp3_quality: Some(Mp3Quality::K320),
    };
    assert!(DownloadPreset::try_from(dto_mp3_q).is_err());
}

#[test]
fn test_video_format_with_audio_quality_rejected_via_dto() {
    let dto = DownloadPresetDto {
        format: OutputFormat::Mp4,
        video_quality: Some(VideoQuality::P1080),
        mp3_quality: Some(Mp3Quality::K192),
    };
    let result = DownloadPreset::try_from(dto);
    assert!(matches!(result, Err(CoreError::InvalidSettings(_))));
}

#[test]
fn test_playlist_urls_rejected() {
    let list_param = MediaUrl::parse("https://www.youtube.com/watch?v=dQw4w9WgXcQ&list=PL12345");
    assert!(matches!(list_param, Err(CoreError::PlaylistNotSupported(_))));
    assert_eq!(list_param.unwrap_err().machine_code(), "PLAYLIST_NOT_SUPPORTED");

    let playlist_path = MediaUrl::parse("https://www.youtube.com/playlist?list=PL12345");
    assert!(matches!(playlist_path, Err(CoreError::PlaylistNotSupported(_))));

    let channel_path = MediaUrl::parse("https://www.youtube.com/channel/UC12345678");
    assert!(matches!(channel_path, Err(CoreError::PlaylistNotSupported(_))));
}

#[test]
fn test_valid_urls_accepted() {
    let http_url = MediaUrl::parse("http://example.com/video.mp4");
    assert!(http_url.is_ok());
    assert_eq!(http_url.unwrap().as_str(), "http://example.com/video.mp4");

    let https_url = MediaUrl::parse("https://www.youtube.com/watch?v=dQw4w9WgXcQ");
    assert!(https_url.is_ok());
}

#[test]
fn test_disallowed_urls_rejected() {
    assert!(matches!(MediaUrl::parse(""), Err(CoreError::InvalidUrl(_))));
    assert!(matches!(MediaUrl::parse("file:///etc/passwd"), Err(CoreError::InvalidUrl(_))));
    assert!(matches!(
        MediaUrl::parse("ftp://example.com/video.mp4"),
        Err(CoreError::InvalidUrl(_))
    ));
}

#[test]
fn test_app_settings_concurrency_policies() {
    let parallel_off = AppSettings::new(
        "/home/user/downloads".to_string(),
        ThemeMode::Dark,
        false,
        DownloadPreset::default(),
        3,
        Language::French,
        false,
    )
    .unwrap();
    assert_eq!(parallel_off.effective_max_concurrent(), 1);
    assert_eq!(parallel_off.effective_parallel_segments(), 1);

    let parallel_on = AppSettings::new(
        "/home/user/downloads".to_string(),
        ThemeMode::Light,
        true,
        DownloadPreset::default(),
        5,
        Language::English,
        false,
    )
    .unwrap();
    assert_eq!(parallel_on.effective_max_concurrent(), 5);
    assert_eq!(parallel_on.effective_parallel_segments(), 8);

    assert!(AppSettings::new(
        "/home/user/downloads".to_string(),
        ThemeMode::Dark,
        true,
        DownloadPreset::default(),
        0,
        Language::French,
        false,
    )
    .is_err());
    assert!(AppSettings::new(
        "/home/user/downloads".to_string(),
        ThemeMode::Dark,
        true,
        DownloadPreset::default(),
        9,
        Language::French,
        false,
    )
    .is_err());

    assert!(AppSettings::new(
        "~/Downloads".to_string(),
        ThemeMode::Dark,
        true,
        DownloadPreset::default(),
        3,
        Language::French,
        false,
    )
    .is_err());
    assert!(AppSettings::new(
        "relative/path".to_string(),
        ThemeMode::Dark,
        true,
        DownloadPreset::default(),
        3,
        Language::French,
        false,
    )
    .is_err());
    assert!(AppSettings::new(
        "/path/with\0null".to_string(),
        ThemeMode::Dark,
        true,
        DownloadPreset::default(),
        3,
        Language::French,
        false,
    )
    .is_err());
}

#[test]
fn test_download_job_lifecycle() {
    let url = MediaUrl::parse("https://example.com/video").unwrap();
    let preset = DownloadPreset::video(OutputFormat::Mp4, VideoQuality::P720).unwrap();
    let mut job = DownloadJob::new(url, preset);

    assert_eq!(job.status(), DownloadStatus::Queued);
    assert_eq!(job.progress_percent(), None);

    job.transition_to_preparing().unwrap();
    assert_eq!(job.status(), DownloadStatus::Preparing);

    job.transition_to_downloading().unwrap();
    assert_eq!(job.status(), DownloadStatus::Downloading);

    job.update_progress(Some(40), Some(4_000_000), Some(10_000_000), Some(1_000_000))
        .unwrap();
    assert_eq!(job.progress_percent(), Some(40));
    assert_eq!(job.downloaded_bytes(), Some(4_000_000));

    assert!(job.update_progress(Some(35), None, None, None).is_err());

    job.transition_to_converting().unwrap();
    assert_eq!(job.status(), DownloadStatus::Converting);
    assert_eq!(job.progress_percent(), None);
    assert_eq!(job.speed_bytes_per_second(), None);

    job.transition_to_finalizing().unwrap();
    assert_eq!(job.status(), DownloadStatus::Finalizing);

    job.transition_to_completed("/output/video.mp4".to_string())
        .unwrap();
    assert_eq!(job.status(), DownloadStatus::Completed);
    assert_eq!(job.progress_percent(), None);
    assert_eq!(job.destination_path(), Some("/output/video.mp4"));
    assert!(job.is_terminal());

    assert!(job.transition_to_downloading().is_err());
}

#[test]
fn test_app_settings_dto_try_from() {
    let dto = AppSettingsDto {
        download_directory: "/path/to/downloads".to_string(),
        theme_mode: ThemeMode::System,
        parallel_downloads: true,
        default_preset: DownloadPresetDto {
            format: OutputFormat::Flac,
            video_quality: None,
            mp3_quality: None,
        },
        max_concurrent: 4,
        language: Language::English,
    };

    let settings = AppSettings::try_from(dto, false).unwrap();
    assert_eq!(settings.download_directory(), "/path/to/downloads");
    assert_eq!(settings.theme_mode(), ThemeMode::System);
    assert!(settings.parallel_downloads());
    assert_eq!(settings.default_preset(), DownloadPreset::Flac);
    assert_eq!(settings.max_concurrent(), 4);
    assert_eq!(settings.language(), Language::English);

    let default_settings = AppSettings::defaults_for("/tmp/downloads", false).unwrap();
    assert_eq!(default_settings.theme_mode(), ThemeMode::System);
    assert_eq!(default_settings.language(), Language::French);
}

#[test]
fn test_sanitize_filename_bounded_utf8_and_windows_reserved() {
    assert_eq!(sanitize_filename("Simple Title"), "Simple Title");

    assert_eq!(
        sanitize_filename("What? A / B \\ C * D < E > F : G \" H | I % J"),
        "What_ A _ B _ C _ D _ E _ F _ G _ H _ I _ J"
    );

    assert_eq!(sanitize_filename("CON"), "PolySaver_CON");
    assert_eq!(sanitize_filename("prn"), "PolySaver_prn");
    assert_eq!(sanitize_filename("aux"), "PolySaver_aux");
    assert_eq!(sanitize_filename("NUL"), "PolySaver_NUL");
    assert_eq!(sanitize_filename("COM1"), "PolySaver_COM1");
    assert_eq!(sanitize_filename("lpt1"), "PolySaver_lpt1");

    assert_eq!(sanitize_filename("Title with dots...   "), "Title with dots");

    assert_eq!(sanitize_filename(""), "PolySaver_Media");
    assert_eq!(sanitize_filename("..."), "PolySaver_Media");

    let long_japanese = "こんにちは世界".repeat(20);
    let sanitized_long = sanitize_filename(&long_japanese);
    assert!(sanitized_long.len() <= 180);
    assert!(std::str::from_utf8(sanitized_long.as_bytes()).is_ok());
}

#[test]
fn test_language_codes_and_defaults() {
    assert_eq!(Language::French.code(), "fr");
    assert_eq!(Language::English.code(), "en");
    assert_eq!(Language::default(), Language::French);
}

#[test]
fn test_video_quality_heights_round_trip() {
    let all = [
        VideoQuality::P144,
        VideoQuality::P240,
        VideoQuality::P360,
        VideoQuality::P480,
        VideoQuality::P720,
        VideoQuality::P1080,
        VideoQuality::P1440,
        VideoQuality::P2160,
    ];
    for q in all {
        let h = q.target_height().unwrap();
        assert_eq!(VideoQuality::from_height(h), Some(q));
    }
    assert_eq!(VideoQuality::Best.target_height(), None);
    assert_eq!(VideoQuality::from_height(1000), None);
    assert_eq!(VideoQuality::P720.label(), "720p · HD");
    assert_eq!(Mp3Quality::K192.bitrate_kbps(), 192);
}

#[test]
fn test_preset_dto_round_trip_and_defaults() {
    for p in [
        DownloadPreset::video(OutputFormat::Mov, VideoQuality::P480).unwrap(),
        DownloadPreset::mp3(Mp3Quality::K128),
        DownloadPreset::flac(),
    ] {
        let dto = DownloadPresetDto::from(&p);
        assert_eq!(DownloadPreset::try_from(dto).unwrap(), p);
    }
    let dto = DownloadPresetDto { format: OutputFormat::Mp4, video_quality: None, mp3_quality: None };
    assert_eq!(
        DownloadPreset::try_from(dto).unwrap(),
        DownloadPreset::video(OutputFormat::Mp4, VideoQuality::Best).unwrap()
    );
    assert!(matches!(
        DownloadPreset::video(OutputFormat::Mp3, VideoQuality::P720),
        Err(CoreError::InvalidSettings(_))
    ));
    assert_eq!(
        DownloadPreset::default(),
        DownloadPreset::video(OutputFormat::Mp4, VideoQuality::P1080).unwrap()
    );
}

#[test]
fn test_settings_error_messages() {
    let e = AppSettings::new(
        "  ".to_string(),
        ThemeMode::Dark,
        true,
        DownloadPreset::default(),
        3,
        Language::French,
        false,
    )
    .unwrap_err();
    match e {
        CoreError::InvalidSettings(m) => assert_eq!(m, "Download directory cannot be empty"),
        other => panic!("unexpected {other:?}"),
    }
    let e = AppSettings::new(
        "/ok".to_string(),
        ThemeMode::Dark,
        true,
        DownloadPreset::default(),
        12,
        Language::French,
        false,
    )
    .unwrap_err();
    match e {
        CoreError::InvalidSettings(m) => {
            assert_eq!(m, "Max concurrent downloads must be between 1 and 8, got 12")
        }
        other => panic!("unexpected {other:?}"),
    }
    let trimmed = AppSettings::new(
        "  /data/media  ".to_string(),
        ThemeMode::Dark,
        true,
        DownloadPreset::default(),
        3,
        Language::French,
        false,
    )
    .unwrap();
    assert_eq!(trimmed.download_directory(), "/data/media");
}

#[test]
fn test_settings_dto_round_trip_and_legacy_migration() {
    let defaults = AppSettings::defaults_for("/home/me/Downloads/PolySaver", false).unwrap();
    let s = AppSettings::new(
        "/srv/media".to_string(),
        ThemeMode::Light,
        false,
        DownloadPreset::mp3(Mp3Quality::K256),
        2,
        Language::English,
        false,
    )
    .unwrap();
    let dto = AppSettingsDto::from(&s);
    let back = AppSettings::try_from(dto.clone(), false).unwrap();
    assert_eq!(back.download_directory(), "/srv/media");
    assert_eq!(back.default_preset(), DownloadPreset::mp3(Mp3Quality::K256));
    assert_eq!(back.max_concurrent(), 2);

    let (kept, migrated) = settings_from_stored(dto, &defaults, false).unwrap();
    assert!(!migrated);
    assert_eq!(kept.download_directory(), "/srv/media");

    let mut legacy = AppSettingsDto::from(&s);
    legacy.download_directory = "~/Downloads/PolySaver".to_string();
    let (moved, migrated) = settings_from_stored(legacy, &defaults, false).unwrap();
    assert!(migrated);
    assert_eq!(moved.download_directory(), "/home/me/Downloads/PolySaver");
}

#[test]
fn test_url_error_messages_and_codes() {
    match MediaUrl::parse("   ") {
        Err(CoreError::InvalidUrl(m)) => assert_eq!(m, "URL cannot be empty"),
        other => panic!("unexpected {other:?}"),
    }
    match MediaUrl::parse("ftp://example.com/x") {
        Err(CoreError::InvalidUrl(m)) => {
            assert_eq!(m, "Unsupported scheme 'ftp'. Only http and https are allowed")
        }
        other => panic!("unexpected {other:?}"),
    }
    match MediaUrl::parse("not a url") {
        Err(CoreError::InvalidUrl(m)) => assert!(m.starts_with("Malformed URL: ")),
        other => panic!("unexpected {other:?}"),
    }
    let u = MediaUrl::parse("  https://Example.com/watch?v=1  ").unwrap();
    assert_eq!(u.as_str(), "https://example.com/watch?v=1");
    assert!(MediaUrl::parse("https://youtube.com/c/SomeChannel").is_err());
    assert!(MediaUrl::parse("https://example.com/v?LIST=x").is_err());
}

#[test]
fn test_error_details_and_ipc_payload() {
    let d = DownloadErrorDetails::from_code(DownloadErrorCode::NetworkUnavailable);
    assert_eq!(d.code.as_str(), "NETWORK_UNAVAILABLE");
    assert!(d.retryable);
    assert!(d.stderr_tail.is_none());
    assert!(!DownloadErrorCode::FfmpegFailed.is_retryable());

    let err = CoreError::ConverterError("boom".to_string());
    let ipc = IpcError::from_core(&err);
    assert_eq!(ipc.code, "FFMPEG_FAILED");
    assert_eq!(ipc.message, "boom");
    assert!(!ipc.retryable);

    let cancelled = IpcError::from_core(&CoreError::OperationCancelled);
    assert_eq!(cancelled.code, "DOWNLOAD_CANCELED");

    let generic = IpcError::new("X".to_string(), "y".to_string());
    assert!(!generic.retryable);
    assert!(generic.details.is_none());
}

#[test]
fn test_job_refuses_backward_and_terminal_moves() {
    let url = MediaUrl::parse("https://example.com/a").unwrap();
    let mut job = DownloadJob::new(url, DownloadPreset::flac());
    job.transition_to_downloading().unwrap();
    assert!(matches!(job.transition_to_preparing(), Err(CoreError::InvalidState(_))));
    job.transition_to_canceled().unwrap();
    assert!(job.is_terminal());
    assert!(job.transition_to_completed("/x".to_string()).is_err());
    assert!(job.update_progress(Some(10), None, None, None).is_err());
    assert_eq!(job.status(), DownloadStatus::Canceled);
}

#[test]
fn test_sanitize_filename_protects_reserved_names_after_cutting() {
    let title = format!("CON{}x", ".".repeat(177));
    assert_eq!(sanitize_filename(&title), "PolySaver_CON");
    let lpt = format!("lpt1 {}y", " ".repeat(190));
    assert_eq!(sanitize_filename(&lpt), "PolySaver_lpt1");
    for t in [title.as_str(), lpt.as_str(), "  Me at the zoo. ", "NUL", "a/b?c", "", "...", "こんにちは世界"] {
        let once = sanitize_filename(t);
        assert_eq!(sanitize_filename(&once), once);
    }
}

#[test]
fn test_download_error_code_and_details() {
    let codes = [
        (DownloadErrorCode::YtdlpNotFound, "YTDLP_NOT_FOUND", false),
        (DownloadErrorCode::YtdlpStartFailed, "YTDLP_START_FAILED", false),
        (DownloadErrorCode::YtdlpUpdateRequired, "YTDLP_UPDATE_REQUIRED", false),
        (DownloadErrorCode::NetworkUnavailable, "NETWORK_UNAVAILABLE", true),
        (DownloadErrorCode::VideoUnavailable, "VIDEO_UNAVAILABLE", false),
        (DownloadErrorCode::AuthenticationRequired, "AUTHENTICATION_REQUIRED", false),
        (DownloadErrorCode::RateLimited, "RATE_LIMITED", true),
        (DownloadErrorCode::FormatNotAvailable, "FORMAT_NOT_AVAILABLE", false),
        (DownloadErrorCode::FfmpegNotFound, "FFMPEG_NOT_FOUND", false),
        (DownloadErrorCode::FfmpegFailed, "FFMPEG_FAILED", false),
        (DownloadErrorCode::OutputPermissionDenied, "OUTPUT_PERMISSION_DENIED", false),
        (DownloadErrorCode::OutputFileNotFound, "OUTPUT_FILE_NOT_FOUND", false),
        (DownloadErrorCode::SourceUrlInvalid, "SOURCE_URL_INVALID", false),
        (DownloadErrorCode::HistorySaveFailed, "HISTORY_SAVE_FAILED", true),
        (DownloadErrorCode::DiskFull, "DISK_FULL", false),
        (DownloadErrorCode::DownloadCanceled, "DOWNLOAD_CANCELED", false),
        (DownloadErrorCode::DownloadProcessFailed, "DOWNLOAD_PROCESS_FAILED", true),
    ];

    for (code, expected_text, expected_retryable) in codes {
        assert_eq!(code.as_str(), expected_text);
        assert_eq!(code.is_retryable(), expected_retryable);
        assert!(!DownloadErrorDetails::from_code(code).message.is_empty());
    }

    let details = DownloadErrorDetails::from_code(DownloadErrorCode::NetworkUnavailable);
    assert_eq!(details.code.as_str(), "NETWORK_UNAVAILABLE");
    assert!(details.retryable);
}
