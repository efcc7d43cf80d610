//! The messages exchanged with the user interface: requests, and the
//! descriptions of jobs, analyses and health it is shown.
use vstd::prelude::*;

use crate::error::DownloadErrorDetails;
use crate::ffmpeg::FfmpegAvailability;
use crate::format::{preset_to_dto, DownloadPresetDto, VideoQuality};
use crate::job::{uuid_hyphenated, DownloadJob, DownloadStatus};
use crate::media_url::opt_view;
use crate::probe::{formats_view, FormatOption, FormatView, ProbeResult};
use crate::settings::AppSettingsDto;
use crate::ytdlp::YtDlpAvailability;

verus! {

/// Request for starting a download job.
#[derive(Debug, Clone)]
pub struct StartDownloadRequestDto {
    pub url: String,
    pub preset: Option<DownloadPresetDto>,
    pub output_directory: Option<String>,
}

/// Request for analyzing a media URL.
#[derive(Debug, Clone)]
pub struct AnalyzeUrlRequest {
    pub url: String,
}

/// Request for updating application settings.
#[derive(Debug, Clone)]
pub struct SetSettingsRequest {
    pub settings: AppSettingsDto,
}

pub open spec fn opt_str_view(o: Option<&str>) -> Option<Seq<char>> {
    match o {
        Some(s) => Some(s@),
        None => None,
    }
}

fn owned(o: Option<&str>) -> (r: Option<String>)
    ensures
        opt_view(r) == opt_str_view(o),
{
    match o {
        Some(s) => Some(String::from_str(s)),
        None => None,
    }
}

/// Full description of a download job.
#[derive(Debug, Clone)]
pub struct DownloadJobDto {
    pub id: String,
    pub url: String,
    pub preset: DownloadPresetDto,
    pub title: Option<String>,
    pub status: DownloadStatus,
    pub progress_percent: Option<u8>,
    pub downloaded_bytes: Option<u64>,
    pub total_bytes: Option<u64>,
    pub speed_bytes_per_second: Option<u64>,
    pub destination_path: Option<String>,
    pub error_message: Option<String>,
    pub error_details: Option<DownloadErrorDetails>,
}

impl DownloadJobDto {
    /// The description of a job.
    pub fn from_job(job: &DownloadJob) -> (r: Self)
        ensures
            r.id@ == uuid_hyphenated(job@.id.0),
            r.url@ == job@.url,
            r.preset == preset_to_dto(job@.preset),
            opt_view(r.title) == job@.title,
            r.status == job@.status,
            r.progress_percent == job@.progress_percent,
            r.downloaded_bytes == job@.downloaded_bytes,
            r.total_bytes == job@.total_bytes,
            r.speed_bytes_per_second == job@.speed_bytes_per_second,
            opt_view(r.destination_path) == job@.destination_path,
            opt_view(r.error_message) == job@.error_message,
            r.error_details == job@.error_details,
    {
        let title = owned(job.title());
        let destination = owned(job.destination_path());
        let message = owned(job.error_message());
        let details = match job.error_details() {
            Some(d) => Some(d.duplicate()),
            None => None,
        };
        DownloadJobDto {
            id: job.id().to_text(),
            url: job.url().to_string(),
            preset: DownloadPresetDto::from(&job.preset()),
            title,
            status: job.status(),
            progress_percent: job.progress_percent(),
            downloaded_bytes: job.downloaded_bytes(),
            total_bytes: job.total_bytes(),
            speed_bytes_per_second: job.speed_bytes_per_second(),
            destination_path: destination,
            error_message: message,
            error_details: details,
        }
    }
}

/// Diagnostic health status.
#[derive(Debug, Clone)]
pub struct HealthResponse {
    pub core_status: String,
    pub ytdlp: YtDlpAvailability,
    pub ffmpeg: FfmpegAvailability,
}

impl HealthResponse {
    /// The health report: the core is ready, with the state of each sidecar.
    pub fn ready(ytdlp: YtDlpAvailability, ffmpeg: FfmpegAvailability) -> (r: Self)
        ensures
            r.core_status@ == "ready"@,
            r.ytdlp == ytdlp,
            r.ffmpeg == ffmpeg,
    {
        HealthResponse { core_status: String::from_str("ready"), ytdlp, ffmpeg }
    }
}

/// Description of a format in a URL analysis.
#[derive(Debug, Clone)]
pub struct FormatOptionDto {
    pub format_id: String,
    pub height: Option<u32>,
    pub has_video: bool,
    pub has_audio: bool,
    pub extension: String,
    pub filesize_approx_bytes: Option<u64>,
    pub note: Option<String>,
}

impl FormatOptionDto {
    /// The description of a format.
    pub fn from_format(f: &FormatOption) -> (r: Self)
        ensures
            (FormatView {
                format_id: r.format_id@,
                height: r.height,
                has_video: r.has_video,
                has_audio: r.has_audio,
                extension: r.extension@,
                filesize_approx_bytes: r.filesize_approx_bytes,
                note: opt_view(r.note),
            }) == f@,
    {
        FormatOptionDto {
            format_id: f.format_id.clone(),
            height: f.height,
            has_video: f.has_video,
            has_audio: f.has_audio,
            extension: f.extension.clone(),
            filesize_approx_bytes: f.filesize_approx_bytes,
            note: match &f.note {
                Some(n) => Some(n.clone()),
                None => None,
            },
        }
    }
}

pub open spec fn format_dto_view(d: FormatOptionDto) -> FormatView {
    FormatView {
        format_id: d.format_id@,
        height: d.height,
        has_video: d.has_video,
        has_audio: d.has_audio,
        extension: d.extension@,
        filesize_approx_bytes: d.filesize_approx_bytes,
        note: opt_view(d.note),
    }
}

/// Description of a URL analysis.
#[derive(Debug, Clone)]
pub struct ProbeResultDto {
    pub url: String,
    pub title: String,
    pub duration_seconds: Option<u64>,
    pub thumbnail_url: Option<String>,
    pub uploader: Option<String>,
    pub formats: Vec<FormatOptionDto>,
    pub available_video_qualities: Vec<VideoQuality>,
}

impl ProbeResultDto {
    /// The description of an analysis.
    pub fn from_probe(probe: &ProbeResult) -> (r: Self)
        ensures
            r.url@ == probe.url@,
            r.title@ == probe.title@,
            r.duration_seconds == probe.duration_seconds,
            opt_view(r.thumbnail_url) == opt_view(probe.thumbnail_url),
            opt_view(r.uploader) == opt_view(probe.uploader),
            r.formats@.map_values(|d: FormatOptionDto| format_dto_view(d)) == formats_view(
                probe.formats@,
            ),
            r.available_video_qualities@ == probe.available_video_qualities@,
    {
        let mut formats: Vec<FormatOptionDto> = Vec::new();
        let mut i: usize = 0;
        while i < probe.formats.len()
            invariant
                i <= probe.formats@.len(),
                formats@.map_values(|d: FormatOptionDto| format_dto_view(d)) == formats_view(
                    probe.formats@,
                ).subrange(0, i as int),
            decreases probe.formats@.len() - i,
        {
            let ghost before = formats@.map_values(|d: FormatOptionDto| format_dto_view(d));
            let d = FormatOptionDto::from_format(&probe.formats[i]);
            formats.push(d);
            assert(formats@.map_values(|d: FormatOptionDto| format_dto_view(d)) =~= before.push(
                probe.formats@[i as int]@,
            ));
            assert(formats_view(probe.formats@).subrange(0, i + 1) =~= formats_view(
                probe.formats@,
            ).subrange(0, i as int).push(probe.formats@[i as int]@));
            i = i + 1;
        }
        assert(formats_view(probe.formats@).subrange(0, i as int) =~= formats_view(
            probe.formats@,
        ));
        let mut qualities: Vec<VideoQuality> = Vec::new();
        let mut j: usize = 0;
        while j < probe.available_video_qualities.len()
            invariant
                j <= probe.available_video_qualities@.len(),
                qualities@ == probe.available_video_qualities@.subrange(0, j as int),
            decreases probe.available_video_qualities@.len() - j,
        {
            qualities.push(probe.available_video_qualities[j]);
            j = j + 1;
        }
        assert(probe.available_video_qualities@.subrange(0, j as int)
            =~= probe.available_video_qualities@);
        ProbeResultDto {
            url: probe.url.to_string(),
            title: probe.title.clone(),
            duration_seconds: probe.duration_seconds,
            thumbnail_url: match &probe.thumbnail_url {
                Some(t) => Some(t.clone()),
                None => None,
            },
            uploader: match &probe.uploader {
                Some(u) => Some(u.clone()),
                None => None,
            },
            formats,
            available_video_qualities: qualities,
        }
    }
}

} // verus!
