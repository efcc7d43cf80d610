//! Plain data exchanged between the download pipeline and its adapters.
use vstd::prelude::*;

use crate::format::{Mp3Quality, OutputFormat};
use crate::error::DownloadErrorDetails;
use crate::job::{DownloadId, DownloadJob};

verus! {

/// Progress information emitted during conversion.
#[derive(Debug, Clone, Copy, PartialEq, Eq, Structural)]
pub struct ConverterProgress {
    /// Conversion completion percentage (0 to 100), or None if indeterminate.
    pub percent: Option<u8>,
}

/// Target audio codec configuration for transcoding.
#[derive(Debug, Clone, Copy, PartialEq, Eq, Structural)]
pub enum AudioCodec {
    Mp3(Mp3Quality),
    Flac,
}

/// Typed media conversion / remuxing request; paths are written as text.
#[derive(Debug, Clone)]
pub enum ConvertRequest {
    /// Mux video and audio streams together, transcoding only if needed.
    VideoMuxOrTranscode {
        video_input: String,
        audio_input: Option<String>,
        output_path: String,
        format: OutputFormat,
        duration_seconds: Option<u64>,
        temp_dir: String,
    },
    /// Transcode audio stream to target format (MP3 / FLAC).
    AudioTranscode {
        audio_input: String,
        output_path: String,
        codec: AudioCodec,
        duration_seconds: Option<u64>,
        temp_dir: String,
    },
}

/// High-level execution phase of a download job.
#[derive(Debug, Clone, Copy, PartialEq, Eq, Structural)]
pub enum ProgressPhase {
    Preparing,
    Probing,
    Downloading,
    Converting,
    Finalizing,
}

/// Real-time progress event.
#[derive(Debug, Clone, Copy, PartialEq, Eq, Structural)]
pub struct DownloadProgressEvent {
    pub download_id: DownloadId,
    pub phase: ProgressPhase,
    pub percent: Option<u8>,
    pub downloaded_bytes: Option<u64>,
    pub total_bytes: Option<u64>,
    pub speed_bytes_per_second: Option<u64>,
}

impl DownloadProgressEvent {
    /// A phase change, with no figures.
    pub fn phase_only(download_id: DownloadId, phase: ProgressPhase) -> (e: Self)
        ensures
            e == (DownloadProgressEvent {
                download_id,
                phase,
                percent: None,
                downloaded_bytes: None,
                total_bytes: None,
                speed_bytes_per_second: None,
            }),
    {
        DownloadProgressEvent {
            download_id,
            phase,
            percent: None,
            downloaded_bytes: None,
            total_bytes: None,
            speed_bytes_per_second: None,
        }
    }

    /// Download figures of a stream, as a `Downloading` event.
    pub fn downloading(download_id: DownloadId, progress: StreamProgress) -> (e: Self)
        ensures
            e == (DownloadProgressEvent {
                download_id,
                phase: ProgressPhase::Downloading,
                percent: progress.percent,
                downloaded_bytes: progress.downloaded_bytes,
                total_bytes: progress.total_bytes,
                speed_bytes_per_second: progress.speed_bytes_per_second,
            }),
    {
        DownloadProgressEvent {
            download_id,
            phase: ProgressPhase::Downloading,
            percent: progress.percent,
            downloaded_bytes: progress.downloaded_bytes,
            total_bytes: progress.total_bytes,
            speed_bytes_per_second: progress.speed_bytes_per_second,
        }
    }
}

/// Warning emitted when a non-fatal operation encounters an issue.
#[derive(Debug, Clone)]
pub struct DownloadWarningEvent {
    pub download_id: DownloadId,
    pub code: String,
    pub message: String,
}

/// Progress information reported during stream download.
#[derive(Debug, Clone, Copy, PartialEq, Eq, Structural)]
pub struct StreamProgress {
    pub percent: Option<u8>,
    pub downloaded_bytes: Option<u64>,
    pub total_bytes: Option<u64>,
    pub speed_bytes_per_second: Option<u64>,
}

/// Artifacts produced by the raw stream download; paths are written as text.
#[derive(Debug, Clone)]
pub struct DownloadedStreams {
    pub raw_artifacts: Vec<String>,
    pub video_path: Option<String>,
    pub audio_path: Option<String>,
    pub title: String,
    pub duration_seconds: Option<u64>,
}

/// Stream information returned by a media inspector.
#[derive(Debug, Clone, PartialEq, Eq)]
pub struct MediaStreamInfo {
    pub has_video: bool,
    pub has_audio: bool,
    pub video_codec: Option<String>,
    pub audio_codec: Option<String>,
}

/// Sink for publishing real-time domain events to the outside world.
pub trait EventSink {
    /// Emits when a job is added to the queue.
    fn emit_queued(&self, job: &DownloadJob);

    /// Emits fine-grained progress updates.
    fn emit_progress(&self, progress: &DownloadProgressEvent);

    /// Emits when a job finishes successfully.
    fn emit_completed(&self, job: &DownloadJob);

    /// Emits when a job fails with structured error details.
    fn emit_failed(&self, job: &DownloadJob, error: &DownloadErrorDetails);

    /// Emits when a job is canceled.
    fn emit_canceled(&self, job: &DownloadJob);

    /// Emits when a non-fatal warning occurs during execution.
    fn emit_warning(&self, warning: &DownloadWarningEvent) {
    }
}

/// The kinds of events shown to the user interface.
#[derive(Debug, Clone, Copy, PartialEq, Eq, Structural)]
pub enum EventKind {
    Queued,
    Progress,
    Completed,
    Failed,
    Canceled,
    Warning,
}

pub open spec fn event_channel_spec(k: EventKind) -> Seq<char> {
    match k {
        EventKind::Queued => "download://queued"@,
        EventKind::Progress => "download://progress"@,
        EventKind::Completed => "download://completed"@,
        EventKind::Failed => "download://failed"@,
        EventKind::Canceled => "download://canceled"@,
        EventKind::Warning => "download://warning"@,
    }
}

/// The channel an event is published on.
pub fn event_channel(k: EventKind) -> (r: &'static str)
    ensures
        r@ == event_channel_spec(k),
{
    match k {
        EventKind::Queued => "download://queued",
        EventKind::Progress => "download://progress",
        EventKind::Completed => "download://completed",
        EventKind::Failed => "download://failed",
        EventKind::Canceled => "download://canceled",
        EventKind::Warning => "download://warning",
    }
}

} // verus!
