//! The steps of the download pipeline: what starting a download decides, what
//! each phase does to the registry of jobs, which downloaded streams go into
//! the conversion, and how the outcome of a pipeline is settled.
//!
//! The pipeline itself runs outside: it performs each step's work (creating
//! directories, running the downloader and the converter, publishing the
//! file) and hands the results to the functions of this module.
use vstd::prelude::*;

use crate::error::{is_download_details_of, CoreError, DownloadErrorCode, DownloadErrorDetails};
use crate::format::{format_extension, DownloadPreset};
use crate::job::{uuid_hyphenated, DownloadId, DownloadJob, DownloadStatus};
use crate::media_url::opt_view;
use crate::ports::{
    AudioCodec, ConvertRequest, DownloadProgressEvent, DownloadWarningEvent, ProgressPhase,
    StreamProgress,
};
use crate::service::{
    advance_outcome, advance_unless_terminal_outcome, find_job, is_failure, mark_canceled_spec,
    mark_failed_spec, opt_job_view, JobRegistry,
};
use crate::settings::{is_absolute_path, path_is_absolute, AppSettings};
use crate::text::{
    concat3, concat_str, contains_char, from_chars, to_chars, trim, trim_chars, vec_contains_char,
};

verus! {

/// Where a download goes when a custom directory was given: the settings'
/// directory when it is blank, else the custom directory itself, which may
/// not start with `~`, hold a null character, or be relative.
pub open spec fn custom_dir_spec(custom: Seq<char>, settings_dir: Seq<char>, windows: bool) -> Result<
    Seq<char>,
    Seq<char>,
> {
    let t = trim(custom);
    if t.len() == 0 {
        Ok(settings_dir)
    } else if t[0] == '~' {
        Err("Custom download directory cannot start with '~'"@)
    } else if contains_char(t, '\0') {
        Err("Custom download directory cannot contain null bytes"@)
    } else if !is_absolute_path(custom, windows) {
        Err("Custom download directory must be an absolute path: '"@ + t + "'"@)
    } else {
        Ok(custom)
    }
}

/// The target directory of a download, or the text of the settings error.
pub open spec fn target_dir_spec(custom: Option<Seq<char>>, settings_dir: Seq<char>, windows: bool) -> Result<
    Seq<char>,
    Seq<char>,
> {
    match custom {
        None => Ok(settings_dir),
        Some(c) => custom_dir_spec(c, settings_dir, windows),
    }
}

/// Chooses the directory a download is written to.
pub fn resolve_target_dir(custom: Option<String>, settings_dir: &str, windows: bool) -> (r: Result<
    String,
    CoreError,
>)
    ensures
        match target_dir_spec(opt_view(custom), settings_dir@, windows) {
            Ok(d) => r matches Ok(x) && x@ == d,
            Err(m) => r matches Err(CoreError::InvalidSettings(x)) && x@ == m,
        },
{
    match custom {
        None => Ok(String::from_str(settings_dir)),
        Some(c) => {
            let chars = to_chars(c.as_str());
            let t = trim_chars(&chars);
            if t.len() == 0 {
                return Ok(String::from_str(settings_dir));
            }
            if t[0] == '~' {
                return Err(
                    CoreError::InvalidSettings(
                        String::from_str("Custom download directory cannot start with '~'"),
                    ),
                );
            }
            if vec_contains_char(&t, '\0') {
                return Err(
                    CoreError::InvalidSettings(
                        String::from_str("Custom download directory cannot contain null bytes"),
                    ),
                );
            }
            if !path_is_absolute(&chars, windows) {
                let ts = from_chars(&t);
                return Err(
                    CoreError::InvalidSettings(
                        concat3(
                            "Custom download directory must be an absolute path: '",
                            ts.as_str(),
                            "'",
                        ),
                    ),
                );
            }
            Ok(c)
        },
    }
}

/// What a download request is run with.
pub struct StartPlan {
    pub preset: DownloadPreset,
    pub target_dir: String,
    pub parallel_segments: usize,
}

/// Decides the preset, the target directory and the parallel segments of a
/// download request: the requested preset or the settings' default one, the
/// custom directory or the settings' one.
pub fn plan_start(
    requested_preset: Option<DownloadPreset>,
    custom_output_dir: Option<String>,
    settings: &AppSettings,
    windows: bool,
) -> (r: Result<StartPlan, CoreError>)
    ensures
        match target_dir_spec(opt_view(custom_output_dir), settings@.download_directory, windows) {
            Ok(d) => r matches Ok(p) && p.target_dir@ == d && p.preset == (match requested_preset {
                Some(x) => x,
                None => settings@.default_preset,
            }) && p.parallel_segments == (if settings@.parallel_downloads {
                8usize
            } else {
                1usize
            }),
            Err(m) => r matches Err(CoreError::InvalidSettings(x)) && x@ == m,
        },
{
    let preset = match requested_preset {
        Some(p) => p,
        None => settings.default_preset(),
    };
    let target_dir = match resolve_target_dir(custom_output_dir, settings.download_directory(), windows) {
        Ok(d) => d,
        Err(e) => {
            return Err(e);
        },
    };
    Ok(StartPlan { preset, target_dir, parallel_segments: settings.effective_parallel_segments() })
}

pub open spec fn unit_result<T>(r: Result<T, CoreError>) -> Result<(), CoreError> {
    match r {
        Ok(_) => Ok(()),
        Err(e) => Err(e),
    }
}

/// The phase event of a pipeline step.
pub open spec fn phase_event(id: DownloadId, phase: ProgressPhase) -> DownloadProgressEvent {
    DownloadProgressEvent {
        download_id: id,
        phase,
        percent: None,
        downloaded_bytes: None,
        total_bytes: None,
        speed_bytes_per_second: None,
    }
}

/// First step of a pipeline: a canceled request stops; otherwise the job moves
/// to `Preparing`, which is announced.
pub fn enter_preparing(reg: &mut JobRegistry, id: DownloadId, cancelled: bool) -> (r: Result<
    DownloadProgressEvent,
    CoreError,
>)
    ensures
        cancelled ==> (r matches Err(CoreError::OperationCancelled) && final(reg)@ == old(reg)@),
        !cancelled ==> advance_outcome(
            old(reg)@,
            final(reg)@,
            id,
            DownloadStatus::Preparing,
            unit_result(r),
        ),
        r matches Ok(e) ==> e == phase_event(id, ProgressPhase::Preparing),
{
    if cancelled {
        return Err(CoreError::OperationCancelled);
    }
    match reg.advance(id, DownloadStatus::Preparing) {
        Ok(()) => Ok(DownloadProgressEvent::phase_only(id, ProgressPhase::Preparing)),
        Err(e) => Err(e),
    }
}

/// The job moves to `Downloading` unless the request was canceled.
pub fn enter_downloading(reg: &mut JobRegistry, id: DownloadId, cancelled: bool) -> (r: Result<
    (),
    CoreError,
>)
    ensures
        cancelled ==> (r matches Err(CoreError::OperationCancelled) && final(reg)@ == old(reg)@),
        !cancelled ==> advance_outcome(old(reg)@, final(reg)@, id, DownloadStatus::Downloading, r),
{
    if cancelled {
        return Err(CoreError::OperationCancelled);
    }
    reg.advance(id, DownloadStatus::Downloading)
}

/// The job moves to `Converting`, which is announced, unless the request was
/// canceled or the job ended meanwhile.
pub fn enter_converting(reg: &mut JobRegistry, id: DownloadId, cancelled: bool) -> (r: Result<
    DownloadProgressEvent,
    CoreError,
>)
    ensures
        cancelled ==> (r matches Err(CoreError::OperationCancelled) && final(reg)@ == old(reg)@),
        !cancelled ==> advance_unless_terminal_outcome(
            old(reg)@,
            final(reg)@,
            id,
            DownloadStatus::Converting,
            unit_result(r),
        ),
        r matches Ok(e) ==> e == phase_event(id, ProgressPhase::Converting),
{
    if cancelled {
        return Err(CoreError::OperationCancelled);
    }
    match reg.advance_unless_terminal(id, DownloadStatus::Converting) {
        Ok(()) => Ok(DownloadProgressEvent::phase_only(id, ProgressPhase::Converting)),
        Err(e) => Err(e),
    }
}

/// The job moves to `Finalizing`, which is announced, unless the request was
/// canceled or the job ended meanwhile.
pub fn enter_finalizing(reg: &mut JobRegistry, id: DownloadId, cancelled: bool) -> (r: Result<
    DownloadProgressEvent,
    CoreError,
>)
    ensures
        cancelled ==> (r matches Err(CoreError::OperationCancelled) && final(reg)@ == old(reg)@),
        !cancelled ==> advance_unless_terminal_outcome(
            old(reg)@,
            final(reg)@,
            id,
            DownloadStatus::Finalizing,
            unit_result(r),
        ),
        r matches Ok(e) ==> e == phase_event(id, ProgressPhase::Finalizing),
{
    if cancelled {
        return Err(CoreError::OperationCancelled);
    }
    match reg.advance_unless_terminal(id, DownloadStatus::Finalizing) {
        Ok(()) => Ok(DownloadProgressEvent::phase_only(id, ProgressPhase::Finalizing)),
        Err(e) => Err(e),
    }
}

/// Last check before publishing: nothing is published for a canceled
/// request or a job that ended meanwhile.
pub fn check_commit(reg: &JobRegistry, id: DownloadId, cancelled: bool) -> (r: Result<
    (),
    CoreError,
>)
    ensures
        (cancelled || (find_job(reg@, id) matches Some(k) && crate::job::is_terminal_status(
            reg@[k].status,
        ))) ==> r matches Err(CoreError::OperationCancelled),
        !(cancelled || (find_job(reg@, id) matches Some(k) && crate::job::is_terminal_status(
            reg@[k].status,
        ))) ==> r is Ok,
{
    if cancelled {
        return Err(CoreError::OperationCancelled);
    }
    reg.ensure_not_terminal(id)
}

/// The event announcing stream progress, unless the job is gone or ended, or
/// the request was canceled.
pub fn stream_progress_event(
    id: DownloadId,
    progress: StreamProgress,
    job_terminal: bool,
    cancelled: bool,
) -> (r: Option<DownloadProgressEvent>)
    ensures
        (job_terminal || cancelled) ==> r is None,
        !(job_terminal || cancelled) ==> r == Some(
            DownloadProgressEvent {
                download_id: id,
                phase: ProgressPhase::Downloading,
                percent: progress.percent,
                downloaded_bytes: progress.downloaded_bytes,
                total_bytes: progress.total_bytes,
                speed_bytes_per_second: progress.speed_bytes_per_second,
            },
        ),
{
    if job_terminal || cancelled {
        None
    } else {
        Some(DownloadProgressEvent::downloading(id, progress))
    }
}

/// The error when the target directory cannot be created.
pub fn target_dir_failure(dir: &str, reason: &str) -> (e: CoreError)
    ensures
        is_failure(
            e,
            DownloadErrorCode::OutputPermissionDenied,
            "Impossible d'accéder au dossier de destination '"@ + dir@ + "': "@ + reason@,
        ),
{
    let mut m = concat3("Impossible d'accéder au dossier de destination '", dir, "': ");
    m.append(reason);
    CoreError::DownloadFailed(
        DownloadErrorDetails::with_message(DownloadErrorCode::OutputPermissionDenied, m),
    )
}

/// The name of a job's temporary directory.
pub fn job_temp_dir_name(id: DownloadId) -> (r: String)
    ensures
        r@ == "job_"@ + uuid_hyphenated(id.0),
{
    concat_str("job_", id.to_text().as_str())
}

/// The error when a job's temporary directory cannot be created.
pub fn temp_dir_failure(reason: &str) -> (e: CoreError)
    ensures
        e matches CoreError::StorageError(m) && m@ == "Failed to create temporary directory: "@
            + reason@,
{
    CoreError::StorageError(concat_str("Failed to create temporary directory: ", reason))
}

/// A downloaded file that exists and was inspected.
pub struct InspectedArtifact {
    pub path: String,
    pub has_video: bool,
    pub has_audio: bool,
}

/// The video and audio inputs chosen so far, updated with one more artifact:
/// the first artifact with video gives the video input, the first with audio
/// the audio input.
pub open spec fn pick_step(
    acc: (Option<Seq<char>>, Option<Seq<char>>),
    a: InspectedArtifact,
) -> (Option<Seq<char>>, Option<Seq<char>>) {
    let v = if a.has_video && acc.0 is None {
        Some(a.path@)
    } else {
        acc.0
    };
    let au = if a.has_audio && acc.1 is None {
        Some(a.path@)
    } else {
        acc.1
    };
    (v, au)
}

pub open spec fn pick_streams(s: Seq<InspectedArtifact>) -> (Option<Seq<char>>, Option<Seq<char>>)
    decreases s.len(),
{
    if s.len() == 0 {
        (None, None)
    } else {
        pick_step(pick_streams(s.drop_last()), s.last())
    }
}

pub open spec fn or_else(o: Option<Seq<char>>, f: Option<Seq<char>>) -> Option<Seq<char>> {
    if o is Some {
        o
    } else {
        f
    }
}

/// Chooses the conversion inputs from the inspected artifacts, falling back
/// on the paths the downloader reported.
pub fn select_inputs(
    artifacts: &Vec<InspectedArtifact>,
    video_path: Option<String>,
    audio_path: Option<String>,
) -> (r: (Option<String>, Option<String>))
    ensures
        opt_view(r.0) == or_else(pick_streams(artifacts@).0, opt_view(video_path)),
        opt_view(r.1) == or_else(pick_streams(artifacts@).1, opt_view(audio_path)),
{
    let mut v: Option<String> = None;
    let mut a: Option<String> = None;
    let mut i: usize = 0;
    while i < artifacts.len()
        invariant
            i <= artifacts@.len(),
            (opt_view(v), opt_view(a)) == pick_streams(artifacts@.subrange(0, i as int)),
        decreases artifacts@.len() - i,
    {
        let x = &artifacts[i];
        assert(artifacts@.subrange(0, i + 1).drop_last() == artifacts@.subrange(0, i as int));
        if x.has_video && v.is_none() {
            v = Some(x.path.clone());
        }
        if x.has_audio && a.is_none() {
            a = Some(x.path.clone());
        }
        i = i + 1;
    }
    assert(artifacts@.subrange(0, artifacts@.len() as int) == artifacts@);
    let v = match v {
        Some(p) => Some(p),
        None => video_path,
    };
    let a = match a {
        Some(p) => Some(p),
        None => audio_path,
    };
    (v, a)
}

/// The name of the converted file inside the job's temporary directory.
pub fn converted_file_name(preset: DownloadPreset) -> (r: String)
    ensures
        r@ == "output_converted."@ + format_extension(preset.spec_format()),
{
    concat_str("output_converted.", preset.format().extension())
}

pub open spec fn missing_stream_message(preset: DownloadPreset) -> Seq<char> {
    match preset {
        DownloadPreset::Video { .. } => "Missing downloaded video stream for conversion"@,
        DownloadPreset::Mp3 { .. } => "Missing downloaded audio stream for MP3 conversion"@,
        DownloadPreset::Flac => "Missing downloaded audio stream for FLAC conversion"@,
    }
}

/// The input of a conversion: the video stream for a video preset, the audio
/// stream (or else the video one) for an audio preset.
pub open spec fn conversion_input(
    preset: DownloadPreset,
    video: Option<Seq<char>>,
    audio: Option<Seq<char>>,
) -> Option<Seq<char>> {
    match preset {
        DownloadPreset::Video { .. } => video,
        _ => or_else(audio, video),
    }
}

/// Whether a conversion request is the one a preset asks for, on the given
/// input, output, duration and temporary directory.
pub open spec fn is_conversion_for(
    req: ConvertRequest,
    preset: DownloadPreset,
    input: Seq<char>,
    audio: Option<Seq<char>>,
    output: Seq<char>,
    duration: Option<u64>,
    temp_dir: Seq<char>,
) -> bool {
    match preset {
        DownloadPreset::Video { format, .. } => req matches ConvertRequest::VideoMuxOrTranscode {
            video_input,
            audio_input,
            output_path,
            format: f,
            duration_seconds,
            temp_dir: t,
        } && video_input@ == input && opt_view(audio_input) == audio && output_path@ == output
            && f == format && duration_seconds == duration && t@ == temp_dir,
        DownloadPreset::Mp3 { quality } => req matches ConvertRequest::AudioTranscode {
            audio_input,
            output_path,
            codec,
            duration_seconds,
            temp_dir: t,
        } && audio_input@ == input && output_path@ == output && codec == AudioCodec::Mp3(quality)
            && duration_seconds == duration && t@ == temp_dir,
        DownloadPreset::Flac => req matches ConvertRequest::AudioTranscode {
            audio_input,
            output_path,
            codec,
            duration_seconds,
            temp_dir: t,
        } && audio_input@ == input && output_path@ == output && codec == AudioCodec::Flac
            && duration_seconds == duration && t@ == temp_dir,
    }
}

/// The conversion a preset asks for, or the failure when its input stream is
/// missing.
pub fn plan_conversion(
    preset: DownloadPreset,
    video_input: Option<String>,
    audio_input: Option<String>,
    output_path: String,
    duration_seconds: Option<u64>,
    temp_dir: String,
) -> (r: Result<ConvertRequest, CoreError>)
    ensures
        match conversion_input(preset, opt_view(video_input), opt_view(audio_input)) {
            None => r matches Err(e) && is_failure(
                e,
                DownloadErrorCode::FfmpegFailed,
                missing_stream_message(preset),
            ),
            Some(i) => r matches Ok(req) && is_conversion_for(
                req,
                preset,
                i,
                opt_view(audio_input),
                output_path@,
                duration_seconds,
                temp_dir@,
            ),
        },
{
    match preset {
        DownloadPreset::Video { format, .. } => match video_input {
            None => Err(
                CoreError::DownloadFailed(
                    DownloadErrorDetails::with_message(
                        DownloadErrorCode::FfmpegFailed,
                        String::from_str("Missing downloaded video stream for conversion"),
                    ),
                ),
            ),
            Some(v) => Ok(
                ConvertRequest::VideoMuxOrTranscode {
                    video_input: v,
                    audio_input,
                    output_path,
                    format,
                    duration_seconds,
                    temp_dir,
                },
            ),
        },
        DownloadPreset::Mp3 { quality } => {
            let input = match audio_input {
                Some(a) => Some(a),
                None => video_input,
            };
            match input {
                None => Err(
                    CoreError::DownloadFailed(
                        DownloadErrorDetails::with_message(
                            DownloadErrorCode::FfmpegFailed,
                            String::from_str("Missing downloaded audio stream for MP3 conversion"),
                        ),
                    ),
                ),
                Some(a) => Ok(
                    ConvertRequest::AudioTranscode {
                        audio_input: a,
                        output_path,
                        codec: AudioCodec::Mp3(quality),
                        duration_seconds,
                        temp_dir,
                    },
                ),
            }
        },
        DownloadPreset::Flac => {
            let input = match audio_input {
                Some(a) => Some(a),
                None => video_input,
            };
            match input {
                None => Err(
                    CoreError::DownloadFailed(
                        DownloadErrorDetails::with_message(
                            DownloadErrorCode::FfmpegFailed,
                            String::from_str("Missing downloaded audio stream for FLAC conversion"),
                        ),
                    ),
                ),
                Some(a) => Ok(
                    ConvertRequest::AudioTranscode {
                        audio_input: a,
                        output_path,
                        codec: AudioCodec::Flac,
                        duration_seconds,
                        temp_dir,
                    },
                ),
            }
        },
    }
}

/// The error when the converted file cannot be read.
pub fn converted_access_failure(path: &str, reason: &str) -> (e: CoreError)
    ensures
        e matches CoreError::ConverterError(m) && m@ == "Failed to access generated output file '"@
            + path@ + "': "@ + reason@,
{
    let mut m = concat3("Failed to access generated output file '", path, "': ");
    m.append(reason);
    CoreError::ConverterError(m)
}

/// A converted file must not be empty.
pub fn check_converted_size(size: u64, path: &str) -> (r: Result<(), CoreError>)
    ensures
        size == 0 ==> (r matches Err(CoreError::ConverterError(m)) && m@ == "Generated file '"@
            + path@ + "' is empty (0 bytes)"@),
        size != 0 ==> r is Ok,
{
    if size == 0 {
        return Err(
            CoreError::ConverterError(concat3("Generated file '", path, "' is empty (0 bytes)")),
        );
    }
    Ok(())
}

/// The warning announced when the history entry of a completed download
/// could not be recorded.
pub fn history_warning(id: DownloadId, reason: &str) -> (w: DownloadWarningEvent)
    ensures
        w.download_id == id,
        w.code@ == "HISTORY_SAVE_FAILED"@,
        w.message@ == "Failed to record download history: "@ + reason@,
{
    DownloadWarningEvent {
        download_id: id,
        code: String::from_str("HISTORY_SAVE_FAILED"),
        message: concat_str("Failed to record download history: ", reason),
    }
}

/// How a pipeline ended, as announced.
pub enum Settled {
    /// The pipeline completed the job.
    Finished,
    /// The job is canceled; the job to announce, if any.
    Canceled(Option<DownloadJob>),
    /// The job failed with the given details; the job to announce, if any.
    Failed(Option<DownloadJob>, DownloadErrorDetails),
}

/// Records how a pipeline ended: a cancellation marks the job canceled, any
/// other error marks it failed with the error's details.
pub fn settle_pipeline(reg: &mut JobRegistry, id: DownloadId, outcome: &Result<(), CoreError>) -> (r:
    Settled)
    ensures
        match *outcome {
            Ok(()) => r is Finished && final(reg)@ == old(reg)@,
            Err(CoreError::OperationCancelled) => r matches Settled::Canceled(j) && (
            final(reg)@,
            opt_job_view(j),
            ) == mark_canceled_spec(old(reg)@, id),
            Err(e) => r matches Settled::Failed(j, d) && is_download_details_of(e, d) && (
            final(reg)@,
            opt_job_view(j),
            ) == mark_failed_spec(old(reg)@, id, d),
        },
{
    match outcome {
        Ok(()) => Settled::Finished,
        Err(CoreError::OperationCancelled) => Settled::Canceled(reg.mark_canceled(id)),
        Err(e) => {
            let d = e.to_download_error_details();
            let j = reg.mark_failed(id, d.duplicate());
            Settled::Failed(j, d)
        },
    }
}

/// A planned conversion works on the streams that were downloaded: a video
/// preset muxes the video input with exactly the audio input given (a
/// separate audio stream is never dropped) into the preset's container; an
/// audio preset transcodes the audio input, or the video input when no audio
/// stream came, with the preset's codec; and planning fails when the stream
/// the preset needs is missing.
pub proof fn law_conversion_uses_downloaded_streams(
    req: ConvertRequest,
    preset: DownloadPreset,
    video: Option<Seq<char>>,
    audio: Option<Seq<char>>,
    output: Seq<char>,
    duration: Option<u64>,
    temp_dir: Seq<char>,
)
    ensures
        (preset is Video && video is None) ==> conversion_input(preset, video, audio) is None,
        (preset !is Video && video is None && audio is None) ==> conversion_input(preset, video, audio) is None,
        (conversion_input(preset, video, audio) matches Some(i) && is_conversion_for(
            req,
            preset,
            i,
            audio,
            output,
            duration,
            temp_dir,
        )) ==> match preset {
            DownloadPreset::Video { format, .. } => req matches ConvertRequest::VideoMuxOrTranscode {
                video_input,
                audio_input,
                output_path,
                format: f,
                ..
            } && video == Some(video_input@) && opt_view(audio_input) == audio && output_path@ == output
                && f == format,
            DownloadPreset::Mp3 { quality } => req matches ConvertRequest::AudioTranscode {
                audio_input,
                output_path,
                codec,
                ..
            } && Some(audio_input@) == (if audio is Some {
                audio
            } else {
                video
            }) && output_path@ == output && codec == AudioCodec::Mp3(quality),
            DownloadPreset::Flac => req matches ConvertRequest::AudioTranscode {
                audio_input,
                output_path,
                codec,
                ..
            } && Some(audio_input@) == (if audio is Some {
                audio
            } else {
                video
            }) && output_path@ == output && codec == AudioCodec::Flac,
        },
{
}

} // verus!
