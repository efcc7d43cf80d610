//! Output formats, qualities and the download preset that combines them.
use vstd::prelude::*;

use crate::error::CoreError;
use crate::text::{concat3, decimal};

verus! {

/// Supported media output formats.
#[derive(Debug, Clone, Copy, PartialEq, Eq, Hash, Structural)]
pub enum OutputFormat {
    Mp4,
    Mov,
    Mp3,
    Flac,
}

pub open spec fn format_is_video(f: OutputFormat) -> bool {
    f == OutputFormat::Mp4 || f == OutputFormat::Mov
}

pub open spec fn format_is_audio(f: OutputFormat) -> bool {
    f == OutputFormat::Mp3 || f == OutputFormat::Flac
}

pub open spec fn format_extension(f: OutputFormat) -> Seq<char> {
    match f {
        OutputFormat::Mp4 => "mp4"@,
        OutputFormat::Mov => "mov"@,
        OutputFormat::Mp3 => "mp3"@,
        OutputFormat::Flac => "flac"@,
    }
}

/// The `Debug` name of a format.
pub open spec fn format_debug_name(f: OutputFormat) -> Seq<char> {
    match f {
        OutputFormat::Mp4 => "Mp4"@,
        OutputFormat::Mov => "Mov"@,
        OutputFormat::Mp3 => "Mp3"@,
        OutputFormat::Flac => "Flac"@,
    }
}

impl OutputFormat {
    /// Returns true if this format is a video container.
    pub fn is_video(self) -> (r: bool)
        ensures
            r == format_is_video(self),
    {
        match self {
            OutputFormat::Mp4 | OutputFormat::Mov => true,
            _ => false,
        }
    }

    /// Returns true if this format is an audio format.
    pub fn is_audio(self) -> (r: bool)
        ensures
            r == format_is_audio(self),
    {
        match self {
            OutputFormat::Mp3 | OutputFormat::Flac => true,
            _ => false,
        }
    }

    /// Standard file extension for this format.
    pub fn extension(self) -> (r: &'static str)
        ensures
            r@ == format_extension(self),
    {
        match self {
            OutputFormat::Mp4 => "mp4",
            OutputFormat::Mov => "mov",
            OutputFormat::Mp3 => "mp3",
            OutputFormat::Flac => "flac",
        }
    }

    /// The `Debug` name of this format.
    pub fn debug_name(self) -> (r: &'static str)
        ensures
            r@ == format_debug_name(self),
    {
        match self {
            OutputFormat::Mp4 => "Mp4",
            OutputFormat::Mov => "Mov",
            OutputFormat::Mp3 => "Mp3",
            OutputFormat::Flac => "Flac",
        }
    }
}

/// Every format is exactly one of video or audio.
pub proof fn law_format_video_xor_audio(f: OutputFormat)
    ensures
        format_is_video(f) != format_is_audio(f),
{
}

/// Target video quality / resolution for video downloads.
#[derive(Debug, Clone, Copy, PartialEq, Eq, PartialOrd, Ord, Hash, Structural)]
pub enum VideoQuality {
    P144,
    P240,
    P360,
    P480,
    P720,
    P1080,
    P1440,
    P2160,
    Best,
}

pub open spec fn quality_height(q: VideoQuality) -> Option<u32> {
    match q {
        VideoQuality::P144 => Some(144),
        VideoQuality::P240 => Some(240),
        VideoQuality::P360 => Some(360),
        VideoQuality::P480 => Some(480),
        VideoQuality::P720 => Some(720),
        VideoQuality::P1080 => Some(1080),
        VideoQuality::P1440 => Some(1440),
        VideoQuality::P2160 => Some(2160),
        VideoQuality::Best => None,
    }
}

pub open spec fn quality_of_height(h: u32) -> Option<VideoQuality> {
    if h == 144 {
        Some(VideoQuality::P144)
    } else if h == 240 {
        Some(VideoQuality::P240)
    } else if h == 360 {
        Some(VideoQuality::P360)
    } else if h == 480 {
        Some(VideoQuality::P480)
    } else if h == 720 {
        Some(VideoQuality::P720)
    } else if h == 1080 {
        Some(VideoQuality::P1080)
    } else if h == 1440 {
        Some(VideoQuality::P1440)
    } else if h == 2160 {
        Some(VideoQuality::P2160)
    } else {
        None
    }
}

pub open spec fn quality_label(q: VideoQuality) -> Seq<char> {
    match q {
        VideoQuality::P144 => "144p"@,
        VideoQuality::P240 => "240p"@,
        VideoQuality::P360 => "360p"@,
        VideoQuality::P480 => "480p · SD"@,
        VideoQuality::P720 => "720p · HD"@,
        VideoQuality::P1080 => "1080p · Full HD"@,
        VideoQuality::P1440 => "1440p · 2K"@,
        VideoQuality::P2160 => "2160p · 4K"@,
        VideoQuality::Best => "best"@,
    }
}

/// Rank of a quality in declaration order (the derived `Ord`).
pub open spec fn quality_rank(q: VideoQuality) -> int {
    match q {
        VideoQuality::P144 => 0,
        VideoQuality::P240 => 1,
        VideoQuality::P360 => 2,
        VideoQuality::P480 => 3,
        VideoQuality::P720 => 4,
        VideoQuality::P1080 => 5,
        VideoQuality::P1440 => 6,
        VideoQuality::P2160 => 7,
        VideoQuality::Best => 8,
    }
}

impl VideoQuality {
    /// Maps a vertical height in pixels to the corresponding quality.
    pub fn from_height(height: u32) -> (r: Option<VideoQuality>)
        ensures
            r == quality_of_height(height),
    {
        match height {
            144 => Some(VideoQuality::P144),
            240 => Some(VideoQuality::P240),
            360 => Some(VideoQuality::P360),
            480 => Some(VideoQuality::P480),
            720 => Some(VideoQuality::P720),
            1080 => Some(VideoQuality::P1080),
            1440 => Some(VideoQuality::P1440),
            2160 => Some(VideoQuality::P2160),
            _ => None,
        }
    }

    /// Target vertical height in pixels, or None for best available.
    pub fn target_height(self) -> (r: Option<u32>)
        ensures
            r == quality_height(self),
    {
        match self {
            VideoQuality::P144 => Some(144),
            VideoQuality::P240 => Some(240),
            VideoQuality::P360 => Some(360),
            VideoQuality::P480 => Some(480),
            VideoQuality::P720 => Some(720),
            VideoQuality::P1080 => Some(1080),
            VideoQuality::P1440 => Some(1440),
            VideoQuality::P2160 => Some(2160),
            VideoQuality::Best => None,
        }
    }

    /// Human-readable label.
    pub fn label(self) -> (r: &'static str)
        ensures
            r@ == quality_label(self),
    {
        match self {
            VideoQuality::P144 => "144p",
            VideoQuality::P240 => "240p",
            VideoQuality::P360 => "360p",
            VideoQuality::P480 => "480p · SD",
            VideoQuality::P720 => "720p · HD",
            VideoQuality::P1080 => "1080p · Full HD",
            VideoQuality::P1440 => "1440p · 2K",
            VideoQuality::P2160 => "2160p · 4K",
            VideoQuality::Best => "best",
        }
    }
}

/// A concrete quality maps to its height and back; `Best` has no height.
pub proof fn law_height_round_trip(q: VideoQuality)
    ensures
        match quality_height(q) {
            Some(h) => quality_of_height(h) == Some(q),
            None => q == VideoQuality::Best,
        },
{
}

/// A height that names a quality is that quality's height.
pub proof fn law_height_inverse(h: u32)
    ensures
        match quality_of_height(h) {
            Some(q) => quality_height(q) == Some(h),
            None => true,
        },
{
}

/// Target bitrate for MP3 audio encoding.
#[derive(Debug, Clone, Copy, PartialEq, Eq, PartialOrd, Ord, Hash, Structural)]
pub enum Mp3Quality {
    K128,
    K192,
    K256,
    K320,
}

pub open spec fn mp3_bitrate(q: Mp3Quality) -> u32 {
    match q {
        Mp3Quality::K128 => 128,
        Mp3Quality::K192 => 192,
        Mp3Quality::K256 => 256,
        Mp3Quality::K320 => 320,
    }
}

pub open spec fn mp3_label(q: Mp3Quality) -> Seq<char> {
    match q {
        Mp3Quality::K128 => "128 kb/s"@,
        Mp3Quality::K192 => "192 kb/s"@,
        Mp3Quality::K256 => "256 kb/s"@,
        Mp3Quality::K320 => "320 kb/s"@,
    }
}

impl Mp3Quality {
    /// Bitrate in kilobits per second.
    pub fn bitrate_kbps(self) -> (r: u32)
        ensures
            r == mp3_bitrate(self),
    {
        match self {
            Mp3Quality::K128 => 128,
            Mp3Quality::K192 => 192,
            Mp3Quality::K256 => 256,
            Mp3Quality::K320 => 320,
        }
    }

    /// Human-readable label.
    pub fn label(self) -> (r: &'static str)
        ensures
            r@ == mp3_label(self),
    {
        match self {
            Mp3Quality::K128 => "128 kb/s",
            Mp3Quality::K192 => "192 kb/s",
            Mp3Quality::K256 => "256 kb/s",
            Mp3Quality::K320 => "320 kb/s",
        }
    }
}

/// UI Theme mode.
#[derive(Debug, Clone, Copy, PartialEq, Eq, Hash, Structural)]
pub enum ThemeMode {
    Light,
    Dark,
    System,
}

impl Default for ThemeMode {
    fn default() -> (r: Self)
        ensures
            r == ThemeMode::System,
    {
        ThemeMode::System
    }
}

/// Supported application languages.
#[derive(Debug, Clone, Copy, PartialEq, Eq, Hash, Structural)]
pub enum Language {
    French,
    English,
}

impl Default for Language {
    fn default() -> (r: Self)
        ensures
            r == Language::French,
    {
        Language::French
    }
}

pub open spec fn language_code(l: Language) -> Seq<char> {
    match l {
        Language::French => "fr"@,
        Language::English => "en"@,
    }
}

impl Language {
    /// Returns the ISO 639-1 language code.
    pub fn code(self) -> (r: &'static str)
        ensures
            r@ == language_code(self),
    {
        match self {
            Language::French => "fr",
            Language::English => "en",
        }
    }
}

/// Canonical download preset enforcing valid combinations of format and quality.
///
/// MP4/MOV carry a `VideoQuality`, MP3 an `Mp3Quality`, FLAC nothing.
#[derive(Debug, Clone, Copy, PartialEq, Eq, Hash, Structural)]
pub enum DownloadPreset {
    Video { format: OutputFormat, quality: VideoQuality },
    Mp3 { quality: Mp3Quality },
    Flac,
}

impl DownloadPreset {
    /// Every preset value pairs a video format with video quality: its invariant.
    pub open spec fn wf(self) -> bool {
        match self {
            DownloadPreset::Video { format, .. } => format_is_video(format),
            _ => true,
        }
    }

    pub open spec fn spec_format(self) -> OutputFormat {
        match self {
            DownloadPreset::Video { format, .. } => format,
            DownloadPreset::Mp3 { .. } => OutputFormat::Mp3,
            DownloadPreset::Flac => OutputFormat::Flac,
        }
    }

    pub open spec fn spec_video_quality(self) -> Option<VideoQuality> {
        match self {
            DownloadPreset::Video { quality, .. } => Some(quality),
            _ => None,
        }
    }

    pub open spec fn spec_mp3_quality(self) -> Option<Mp3Quality> {
        match self {
            DownloadPreset::Mp3 { quality } => Some(quality),
            _ => None,
        }
    }

    /// Creates a video preset (MP4 or MOV).
    pub fn video(format: OutputFormat, quality: VideoQuality) -> (r: Result<Self, CoreError>)
        ensures
            format_is_video(format) <==> r is Ok,
            r matches Ok(p) ==> p == (DownloadPreset::Video { format, quality }),
            r matches Err(e) ==> e matches CoreError::InvalidSettings(m) && m@ == video_preset_error(
                format,
            ),
    {
        if !format.is_video() {
            let m = concat3(
                "Format '",
                format.debug_name(),
                "' is not a valid video format for video preset",
            );
            return Err(CoreError::InvalidSettings(m));
        }
        Ok(DownloadPreset::Video { format, quality })
    }

    /// Creates an MP3 preset.
    pub fn mp3(quality: Mp3Quality) -> (r: Self)
        ensures
            r == (DownloadPreset::Mp3 { quality }),
    {
        DownloadPreset::Mp3 { quality }
    }

    /// Creates a FLAC preset.
    pub fn flac() -> (r: Self)
        ensures
            r == DownloadPreset::Flac,
    {
        DownloadPreset::Flac
    }

    /// Returns the target output format.
    pub fn format(&self) -> (r: OutputFormat)
        ensures
            r == self.spec_format(),
    {
        match self {
            DownloadPreset::Video { format, .. } => *format,
            DownloadPreset::Mp3 { .. } => OutputFormat::Mp3,
            DownloadPreset::Flac => OutputFormat::Flac,
        }
    }

    /// Returns the video quality if applicable.
    pub fn video_quality(&self) -> (r: Option<VideoQuality>)
        ensures
            r == self.spec_video_quality(),
    {
        match self {
            DownloadPreset::Video { quality, .. } => Some(*quality),
            _ => None,
        }
    }

    /// Returns the MP3 quality if applicable.
    pub fn mp3_quality(&self) -> (r: Option<Mp3Quality>)
        ensures
            r == self.spec_mp3_quality(),
    {
        match self {
            DownloadPreset::Mp3 { quality } => Some(*quality),
            _ => None,
        }
    }

    /// Validates an untrusted preset description.
    ///
    /// MP4/MOV refuse an MP3 quality and default a missing video quality to
    /// `Best`; MP3 refuses a video quality and requires an MP3 quality; FLAC
    /// refuses both qualities.
    pub fn try_from(dto: DownloadPresetDto) -> (r: Result<Self, CoreError>)
        ensures
            settings_result_matches(r, preset_from_dto(dto)),
    {
        match dto.format {
            OutputFormat::Mp4 | OutputFormat::Mov => {
                if dto.mp3_quality.is_some() {
                    return Err(
                        CoreError::InvalidSettings(
                            String::from_str(
                                "Video formats (MP4/MOV) cannot have an MP3 quality specified",
                            ),
                        ),
                    );
                }
                let quality = match dto.video_quality {
                    Some(q) => q,
                    None => VideoQuality::Best,
                };
                DownloadPreset::video(dto.format, quality)
            },
            OutputFormat::Mp3 => {
                if dto.video_quality.is_some() {
                    return Err(
                        CoreError::InvalidSettings(
                            String::from_str(
                                "MP3 audio format cannot have a video quality specified",
                            ),
                        ),
                    );
                }
                match dto.mp3_quality {
                    Some(q) => Ok(DownloadPreset::mp3(q)),
                    None => Err(
                        CoreError::InvalidSettings(
                            String::from_str("MP3 format requires an MP3 quality (bitrate)"),
                        ),
                    ),
                }
            },
            OutputFormat::Flac => {
                if dto.video_quality.is_some() || dto.mp3_quality.is_some() {
                    return Err(
                        CoreError::InvalidSettings(
                            String::from_str(
                                "FLAC format does not accept video or MP3 quality parameters",
                            ),
                        ),
                    );
                }
                Ok(DownloadPreset::flac())
            },
        }
    }

    /// The default preset: MP4 at 1080p.
    pub fn default_preset() -> (r: Self)
        ensures
            r == (DownloadPreset::Video {
                format: OutputFormat::Mp4,
                quality: VideoQuality::P1080,
            }),
    {
        DownloadPreset::Video { format: OutputFormat::Mp4, quality: VideoQuality::P1080 }
    }
}

impl Default for DownloadPreset {
    fn default() -> (r: Self)
        ensures
            r == (DownloadPreset::Video {
                format: OutputFormat::Mp4,
                quality: VideoQuality::P1080,
            }),
    {
        DownloadPreset::default_preset()
    }
}

pub open spec fn video_preset_error(format: OutputFormat) -> Seq<char> {
    "Format '"@ + format_debug_name(format) + "' is not a valid video format for video preset"@
}

/// A result carries the expected preset, or a settings error with the expected text.
pub open spec fn settings_result_matches<T>(r: Result<T, CoreError>, s: Result<T, Seq<char>>) -> bool {
    match (r, s) {
        (Ok(a), Ok(b)) => a == b,
        (Err(CoreError::InvalidSettings(m)), Err(t)) => m@ == t,
        _ => false,
    }
}

/// What validating a preset description gives: the preset, or the text of the
/// settings error.
pub open spec fn preset_from_dto(dto: DownloadPresetDto) -> Result<DownloadPreset, Seq<char>> {
    match dto.format {
        OutputFormat::Mp4 | OutputFormat::Mov => {
            if dto.mp3_quality.is_some() {
                Err("Video formats (MP4/MOV) cannot have an MP3 quality specified"@)
            } else {
                Ok(
                    DownloadPreset::Video {
                        format: dto.format,
                        quality: match dto.video_quality {
                            Some(q) => q,
                            None => VideoQuality::Best,
                        },
                    },
                )
            }
        },
        OutputFormat::Mp3 => {
            if dto.video_quality.is_some() {
                Err("MP3 audio format cannot have a video quality specified"@)
            } else {
                match dto.mp3_quality {
                    Some(q) => Ok(DownloadPreset::Mp3 { quality: q }),
                    None => Err("MP3 format requires an MP3 quality (bitrate)"@),
                }
            }
        },
        OutputFormat::Flac => {
            if dto.video_quality.is_some() || dto.mp3_quality.is_some() {
                Err("FLAC format does not accept video or MP3 quality parameters"@)
            } else {
                Ok(DownloadPreset::Flac)
            }
        },
    }
}

/// DTO for untrusted preset deserialization.
#[derive(Debug, Clone, Copy, PartialEq, Eq, Structural)]
pub struct DownloadPresetDto {
    pub format: OutputFormat,
    pub video_quality: Option<VideoQuality>,
    pub mp3_quality: Option<Mp3Quality>,
}

pub open spec fn preset_to_dto(p: DownloadPreset) -> DownloadPresetDto {
    match p {
        DownloadPreset::Video { format, quality } => DownloadPresetDto {
            format,
            video_quality: Some(quality),
            mp3_quality: None,
        },
        DownloadPreset::Mp3 { quality } => DownloadPresetDto {
            format: OutputFormat::Mp3,
            video_quality: None,
            mp3_quality: Some(quality),
        },
        DownloadPreset::Flac => DownloadPresetDto {
            format: OutputFormat::Flac,
            video_quality: None,
            mp3_quality: None,
        },
    }
}

impl DownloadPresetDto {
    /// The description of a preset.
    pub fn from(preset: &DownloadPreset) -> (r: Self)
        ensures
            r == preset_to_dto(*preset),
    {
        match preset {
            DownloadPreset::Video { format, quality } => DownloadPresetDto {
                format: *format,
                video_quality: Some(*quality),
                mp3_quality: None,
            },
            DownloadPreset::Mp3 { quality } => DownloadPresetDto {
                format: OutputFormat::Mp3,
                video_quality: None,
                mp3_quality: Some(*quality),
            },
            DownloadPreset::Flac => DownloadPresetDto {
                format: OutputFormat::Flac,
                video_quality: None,
                mp3_quality: None,
            },
        }
    }
}

/// A valid preset survives the trip through its description unchanged.
pub proof fn law_preset_dto_round_trip(p: DownloadPreset)
    requires
        p.wf(),
    ensures
        preset_from_dto(preset_to_dto(p)) == Ok::<DownloadPreset, Seq<char>>(p),
{
}

/// Whatever validation accepts is a valid preset of the requested format.
pub proof fn law_validated_preset_is_wf(dto: DownloadPresetDto)
    ensures
        preset_from_dto(dto) matches Ok(p) ==> p.wf() && p.spec_format() == dto.format,
{
}

/// The MP3 bitrate of a quality is the number its label shows: `128 kb/s`
/// encodes at 128 kb/s, and so on for each quality.
pub proof fn law_mp3_bitrate_matches_label(q: Mp3Quality)
    ensures
        decimal(mp3_bitrate(q) as nat) + " kb/s"@ == mp3_label(q),
        mp3_label(q).len() == 8,
        decimal(mp3_bitrate(q) as nat) == mp3_label(q).subrange(0, 3),
{
    reveal_strlit(" kb/s");
    reveal_strlit("128 kb/s");
    reveal_strlit("192 kb/s");
    reveal_strlit("256 kb/s");
    reveal_strlit("320 kb/s");
    reveal_with_fuel(decimal, 4);
    let d = decimal(mp3_bitrate(q) as nat);
    assert(d + " kb/s"@ =~= mp3_label(q));
    assert(d =~= mp3_label(q).subrange(0, 3));
}

/// The target height of a quality is the number its label starts with:
/// `1080p · Full HD` asks for 1080 lines, and so on; `best` asks for none.
pub proof fn law_height_matches_label(q: VideoQuality)
    ensures
        match quality_height(q) {
            Some(h) => {
                let d = decimal(h as nat) + "p"@;
                d.len() <= quality_label(q).len() && quality_label(q).subrange(0, d.len() as int) == d
            },
            None => quality_label(q) == "best"@,
        },
{
    reveal_strlit("p");
    reveal_strlit("144p");
    reveal_strlit("240p");
    reveal_strlit("360p");
    reveal_strlit("480p · SD");
    reveal_strlit("720p · HD");
    reveal_strlit("1080p · Full HD");
    reveal_strlit("1440p · 2K");
    reveal_strlit("2160p · 4K");
    reveal_with_fuel(decimal, 5);
    if let Some(h) = quality_height(q) {
        let d = decimal(h as nat) + "p"@;
        assert(quality_label(q).subrange(0, d.len() as int) =~= d);
    }
}

} // verus!
