//! Application settings and their validation.
use vstd::prelude::*;

use crate::error::CoreError;
use crate::format::{
    preset_from_dto, preset_to_dto, settings_result_matches, DownloadPreset, DownloadPresetDto,
    Language, ThemeMode,
};
use crate::text::{
    concat3, contains_char, decimal, starts_with, to_chars, trim, trim_str, u64_to_decimal,
    vec_contains_char,
};

verus! {

/// A path separator: `/`, and on Windows also `\`.
pub open spec fn is_sep(c: char, windows: bool) -> bool {
    c == '/' || (windows && c == '\\')
}

pub open spec fn is_ascii_alpha(c: char) -> bool {
    ('a' <= c && c <= 'z') || ('A' <= c && c <= 'Z')
}

/// A Windows drive prefix: a letter and a colon, as in `C:`.
pub open spec fn has_drive(s: Seq<char>, windows: bool) -> bool {
    windows && s.len() >= 2 && is_ascii_alpha(s[0]) && s[1] == ':'
}

/// A Windows network or device path: two backslashes and a name, as in
/// `\\server\share` or `\\?\C:`.
pub open spec fn is_unc(s: Seq<char>, windows: bool) -> bool {
    windows && s.len() >= 3 && s[0] == '\\' && s[1] == '\\' && !is_sep(s[2], windows)
}

/// Length of the prefix of a path: a drive (`C:`) or the two leading
/// backslashes of a network path on Windows; none on Unix.
pub open spec fn prefix_len(s: Seq<char>, windows: bool) -> int {
    if has_drive(s, windows) || is_unc(s, windows) {
        2
    } else {
        0
    }
}

/// The path after its prefix.
pub open spec fn after_prefix(s: Seq<char>, windows: bool) -> Seq<char> {
    s.subrange(prefix_len(s, windows), s.len() as int)
}

/// A path whose part after the prefix starts at the root: with a separator.
pub open spec fn has_root(s: Seq<char>, windows: bool) -> bool {
    after_prefix(s, windows).len() > 0 && is_sep(after_prefix(s, windows)[0], windows)
}

/// `Path::is_absolute`: on Unix, a path that starts at the root `/`; on
/// Windows, a drive with a root (`C:\`, `C:/`) or a network or device path
/// (`\\server\share`).
pub open spec fn is_absolute_path(s: Seq<char>, windows: bool) -> bool {
    if windows {
        (has_drive(s, windows) && has_root(s, windows)) || is_unc(s, windows)
    } else {
        has_root(s, windows)
    }
}

pub fn char_is_sep(c: char, windows: bool) -> (b: bool)
    ensures
        b == is_sep(c, windows),
{
    c == '/' || (windows && c == '\\')
}

pub fn path_prefix_len(s: &[char], windows: bool) -> (n: usize)
    ensures
        n == prefix_len(s@, windows),
{
    let drive = windows && s.len() >= 2 && (('a' <= s[0] && s[0] <= 'z') || ('A' <= s[0] && s[0]
        <= 'Z')) && s[1] == ':';
    let unc = windows && s.len() >= 3 && s[0] == '\\' && s[1] == '\\' && !char_is_sep(s[2], windows);
    if drive || unc {
        2
    } else {
        0
    }
}

pub fn path_is_absolute(s: &[char], windows: bool) -> (b: bool)
    ensures
        b == is_absolute_path(s@, windows),
{
    let n = path_prefix_len(s, windows);
    let rooted = n < s.len() && char_is_sep(s[n], windows);
    proof {
        let a = after_prefix(s@, windows);
        if n < s@.len() {
            assert(a[0] == s@[n as int]);
        }
    }
    if windows {
        (n == 2 && s[0] != '\\' && rooted) || (n == 2 && s[0] == '\\')
    } else {
        rooted
    }
}

/// What validating a download directory gives: the trimmed directory, or the
/// text of the settings error.
pub open spec fn validate_directory(raw: Seq<char>, windows: bool) -> Result<Seq<char>, Seq<char>> {
    let t = trim(raw);
    if t.len() == 0 {
        Err("Download directory cannot be empty"@)
    } else if starts_with(t, seq!['~']) {
        Err("Download directory cannot start with '~'"@)
    } else if contains_char(t, '\0') {
        Err("Download directory cannot contain null bytes"@)
    } else if !is_absolute_path(t, windows) {
        Err("Download directory must be an absolute path: '"@ + t + "'"@)
    } else {
        Ok(t)
    }
}

/// What validating settings gives: the view of the settings, or the text of
/// the settings error.
pub open spec fn validate_settings(
    download_directory: Seq<char>,
    theme_mode: ThemeMode,
    parallel_downloads: bool,
    default_preset: DownloadPreset,
    max_concurrent: u8,
    language: Language,
    windows: bool,
) -> Result<AppSettingsView, Seq<char>> {
    match validate_directory(download_directory, windows) {
        Err(m) => Err(m),
        Ok(t) => if 1 <= max_concurrent && max_concurrent <= 8 {
            Ok(
                AppSettingsView {
                    download_directory: t,
                    theme_mode,
                    parallel_downloads,
                    default_preset,
                    max_concurrent,
                    language,
                },
            )
        } else {
            Err(
                "Max concurrent downloads must be between 1 and 8, got "@ + decimal(
                    max_concurrent as nat,
                ),
            )
        },
    }
}

/// The abstract content of application settings.
pub struct AppSettingsView {
    pub download_directory: Seq<char>,
    pub theme_mode: ThemeMode,
    pub parallel_downloads: bool,
    pub default_preset: DownloadPreset,
    pub max_concurrent: u8,
    pub language: Language,
}

/// Canonical application settings: a valid absolute download directory and
/// a concurrency limit in `1..=8`.
#[derive(Debug)]
pub struct AppSettings {
    download_directory: String,
    theme_mode: ThemeMode,
    parallel_downloads: bool,
    default_preset: DownloadPreset,
    max_concurrent: u8,
    language: Language,
}

impl View for AppSettings {
    type V = AppSettingsView;

    closed spec fn view(&self) -> AppSettingsView {
        AppSettingsView {
            download_directory: self.download_directory@,
            theme_mode: self.theme_mode,
            parallel_downloads: self.parallel_downloads,
            default_preset: self.default_preset,
            max_concurrent: self.max_concurrent,
            language: self.language,
        }
    }
}

/// A result carries the expected settings, or a settings error with the expected text.
pub open spec fn settings_outcome(r: Result<AppSettings, CoreError>, s: Result<
    AppSettingsView,
    Seq<char>,
>) -> bool {
    match (r, s) {
        (Ok(a), Ok(b)) => a@ == b,
        (Err(CoreError::InvalidSettings(m)), Err(t)) => m@ == t,
        _ => false,
    }
}

impl AppSettings {
    #[verifier::type_invariant]
    spec fn inv(self) -> bool {
        settings_view_valid(self@)
    }

    /// What every settings value satisfies: a directory that validation keeps
    /// as it is on Unix or on Windows, and a concurrency limit in `1..=8`.
    pub fn check_invariant(&self)
        ensures
            settings_view_valid(self@),
    {
        proof {
            use_type_invariant(self);
        }
    }

    /// Creates and validates application settings; `windows` chooses the
    /// Windows rule for an absolute directory, else the Unix one.
    pub fn new(
        download_directory: String,
        theme_mode: ThemeMode,
        parallel_downloads: bool,
        default_preset: DownloadPreset,
        max_concurrent: u8,
        language: Language,
        windows: bool,
    ) -> (r: Result<Self, CoreError>)
        ensures
            settings_outcome(
                r,
                validate_settings(
                    download_directory@,
                    theme_mode,
                    parallel_downloads,
                    default_preset,
                    max_concurrent,
                    language,
                    windows,
                ),
            ),
    {
        let trimmed = trim_str(download_directory.as_str());
        let chars = to_chars(trimmed.as_str());
        if chars.len() == 0 {
            return Err(
                CoreError::InvalidSettings(String::from_str("Download directory cannot be empty")),
            );
        }
        if chars[0] == '~' {
            assert(starts_with(chars@, seq!['~'])) by {
                assert(chars@.subrange(0, 1) =~= seq!['~']);
            }
            return Err(
                CoreError::InvalidSettings(
                    String::from_str("Download directory cannot start with '~'"),
                ),
            );
        }
        assert(!starts_with(chars@, seq!['~'])) by {
            if starts_with(chars@, seq!['~']) {
                assert(chars@.subrange(0, 1)[0] == '~');
            }
        }
        if vec_contains_char(&chars, '\0') {
            return Err(
                CoreError::InvalidSettings(
                    String::from_str("Download directory cannot contain null bytes"),
                ),
            );
        }
        if !path_is_absolute(&chars, windows) {
            let m = concat3(
                "Download directory must be an absolute path: '",
                trimmed.as_str(),
                "'",
            );
            return Err(CoreError::InvalidSettings(m));
        }
        if !(1 <= max_concurrent && max_concurrent <= 8) {
            let n = u64_to_decimal(max_concurrent as u64);
            let mut m = String::from_str("Max concurrent downloads must be between 1 and 8, got ");
            m.append(n.as_str());
            return Err(CoreError::InvalidSettings(m));
        }
        proof {
            crate::text::lemma_trim_idempotent(download_directory@);
        }
        Ok(
            AppSettings {
                download_directory: trimmed,
                theme_mode,
                parallel_downloads,
                default_preset,
                max_concurrent,
                language,
            },
        )
    }

    /// Default settings for a download directory: system theme, parallel
    /// downloads on, MP4 1080p, three concurrent downloads, French.
    pub fn defaults_for(download_directory: &str, windows: bool) -> (r: Result<Self, CoreError>)
        ensures
            settings_outcome(
                r,
                validate_settings(
                    download_directory@,
                    ThemeMode::System,
                    true,
                    DownloadPreset::Video {
                        format: crate::format::OutputFormat::Mp4,
                        quality: crate::format::VideoQuality::P1080,
                    },
                    3,
                    Language::French,
                    windows,
                ),
            ),
    {
        AppSettings::new(
            String::from_str(download_directory),
            ThemeMode::System,
            true,
            DownloadPreset::default_preset(),
            3,
            Language::French,
            windows,
        )
    }

    /// Effective maximum concurrent downloads: 1 when parallel downloads are
    /// disabled, otherwise `max_concurrent`.
    pub fn effective_max_concurrent(&self) -> (r: usize)
        ensures
            r == (if self@.parallel_downloads {
                self@.max_concurrent as usize
            } else {
                1
            }),
            1 <= r <= 8,
    {
        proof {
            use_type_invariant(self);
        }
        if self.parallel_downloads {
            self.max_concurrent as usize
        } else {
            1
        }
    }

    /// Parallel segments per stream: 8 when parallel downloads are enabled, else 1.
    pub fn effective_parallel_segments(&self) -> (r: usize)
        ensures
            r == (if self@.parallel_downloads {
                8usize
            } else {
                1usize
            }),
    {
        if self.parallel_downloads {
            8
        } else {
            1
        }
    }

    pub fn download_directory(&self) -> (r: &str)
        ensures
            r@ == self@.download_directory,
    {
        self.download_directory.as_str()
    }

    pub fn theme_mode(&self) -> (r: ThemeMode)
        ensures
            r == self@.theme_mode,
    {
        self.theme_mode
    }

    pub fn parallel_downloads(&self) -> (r: bool)
        ensures
            r == self@.parallel_downloads,
    {
        self.parallel_downloads
    }

    pub fn default_preset(&self) -> (r: DownloadPreset)
        ensures
            r == self@.default_preset,
    {
        self.default_preset
    }

    pub fn max_concurrent(&self) -> (r: u8)
        ensures
            r == self@.max_concurrent,
    {
        self.max_concurrent
    }

    pub fn language(&self) -> (r: Language)
        ensures
            r == self@.language,
    {
        self.language
    }

    /// Validates untrusted settings: the preset first, then the rest.
    pub fn try_from(dto: AppSettingsDto, windows: bool) -> (r: Result<Self, CoreError>)
        ensures
            settings_outcome(r, settings_from_dto(dto@, windows)),
    {
        let preset = match DownloadPreset::try_from(dto.default_preset) {
            Ok(p) => p,
            Err(e) => {
                return Err(e);
            },
        };
        AppSettings::new(
            dto.download_directory,
            dto.theme_mode,
            dto.parallel_downloads,
            preset,
            dto.max_concurrent,
            dto.language,
            windows,
        )
    }

    /// A field-by-field copy.
    pub fn duplicate(&self) -> (r: Self)
        ensures
            r@ == self@,
    {
        proof {
            use_type_invariant(self);
        }
        AppSettings {
            download_directory: self.download_directory.clone(),
            theme_mode: self.theme_mode,
            parallel_downloads: self.parallel_downloads,
            default_preset: self.default_preset,
            max_concurrent: self.max_concurrent,
            language: self.language,
        }
    }
}

/// Raw DTO for untrusted deserialization.
#[derive(Debug, Clone)]
pub struct AppSettingsDto {
    pub download_directory: String,
    pub theme_mode: ThemeMode,
    pub parallel_downloads: bool,
    pub default_preset: DownloadPresetDto,
    pub max_concurrent: u8,
    pub language: Language,
}

pub struct AppSettingsDtoView {
    pub download_directory: Seq<char>,
    pub theme_mode: ThemeMode,
    pub parallel_downloads: bool,
    pub default_preset: DownloadPresetDto,
    pub max_concurrent: u8,
    pub language: Language,
}

impl View for AppSettingsDto {
    type V = AppSettingsDtoView;

    open spec fn view(&self) -> AppSettingsDtoView {
        AppSettingsDtoView {
            download_directory: self.download_directory@,
            theme_mode: self.theme_mode,
            parallel_downloads: self.parallel_downloads,
            default_preset: self.default_preset,
            max_concurrent: self.max_concurrent,
            language: self.language,
        }
    }
}

/// What validating a settings description gives.
pub open spec fn settings_from_dto(d: AppSettingsDtoView, windows: bool) -> Result<
    AppSettingsView,
    Seq<char>,
> {
    match preset_from_dto(d.default_preset) {
        Err(m) => Err(m),
        Ok(p) => validate_settings(
            d.download_directory,
            d.theme_mode,
            d.parallel_downloads,
            p,
            d.max_concurrent,
            d.language,
            windows,
        ),
    }
}

pub open spec fn settings_to_dto(s: AppSettingsView) -> AppSettingsDtoView {
    AppSettingsDtoView {
        download_directory: s.download_directory,
        theme_mode: s.theme_mode,
        parallel_downloads: s.parallel_downloads,
        default_preset: preset_to_dto(s.default_preset),
        max_concurrent: s.max_concurrent,
        language: s.language,
    }
}

impl AppSettingsDto {
    /// The description of settings.
    pub fn from(settings: &AppSettings) -> (r: Self)
        ensures
            r@ == settings_to_dto(settings@),
    {
        AppSettingsDto {
            download_directory: String::from_str(settings.download_directory()),
            theme_mode: settings.theme_mode(),
            parallel_downloads: settings.parallel_downloads(),
            default_preset: DownloadPresetDto::from(&settings.default_preset()),
            max_concurrent: settings.max_concurrent(),
            language: settings.language(),
        }
    }
}

/// A directory that validation keeps as it is on the given platform.
pub open spec fn directory_valid(d: Seq<char>, windows: bool) -> bool {
    validate_directory(d, windows) == Ok::<Seq<char>, Seq<char>>(d)
}

/// What every `AppSettings` value satisfies: a directory that validation
/// keeps as it is (on Unix or on Windows), and a concurrency limit in `1..=8`.
pub open spec fn settings_view_valid(v: AppSettingsView) -> bool {
    (directory_valid(v.download_directory, false) || directory_valid(v.download_directory, true))
        && 1 <= v.max_concurrent <= 8
}

/// Validated settings satisfy the settings invariant.
pub proof fn law_validated_settings_are_valid(
    download_directory: Seq<char>,
    theme_mode: ThemeMode,
    parallel_downloads: bool,
    default_preset: DownloadPreset,
    max_concurrent: u8,
    language: Language,
    windows: bool,
)
    ensures
        validate_settings(
            download_directory,
            theme_mode,
            parallel_downloads,
            default_preset,
            max_concurrent,
            language,
            windows,
        ) matches Ok(v) ==> settings_view_valid(v) && directory_valid(v.download_directory, windows),
{
    let t = trim(download_directory);
    crate::text::lemma_trim_idempotent(download_directory);
}

/// Settings valid on a platform, whose preset is well formed, survive the
/// trip through their description on that platform unchanged.
pub proof fn law_settings_dto_round_trip(v: AppSettingsView, windows: bool)
    requires
        directory_valid(v.download_directory, windows),
        1 <= v.max_concurrent <= 8,
        v.default_preset.wf(),
    ensures
        settings_from_dto(settings_to_dto(v), windows) == Ok::<AppSettingsView, Seq<char>>(v),
{
    crate::format::law_preset_dto_round_trip(v.default_preset);
}


/// The download directory written by earlier versions, replaced by the
/// default directory when settings are read.
pub open spec fn legacy_download_directory() -> Seq<char> {
    "~/Downloads/PolySaver"@
}

/// The stored description after replacing the legacy directory.
pub open spec fn migrated_dto(d: AppSettingsDtoView, default_dir: Seq<char>) -> AppSettingsDtoView {
    if d.download_directory == legacy_download_directory() {
        AppSettingsDtoView { download_directory: default_dir, ..d }
    } else {
        d
    }
}

/// Reads stored settings: the legacy directory is replaced by the default
/// settings' directory, then the description is validated; answers whether
/// the settings were migrated (and so must be saved again).
pub fn settings_from_stored(dto: AppSettingsDto, defaults: &AppSettings, windows: bool) -> (r: Result<
    (AppSettings, bool),
    CoreError,
>)
    ensures
        match settings_from_dto(migrated_dto(dto@, defaults@.download_directory), windows) {
            Ok(v) => r matches Ok((s, m)) && s@ == v && m == (dto@.download_directory
                == legacy_download_directory()),
            Err(t) => r matches Err(CoreError::InvalidSettings(x)) && x@ == t,
        },
{
    let mut dto = dto;
    let chars = to_chars(dto.download_directory.as_str());
    let legacy = to_chars("~/Downloads/PolySaver");
    let migrated = chars.len() == legacy.len() && crate::text::chars_starts_with(&chars, &legacy);
    proof {
        if migrated {
            assert(chars@.subrange(0, legacy@.len() as int) =~= chars@);
        }
        if dto@.download_directory == legacy_download_directory() {
            assert(chars@.subrange(0, legacy@.len() as int) =~= chars@);
        }
    }
    let ghost original = dto@;
    if migrated {
        dto.download_directory = String::from_str(defaults.download_directory());
    }
    assert(dto@ == migrated_dto(original, defaults@.download_directory));
    match AppSettings::try_from(dto, windows) {
        Ok(s) => Ok((s, migrated)),
        Err(e) => Err(e),
    }
}

} // verus!
