//! The yt-dlp adapter's logic: the format selector and command line of a
//! download, which downloaded files hold the video and the audio, how a
//! progress line is read, and what the media metadata gives.
use vstd::prelude::*;

use crate::binres::{binres_error_text, strings_view, BinResError, ResolvedBinary};
use crate::error::{CoreError, DownloadErrorCode, DownloadErrorDetails};
use crate::ffmpeg::{join_strings, join_with, pow10, sat};
use crate::format::{quality_height, DownloadPreset, OutputFormat};
use crate::json::{
    field_of, json_document, parse_json_document, record_view, records_view, text_field,
    unsigned_field, JsonRecord, JsonScalarView, RecordView,
};
use crate::media_url::{opt_view, MediaUrl};
use crate::pipeline::or_else;
use crate::ports::{DownloadedStreams, StreamProgress};
use crate::probe::{formats_view, FormatOption, FormatView, ProbeResult};
use crate::publish::{join_file, join_file_path};
use crate::text::{
    all_digits, ascii_lower, char_is_whitespace, concat3, concat_str, contains_seq, decimal,
    digits_value, ends_with, is_ws, nested_view, parse_u64_chars, parse_u64_spec, slice_chars,
    split_chars, split_on, starts_with, to_chars, u64_to_decimal, ascii_lower_chars,
    chars_contains_seq, chars_ends_with, chars_starts_with, lemma_split_nonempty, from_chars, trim,
    trim_chars,
};

verus! {

/// The yt-dlp format selector of a preset.
pub open spec fn format_selector_spec(p: DownloadPreset) -> Seq<char> {
    match p {
        DownloadPreset::Video { format, quality } => match (format, quality_height(quality)) {
            (OutputFormat::Mp4, Some(h)) => "bestvideo[height="@ + decimal(h as nat)
                + "][ext=mp4]+bestaudio[ext=m4a]/bestvideo[height="@ + decimal(h as nat)
                + "]+bestaudio/best[height="@ + decimal(h as nat) + "]"@,
            (OutputFormat::Mp4, None) => "bestvideo[ext=mp4]+bestaudio[ext=m4a]/bestvideo+bestaudio/best"@,
            (OutputFormat::Mov, Some(h)) => "bestvideo[height="@ + decimal(h as nat)
                + "]+bestaudio/best[height="@ + decimal(h as nat) + "]"@,
            _ => "bestvideo+bestaudio/best"@,
        },
        _ => "bestaudio/best"@,
    }
}

/// Determines the format selector based on the preset.
pub fn format_selector(preset: DownloadPreset) -> (r: String)
    ensures
        r@ == format_selector_spec(preset),
{
    match preset {
        DownloadPreset::Video { format, quality } => {
            let h = quality.target_height();
            match (format, h) {
                (OutputFormat::Mp4, Some(h)) => {
                    let d = u64_to_decimal(h as u64);
                    let mut r = concat3(
                        "bestvideo[height=",
                        d.as_str(),
                        "][ext=mp4]+bestaudio[ext=m4a]/bestvideo[height=",
                    );
                    r.append(d.as_str());
                    r.append("]+bestaudio/best[height=");
                    r.append(d.as_str());
                    r.append("]");
                    r
                },
                (OutputFormat::Mp4, None) => String::from_str(
                    "bestvideo[ext=mp4]+bestaudio[ext=m4a]/bestvideo+bestaudio/best",
                ),
                (OutputFormat::Mov, Some(h)) => {
                    let d = u64_to_decimal(h as u64);
                    let mut r = concat3("bestvideo[height=", d.as_str(), "]+bestaudio/best[height=");
                    r.append(d.as_str());
                    r.append("]");
                    r
                },
                _ => String::from_str("bestvideo+bestaudio/best"),
            }
        },
        _ => String::from_str("bestaudio/best"),
    }
}

pub open spec fn meta_print_template() -> Seq<char> {
    "before_dl:[POLYSAVER_META] title:%(title)s\tduration:%(duration)s\tformats:%(format_id)s\tfilesize:%(filesize,filesize_approx)s"@
}

pub open spec fn progress_template() -> Seq<char> {
    "download:[POLYSAVER_PROGRESS] percent:%(progress._percent_str)s downloaded:%(progress.downloaded_bytes)s total:%(progress.total_bytes,progress.total_bytes_estimate)s speed:%(progress.speed)s stream:%(progress.info_dict.format_id)s file:%(progress.filename)s"@
}

pub open spec fn output_print_template() -> Seq<char> {
    "after_move:[POLYSAVER_OUTPUT] %(filepath)s"@
}

/// The arguments of a download run.
pub open spec fn download_args_spec(
    selector: Seq<char>,
    temp_dir: Seq<char>,
    parallel_segments: usize,
    url: Seq<char>,
) -> Seq<Seq<char>> {
    seq![
        "-f"@,
        selector,
        "--output"@,
        join_file(temp_dir, "stream.%(ext)s"@),
        "--newline"@,
        "--progress"@,
        "--print"@,
        meta_print_template(),
        "--progress-template"@,
        progress_template(),
        "--print"@,
        output_print_template(),
    ] + (if parallel_segments > 1 {
        seq!["-N"@, decimal(parallel_segments as nat)]
    } else {
        seq![]
    }) + seq![url]
}

fn push_str(v: &mut Vec<String>, s: &str)
    ensures
        strings_view(final(v)@) == strings_view(old(v)@).push(s@),
{
    v.push(String::from_str(s));
    assert(strings_view(final(v)@) =~= strings_view(old(v)@).push(s@));
}

/// Builds the arguments of a download run: the format, the output template
/// in the temporary directory, the progress and metadata templates, the
/// number of parallel fragments when more than one, and the URL.
pub fn build_download_args(
    preset: DownloadPreset,
    temp_dir: &str,
    parallel_segments: usize,
    url: &MediaUrl,
) -> (r: Vec<String>)
    ensures
        strings_view(r@) == download_args_spec(
            format_selector_spec(preset),
            temp_dir@,
            parallel_segments,
            url@,
        ),
{
    let mut args: Vec<String> = Vec::new();
    let selector = format_selector(preset);
    let template = join_file_path(temp_dir, "stream.%(ext)s");
    push_str(&mut args, "-f");
    push_str(&mut args, selector.as_str());
    push_str(&mut args, "--output");
    push_str(&mut args, template.as_str());
    push_str(&mut args, "--newline");
    push_str(&mut args, "--progress");
    push_str(&mut args, "--print");
    push_str(
        &mut args,
        "before_dl:[POLYSAVER_META] title:%(title)s\tduration:%(duration)s\tformats:%(format_id)s\tfilesize:%(filesize,filesize_approx)s",
    );
    push_str(&mut args, "--progress-template");
    push_str(
        &mut args,
        "download:[POLYSAVER_PROGRESS] percent:%(progress._percent_str)s downloaded:%(progress.downloaded_bytes)s total:%(progress.total_bytes,progress.total_bytes_estimate)s speed:%(progress.speed)s stream:%(progress.info_dict.format_id)s file:%(progress.filename)s",
    );
    push_str(&mut args, "--print");
    push_str(&mut args, "after_move:[POLYSAVER_OUTPUT] %(filepath)s");
    let ghost fixed = strings_view(args@);
    if parallel_segments > 1 {
        push_str(&mut args, "-N");
        let n = u64_to_decimal(parallel_segments as u64);
        push_str(&mut args, n.as_str());
    }
    let ghost with_n = strings_view(args@);
    push_str(&mut args, url.as_str());
    proof {
        let extra = if parallel_segments > 1 {
            seq!["-N"@, decimal(parallel_segments as nat)]
        } else {
            seq![]
        };
        assert(with_n =~= fixed + extra);
        assert(strings_view(args@) =~= download_args_spec(
            format_selector_spec(preset),
            temp_dir@,
            parallel_segments,
            url@,
        ));
    }
    args
}

/// Index of the last occurrence of a character, or -1.
pub open spec fn rfind(s: Seq<char>, c: char) -> int
    decreases s.len(),
{
    if s.len() == 0 {
        -1
    } else if s.last() == c {
        s.len() - 1
    } else {
        rfind(s.drop_last(), c)
    }
}

proof fn lemma_rfind(s: Seq<char>, c: char)
    ensures
        -1 <= rfind(s, c) < s.len(),
        rfind(s, c) >= 0 ==> s[rfind(s, c)] == c,
        forall|j: int| rfind(s, c) < j < s.len() ==> s[j] != c,
    decreases s.len(),
{
    if s.len() > 0 && s.last() != c {
        let t = s.drop_last();
        lemma_rfind(t, c);
        assert forall|j: int| rfind(s, c) < j < s.len() implies s[j] != c by {
            if j < t.len() {
                assert(s[j] == t[j]);
            }
        }
    }
}

/// The last component of a path.
pub open spec fn file_name_of(path: Seq<char>) -> Seq<char> {
    path.subrange(rfind(path, '/') + 1, path.len() as int)
}

/// `Path::extension` of a path, as text (empty when there is none): what
/// follows the last dot of the file name, when something precedes that dot.
pub open spec fn extension_text(path: Seq<char>) -> Seq<char> {
    let name = file_name_of(path);
    let i = rfind(name, '.');
    if name == ".."@ || i <= 0 {
        seq![]
    } else {
        name.subrange(i + 1, name.len() as int)
    }
}

fn rfind_exec(v: &Vec<char>, c: char) -> (r: Option<usize>)
    ensures
        match r {
            Some(i) => i as int == rfind(v@, c) && i < v@.len(),
            None => rfind(v@, c) == -1,
        },
{
    let mut i: usize = v.len();
    assert(v@.subrange(0, v@.len() as int) =~= v@);
    while i > 0
        invariant
            i <= v@.len(),
            rfind(v@, c) == rfind(v@.subrange(0, i as int), c),
        decreases i,
    {
        assert(v@.subrange(0, i as int).drop_last() =~= v@.subrange(0, i - 1));
        if v[i - 1] == c {
            return Some(i - 1);
        }
        i = i - 1;
    }
    None
}

/// The extension of a file path, as text.
pub fn file_extension(path: &str) -> (r: String)
    ensures
        r@ == extension_text(path@),
{
    proof {
        reveal_strlit("..");
    }
    let chars = to_chars(path);
    assert(chars@.subrange(0, chars@.len() as int) =~= chars@);
    let n: usize = chars.len();
    let start: usize = match rfind_exec(&chars, '/') {
        Some(i) => {
            assert(i < n);
            i + 1
        },
        None => 0,
    };
    proof {
        lemma_rfind(chars@, '/');
    }
    let name = slice_chars(&chars, start, chars.len());
    assert(name@.subrange(0, name@.len() as int) =~= name@);
    let is_dot_dot = name.len() == 2 && name[0] == '.' && name[1] == '.';
    assert(is_dot_dot == (name@ == ".."@)) by {
        if name@ == ".."@ {
            assert(name@[0] == '.' && name@[1] == '.');
        }
        if is_dot_dot {
            assert(name@ =~= ".."@);
        }
    }
    match rfind_exec(&name, '.') {
        Some(i) => {
            proof {
                lemma_rfind(name@, '.');
            }
            if is_dot_dot || i == 0 {
                String::new()
            } else {
                let e = slice_chars(&name, i + 1, name.len());
                from_chars(&e)
            }
        },
        None => String::new(),
    }
}

pub open spec fn is_video_extension(e: Seq<char>) -> bool {
    e == "mp4"@ || e == "mkv"@ || e == "webm"@ || e == "mov"@
}

pub open spec fn is_audio_extension(e: Seq<char>) -> bool {
    e == "m4a"@ || e == "webm"@ || e == "opus"@ || e == "mp3"@ || e == "aac"@
}

fn str_same(a: &str, b: &str) -> (r: bool)
    ensures
        r == (a@ == b@),
{
    let x = to_chars(a);
    let y = to_chars(b);
    if x.len() != y.len() {
        return false;
    }
    let r = chars_starts_with(&x, &y);
    proof {
        assert(x@.subrange(0, y@.len() as int) =~= x@);
    }
    r
}

fn is_video_ext(e: &str) -> (r: bool)
    ensures
        r == is_video_extension(e@),
{
    str_same(e, "mp4") || str_same(e, "mkv") || str_same(e, "webm") || str_same(e, "mov")
}

fn is_audio_ext(e: &str) -> (r: bool)
    ensures
        r == is_audio_extension(e@),
{
    str_same(e, "m4a") || str_same(e, "webm") || str_same(e, "opus") || str_same(e, "mp3")
        || str_same(e, "aac")
}

/// The video and audio files among several downloaded files: the first with
/// a video extension, and the first (other) with an audio extension.
pub open spec fn pick_files(files: Seq<Seq<char>>) -> (Option<Seq<char>>, Option<Seq<char>>)
    decreases files.len(),
{
    if files.len() == 0 {
        (None, None)
    } else {
        let acc = pick_files(files.drop_last());
        let f = files.last();
        let e = extension_text(f);
        if is_video_extension(e) && acc.0 is None {
            (Some(f), acc.1)
        } else if is_audio_extension(e) && acc.1 is None {
            (acc.0, Some(f))
        } else {
            acc
        }
    }
}

/// Which downloaded files are the video and the audio inputs.
pub open spec fn streams_spec(preset: DownloadPreset, files: Seq<Seq<char>>) -> (
    Option<Seq<char>>,
    Option<Seq<char>>,
) {
    match preset {
        DownloadPreset::Video { .. } => if files.len() == 1 {
            (Some(files[0]), None)
        } else {
            (or_else(pick_files(files).0, Some(files[0])), pick_files(files).1)
        },
        _ => (None, Some(files[0])),
    }
}

pub open spec fn no_files_message() -> Seq<char> {
    "No media files produced by yt-dlp in the temporary directory"@
}

/// The streams of a finished download: its files, the video and audio
/// inputs among them, the title (`PolySaver_Media` when yt-dlp printed none)
/// and the duration; no file at all is an error.
pub fn map_downloaded_streams(
    preset: DownloadPreset,
    files: Vec<String>,
    title: Option<String>,
    duration_seconds: Option<u64>,
) -> (r: Result<DownloadedStreams, CoreError>)
    ensures
        files@.len() == 0 ==> (r matches Err(CoreError::ProviderError(m)) && m@
            == no_files_message()),
        files@.len() > 0 ==> (r matches Ok(s) && strings_view(s.raw_artifacts@) == strings_view(
            files@,
        ) && (opt_view(s.video_path), opt_view(s.audio_path)) == streams_spec(
            preset,
            strings_view(files@),
        ) && s.title@ == (match title {
            Some(t) => t@,
            None => "PolySaver_Media"@,
        }) && s.duration_seconds == duration_seconds),
{
    if files.len() == 0 {
        return Err(
            CoreError::ProviderError(
                String::from_str("No media files produced by yt-dlp in the temporary directory"),
            ),
        );
    }
    let title = match title {
        Some(t) => t,
        None => String::from_str("PolySaver_Media"),
    };
    let ghost fv = strings_view(files@);
    assert(fv[0] == files@[0]@);
    let (video_path, audio_path) = match preset {
        DownloadPreset::Video { .. } => {
            if files.len() == 1 {
                (Some(files[0].clone()), None)
            } else {
                let mut v: Option<String> = None;
                let mut a: Option<String> = None;
                let mut i: usize = 0;
                while i < files.len()
                    invariant
                        i <= files@.len(),
                        fv == strings_view(files@),
                        (opt_view(v), opt_view(a)) == pick_files(fv.subrange(0, i as int)),
                    decreases files@.len() - i,
                {
                    assert(fv.subrange(0, i + 1).drop_last() =~= fv.subrange(0, i as int));
                    assert(fv[i as int] == files@[i as int]@);
                    let e = file_extension(files[i].as_str());
                    if is_video_ext(e.as_str()) && v.is_none() {
                        v = Some(files[i].clone());
                    } else if is_audio_ext(e.as_str()) && a.is_none() {
                        a = Some(files[i].clone());
                    }
                    i = i + 1;
                }
                assert(fv.subrange(0, files@.len() as int) =~= fv);
                let v = match v {
                    Some(p) => Some(p),
                    None => Some(files[0].clone()),
                };
                (v, a)
            }
        },
        _ => (None, Some(files[0].clone())),
    };
    Ok(
        DownloadedStreams {
            raw_artifacts: files,
            video_path,
            audio_path,
            title,
            duration_seconds,
        },
    )
}


/// The words of a text and the word being read, after each character.
pub open spec fn words_acc(s: Seq<char>) -> (Seq<Seq<char>>, Seq<char>)
    decreases s.len(),
{
    if s.len() == 0 {
        (seq![], seq![])
    } else {
        let acc = words_acc(s.drop_last());
        let c = s.last();
        if is_ws(c) {
            if acc.1.len() > 0 {
                (acc.0.push(acc.1), seq![])
            } else {
                acc
            }
        } else {
            (acc.0, acc.1.push(c))
        }
    }
}

/// The words of a text, as `str::split_whitespace` gives them.
pub open spec fn words(s: Seq<char>) -> Seq<Seq<char>> {
    let acc = words_acc(s);
    if acc.1.len() > 0 {
        acc.0.push(acc.1)
    } else {
        acc.0
    }
}

fn words_exec(v: &Vec<char>) -> (r: Vec<Vec<char>>)
    ensures
        nested_view(r@) == words(v@),
{
    let mut out: Vec<Vec<char>> = Vec::new();
    let mut cur: Vec<char> = Vec::new();
    let mut i: usize = 0;
    while i < v.len()
        invariant
            i <= v@.len(),
            (nested_view(out@), cur@) == words_acc(v@.subrange(0, i as int)),
        decreases v@.len() - i,
    {
        assert(v@.subrange(0, i + 1).drop_last() =~= v@.subrange(0, i as int));
        let c = v[i];
        if char_is_whitespace(c) {
            if cur.len() > 0 {
                let ghost before = nested_view(out@);
                let w = cur;
                out.push(w);
                assert(nested_view(out@) =~= before.push(w@));
                cur = Vec::new();
            }
        } else {
            cur.push(c);
        }
        i = i + 1;
    }
    assert(v@.subrange(0, v@.len() as int) =~= v@);
    if cur.len() > 0 {
        let ghost before = nested_view(out@);
        let w = cur;
        out.push(w);
        assert(nested_view(out@) =~= before.push(w@));
    }
    out
}

/// A run of decimal digits (no sign) as a number that fits in a `u64`.
pub open spec fn digits_number(d: Seq<char>) -> Option<u64> {
    if d.len() > 0 && '0' <= d[0] && d[0] <= '9' {
        parse_u64_spec(d)
    } else {
        None
    }
}

/// A decimal number with at most nine fractional digits: its integer part,
/// the value of its fractional digits and their count.
pub open spec fn decimal_number(s: Seq<char>) -> Option<(u64, u64, nat)> {
    let parts = split_on(s, '.');
    if parts.len() == 1 {
        match digits_number(parts[0]) {
            Some(i) => Some((i, 0u64, 0nat)),
            None => None,
        }
    } else if parts.len() == 2 && parts[1].len() <= 9 {
        match (digits_number(parts[0]), digits_number(parts[1])) {
            (Some(i), Some(f)) => Some((i, f, parts[1].len())),
            _ => None,
        }
    } else {
        None
    }
}

fn digits_number_exec(d: &Vec<char>) -> (r: Option<u64>)
    ensures
        r == digits_number(d@),
{
    if d.len() > 0 && '0' <= d[0] && d[0] <= '9' {
        parse_u64_chars(d)
    } else {
        None
    }
}

fn decimal_number_exec(s: &Vec<char>) -> (r: Option<(u64, u64, usize)>)
    ensures
        match (r, decimal_number(s@)) {
            (Some((i, f, d)), Some((a, b, c))) => i == a && f == b && d as nat == c && d <= 9,
            (None, None) => true,
            _ => false,
        },
{
    let parts = split_chars(s, '.');
    proof {
        lemma_split_nonempty(s@, '.');
    }
    assert(parts@[0]@ == nested_view(parts@)[0]);
    if parts.len() == 1 {
        return match digits_number_exec(&parts[0]) {
            Some(i) => Some((i, 0, 0)),
            None => None,
        };
    }
    if parts.len() == 2 && parts[1].len() <= 9 {
        assert(parts@[1]@ == nested_view(parts@)[1]);
        return match (digits_number_exec(&parts[0]), digits_number_exec(&parts[1])) {
            (Some(i), Some(f)) => Some((i, f, parts[1].len())),
            _ => None,
        };
    }
    None
}

/// Bytes in one unit of a size suffix.
pub open spec fn unit_factor(u: Seq<char>) -> Option<u64> {
    if u == "B"@ {
        Some(1)
    } else if u == "KiB"@ {
        Some(1024)
    } else if u == "MiB"@ {
        Some(1048576)
    } else if u == "GiB"@ {
        Some(1073741824)
    } else if u == "TiB"@ {
        Some(1099511627776)
    } else if u == "KB"@ || u == "kB"@ {
        Some(1000)
    } else if u == "MB"@ {
        Some(1000000)
    } else if u == "GB"@ {
        Some(1000000000)
    } else if u == "TB"@ {
        Some(1000000000000)
    } else {
        None
    }
}

fn unit_factor_exec(u: &Vec<char>) -> (r: Option<u64>)
    ensures
        r == unit_factor(u@),
{
    let s = from_chars(u);
    let t = s.as_str();
    if str_same(t, "B") {
        Some(1)
    } else if str_same(t, "KiB") {
        Some(1024)
    } else if str_same(t, "MiB") {
        Some(1048576)
    } else if str_same(t, "GiB") {
        Some(1073741824)
    } else if str_same(t, "TiB") {
        Some(1099511627776)
    } else if str_same(t, "KB") || str_same(t, "kB") {
        Some(1000)
    } else if str_same(t, "MB") {
        Some(1000000)
    } else if str_same(t, "GB") {
        Some(1000000000)
    } else if str_same(t, "TB") {
        Some(1000000000000)
    } else {
        None
    }
}

/// Number of leading characters that are digits or dots.
pub open spec fn number_prefix_len(s: Seq<char>) -> nat
    decreases s.len(),
{
    if s.len() > 0 && (('0' <= s[0] && s[0] <= '9') || s[0] == '.') {
        1 + number_prefix_len(s.drop_first())
    } else {
        0
    }
}

proof fn lemma_number_prefix_len(s: Seq<char>, k: int)
    requires
        0 <= k <= s.len(),
        forall|j: int| 0 <= j < k ==> ('0' <= #[trigger] s[j] && s[j] <= '9') || s[j] == '.',
        k == s.len() || !(('0' <= s[k] && s[k] <= '9') || s[k] == '.'),
    ensures
        number_prefix_len(s) == k,
    decreases k,
{
    if k > 0 {
        lemma_number_prefix_len(s.drop_first(), k - 1);
    }
}

/// A size such as `100.00MiB`, in bytes (rounded down, capped at
/// `u64::MAX`).
pub open spec fn size_bytes(s: Seq<char>) -> Option<u64> {
    let k = number_prefix_len(s) as int;
    match (decimal_number(s.subrange(0, k)), unit_factor(s.subrange(k, s.len() as int))) {
        (Some((i, f, d)), Some(u)) => Some(sat(i * u + (f * u) / (pow10(d) as int))),
        _ => None,
    }
}

fn size_bytes_exec(s: &Vec<char>) -> (r: Option<u64>)
    ensures
        r == size_bytes(s@),
{
    let mut k: usize = 0;
    while k < s.len() && (('0' <= s[k] && s[k] <= '9') || s[k] == '.')
        invariant
            k <= s@.len(),
            forall|j: int| 0 <= j < k ==> ('0' <= #[trigger] s@[j] && s@[j] <= '9') || s@[j] == '.',
        decreases s@.len() - k,
    {
        k = k + 1;
    }
    proof {
        lemma_number_prefix_len(s@, k as int);
    }
    let num = slice_chars(s, 0, k);
    let unit = slice_chars(s, k, s.len());
    match (decimal_number_exec(&num), unit_factor_exec(&unit)) {
        (Some((i, f, d)), Some(u)) => {
            let p = crate::ffmpeg::pow10_u64(d as u32);
            proof {
                crate::ffmpeg::lemma_pow10_positive_pub(d as nat);
                assert((i as u128) * (u as u128) <= 18446744073709551615u128 * 1099511627776u128)
                    by (nonlinear_arith)
                    requires
                        i <= 18446744073709551615u64,
                        u <= 1099511627776u64,
                ;
                assert((f as u128) * (u as u128) <= 18446744073709551615u128 * 1099511627776u128)
                    by (nonlinear_arith)
                    requires
                        f <= 18446744073709551615u64,
                        u <= 1099511627776u64,
                ;
            }
            let whole: u128 = (i as u128) * (u as u128);
            let prod: u128 = (f as u128) * (u as u128);
            let part: u128 = prod / (p as u128);
            proof {
                assert(part <= prod) by (nonlinear_arith)
                    requires
                        p >= 1,
                        part == prod / (p as u128),
                ;
            }
            let total: u128 = whole + part;
            if total > 18446744073709551615u128 {
                Some(u64::MAX)
            } else {
                Some(total as u64)
            }
        },
        _ => None,
    }
}

/// The word after the first occurrence of a key word.
pub open spec fn word_after(ws: Seq<Seq<char>>, key: Seq<char>) -> Option<Seq<char>>
    decreases ws.len(),
{
    if ws.len() < 2 {
        None
    } else if ws[0] == key {
        Some(ws[1])
    } else {
        word_after(ws.drop_first(), key)
    }
}

fn chars_equal(a: &Vec<char>, b: &Vec<char>) -> (r: bool)
    ensures
        r == (a@ == b@),
{
    if a.len() != b.len() {
        return false;
    }
    let mut i: usize = 0;
    while i < a.len()
        invariant
            a@.len() == b@.len(),
            i <= a@.len(),
            forall|j: int| 0 <= j < i ==> a@[j] == b@[j],
        decreases a@.len() - i,
    {
        if a[i] != b[i] {
            return false;
        }
        i = i + 1;
    }
    assert(a@ =~= b@);
    true
}

fn word_after_exec(ws: &Vec<Vec<char>>, key: &str) -> (r: Option<Vec<char>>)
    ensures
        match (r, word_after(nested_view(ws@), key@)) {
            (Some(a), Some(b)) => a@ == b,
            (None, None) => true,
            _ => false,
        },
{
    let k = to_chars(key);
    let ghost nv = nested_view(ws@);
    let mut i: usize = 0;
    assert(nv.subrange(0, nv.len() as int) =~= nv);
    while ws.len() - i > 1
        invariant
            i <= ws@.len(),
            k@ == key@,
            nv == nested_view(ws@),
            word_after(nv, key@) == word_after(nv.subrange(i as int, nv.len() as int), key@),
        decreases ws@.len() - i,
    {
        let ghost rest = nv.subrange(i as int, nv.len() as int);
        assert(rest[0] == ws@[i as int]@);
        assert(rest[1] == ws@[i + 1]@);
        let n = ws[i + 1].len();
        let same = chars_equal(&ws[i], &k);
        if same {
            let w = slice_chars(&ws[i + 1], 0, n);
            assert(ws@[i + 1]@.subrange(0, n as int) =~= ws@[i + 1]@);
            return Some(w);
        }
        assert(rest.drop_first() =~= nv.subrange(i + 1, nv.len() as int));
        i = i + 1;
    }
    None
}

/// The fields a yt-dlp progress line gives, or `None` when the line is no
/// progress line: it must begin with the word `[download]` followed by a
/// percentage; the total follows `of` (possibly marked `~` as an estimate),
/// the speed follows `at` and ends with `/s`.
pub open spec fn progress_line_spec(line: Seq<char>) -> Option<StreamProgress> {
    let ws = words(line);
    if ws.len() < 2 || ws[0] != "[download]"@ || !ends_with(ws[1], "%"@) {
        None
    } else {
        match decimal_number(ws[1].drop_last()) {
            None => None,
            Some((pct, _, _)) => Some(
                StreamProgress {
                    percent: Some(if pct > 100 {
                        100u8
                    } else {
                        pct as u8
                    }),
                    downloaded_bytes: None,
                    total_bytes: match word_after(ws, "of"@) {
                        Some(w) => size_bytes(
                            if w.len() > 0 && w[0] == '~' {
                                w.drop_first()
                            } else {
                                w
                            },
                        ),
                        None => None,
                    },
                    speed_bytes_per_second: match word_after(ws, "at"@) {
                        Some(w) => if ends_with(w, "/s"@) {
                            size_bytes(w.subrange(0, w.len() - 2))
                        } else {
                            None
                        },
                        None => None,
                    },
                },
            ),
        }
    }
}

/// Reads a human progress line of yt-dlp.
pub fn parse_fallback_progress_line(line: &str) -> (r: Option<StreamProgress>)
    ensures
        r == progress_line_spec(line@),
{
    proof {
        reveal_strlit("[download]");
        reveal_strlit("%");
        reveal_strlit("/s");
    }
    let chars = to_chars(line);
    let ws = words_exec(&chars);
    let ghost nv = nested_view(ws@);
    if ws.len() < 2 {
        return None;
    }
    assert(nv[0] == ws@[0]@);
    assert(nv[1] == ws@[1]@);
    let head = from_chars(&ws[0]);
    if !str_same(head.as_str(), "[download]") {
        return None;
    }
    let pct_word = &ws[1];
    let pct_sign = to_chars("%");
    if !chars_ends_with(pct_word, &pct_sign) {
        return None;
    }
    let num = slice_chars(pct_word, 0, pct_word.len() - 1);
    assert(num@ =~= pct_word@.drop_last());
    let pct: u64 = match decimal_number_exec(&num) {
        None => {
            return None;
        },
        Some((p, _, _)) => p,
    };
    let percent: u8 = if pct > 100 {
        100
    } else {
        pct as u8
    };
    let total = match word_after_exec(&ws, "of") {
        Some(w) => {
            let v = if w.len() > 0 && w[0] == '~' {
                slice_chars(&w, 1, w.len())
            } else {
                w
            };
            size_bytes_exec(&v)
        },
        None => None,
    };
    let per_second = to_chars("/s");
    let speed = match word_after_exec(&ws, "at") {
        Some(w) => {
            if chars_ends_with(&w, &per_second) {
                let v = slice_chars(&w, 0, w.len() - 2);
                size_bytes_exec(&v)
            } else {
                None
            }
        },
        None => None,
    };
    Some(
        StreamProgress {
            percent: Some(percent),
            downloaded_bytes: None,
            total_bytes: total,
            speed_bytes_per_second: speed,
        },
    )
}

/// Helper function to parse a human progress line; a line that is no
/// progress line gives no figures.
pub fn parse_ytdlp_progress_line(line: &str) -> (r: StreamProgress)
    ensures
        r == (match progress_line_spec(line@) {
            Some(p) => p,
            None => StreamProgress {
                percent: None,
                downloaded_bytes: None,
                total_bytes: None,
                speed_bytes_per_second: None,
            },
        }),
{
    match parse_fallback_progress_line(line) {
        Some(p) => p,
        None => StreamProgress {
            percent: None,
            downloaded_bytes: None,
            total_bytes: None,
            speed_bytes_per_second: None,
        },
    }
}


/// A text field, or a default when absent or not text.
pub open spec fn text_or(r: RecordView, key: Seq<char>, default: Seq<char>) -> Seq<char> {
    match text_field(r, key) {
        Some(t) => t,
        None => default,
    }
}

/// Storyboards, thumbnails and `mhtml` entries are not media formats.
///
/// The note is compared in ASCII lower case: no character outside ASCII
/// lower-cases to a letter of `storyboard`, so this is what the Unicode
/// lower case gives here.
pub open spec fn is_storyboard(r: RecordView) -> bool {
    text_or(r, "protocol"@, seq![]) == "mhtml"@ || contains_seq(
        ascii_lower(text_or(r, "format_note"@, seq![])),
        "storyboard"@,
    ) || starts_with(text_or(r, "format_id"@, seq![]), "sb"@)
}

/// The format described by a metadata entry.
pub open spec fn format_of(r: RecordView) -> FormatView {
    let vcodec = text_or(r, "vcodec"@, "none"@);
    let acodec = text_or(r, "acodec"@, "none"@);
    let note = text_or(r, "format_note"@, seq![]);
    FormatView {
        format_id: text_or(r, "format_id"@, seq![]),
        height: match unsigned_field(r, "height"@) {
            Some(h) => Some(h as u32),
            None => None,
        },
        has_video: vcodec != "none"@ && vcodec.len() > 0,
        has_audio: acodec != "none"@ && acodec.len() > 0,
        extension: text_or(r, "ext"@, "mp4"@),
        filesize_approx_bytes: match unsigned_field(r, "filesize"@) {
            Some(n) => Some(n),
            None => unsigned_field(r, "filesize_approx"@),
        },
        note: if note.len() == 0 {
            None
        } else {
            Some(note)
        },
    }
}

/// The media formats among the metadata entries, in order.
pub open spec fn formats_from(list: Seq<RecordView>) -> Seq<FormatView>
    decreases list.len(),
{
    if list.len() == 0 {
        seq![]
    } else if is_storyboard(list.last()) {
        formats_from(list.drop_last())
    } else {
        formats_from(list.drop_last()).push(format_of(list.last()))
    }
}

fn text_or_exec(r: &JsonRecord, key: &str, default: &str) -> (t: String)
    ensures
        t@ == text_or(record_view(*r), key@, default@),
{
    match r.text(key) {
        Some(t) => t,
        None => String::from_str(default),
    }
}

fn is_none_codec(c: &str) -> (r: bool)
    ensures
        r == (c@ == "none"@ || c@.len() == 0),
{
    c.unicode_len() == 0 || str_same(c, "none")
}

fn format_from_record(r: &JsonRecord) -> (f: Option<FormatOption>)
    ensures
        is_storyboard(record_view(*r)) ==> f is None,
        !is_storyboard(record_view(*r)) ==> (f matches Some(x) && x@ == format_of(record_view(*r))),
{
    proof {
        reveal_strlit("storyboard");
        reveal_strlit("sb");
        reveal_strlit("");
        assert(""@ =~= Seq::<char>::empty());
    }
    let ghost rv = record_view(*r);
    let protocol = text_or_exec(r, "protocol", "");
    let note = text_or_exec(r, "format_note", "");
    let id = text_or_exec(r, "format_id", "");
    let note_chars = to_chars(note.as_str());
    let lower = ascii_lower_chars(&note_chars);
    let board = to_chars("storyboard");
    let id_chars = to_chars(id.as_str());
    let sb = to_chars("sb");
    let skip = str_same(protocol.as_str(), "mhtml") || chars_contains_seq(&lower, &board)
        || chars_starts_with(&id_chars, &sb);
    assert(protocol@ == text_or(rv, "protocol"@, seq![]));
    assert(note@ == text_or(rv, "format_note"@, seq![]));
    assert(id@ == text_or(rv, "format_id"@, seq![]));
    assert(skip == is_storyboard(rv));
    if skip {
        return None;
    }
    let vcodec = text_or_exec(r, "vcodec", "none");
    let acodec = text_or_exec(r, "acodec", "none");
    let height = match r.unsigned("height") {
        Some(h) => Some(#[verifier::truncate] (h as u32)),
        None => None,
    };
    let size = match r.unsigned("filesize") {
        Some(n) => Some(n),
        None => r.unsigned("filesize_approx"),
    };
    let note_opt = if note.unicode_len() == 0 {
        None
    } else {
        Some(note)
    };
    Some(
        FormatOption {
            format_id: id,
            height,
            has_video: !is_none_codec(vcodec.as_str()),
            has_audio: !is_none_codec(acodec.as_str()),
            extension: text_or_exec(r, "ext", "mp4"),
            filesize_approx_bytes: size,
            note: note_opt,
        },
    )
}

fn formats_from_records(list: &Vec<JsonRecord>) -> (r: Vec<FormatOption>)
    ensures
        formats_view(r@) == formats_from(records_view(list@)),
{
    let ghost lv = records_view(list@);
    let mut out: Vec<FormatOption> = Vec::new();
    let mut i: usize = 0;
    while i < list.len()
        invariant
            i <= list@.len(),
            lv == records_view(list@),
            formats_view(out@) == formats_from(lv.subrange(0, i as int)),
        decreases list@.len() - i,
    {
        assert(lv.subrange(0, i + 1).drop_last() =~= lv.subrange(0, i as int));
        assert(lv[i as int] == record_view(list@[i as int]));
        match format_from_record(&list[i]) {
            Some(f) => {
                let ghost before = formats_view(out@);
                let ghost fv = f@;
                out.push(f);
                assert(formats_view(out@) =~= before.push(fv));
            },
            None => {},
        }
        i = i + 1;
    }
    assert(lv.subrange(0, list@.len() as int) =~= lv);
    out
}

/// What the metadata of a media gives: the title (`Sans titre` when
/// missing), duration, thumbnail, uploader (or else channel) and formats.
pub open spec fn probe_matches(
    p: ProbeResult,
    url: Seq<char>,
    top: RecordView,
    list: Option<Seq<RecordView>>,
) -> bool {
    &&& p.url@ == url
    &&& p.title@ == text_or(top, "title"@, "Sans titre"@)
    &&& p.duration_seconds == unsigned_field(top, "duration"@)
    &&& opt_view(p.thumbnail_url) == text_field(top, "thumbnail"@)
    &&& opt_view(p.uploader) == (match text_field(top, "uploader"@) {
        Some(u) => Some(u),
        None => text_field(top, "channel"@),
    })
    &&& formats_view(p.formats@) == (match list {
        Some(l) => formats_from(l),
        None => seq![],
    })
    &&& p.available_video_qualities@ == crate::probe::available_qualities(formats_view(p.formats@))
}

/// The analysis of a media from its parsed metadata: the fields of the
/// top-level object and, when there is one, the records of its `formats`
/// array.
pub fn probe_from_records(url: &MediaUrl, top: &JsonRecord, list: &Option<Vec<JsonRecord>>) -> (p:
    ProbeResult)
    ensures
        probe_matches(
            p,
            url@,
            record_view(*top),
            match list {
                Some(l) => Some(records_view(l@)),
                None => None,
            },
        ),
{
    let title = text_or_exec(top, "title", "Sans titre");
    let duration = top.unsigned("duration");
    let uploader = match top.text("uploader") {
        Some(u) => Some(u),
        None => top.text("channel"),
    };
    let thumbnail = top.text("thumbnail");
    let formats = match list {
        Some(l) => formats_from_records(l),
        None => {
            let v: Vec<FormatOption> = Vec::new();
            assert(formats_view(v@) =~= Seq::<FormatView>::empty());
            v
        },
    };
    ProbeResult::new(url.duplicate(), title, duration, thumbnail, uploader, formats)
}

/// The analysis of a media from the lines yt-dlp printed with
/// `--dump-single-json`.
pub fn probe_from_metadata(url: &MediaUrl, stdout_lines: &Vec<String>) -> (r: Result<
    ProbeResult,
    CoreError,
>)
    ensures
        match json_document(join_with(strings_view(stdout_lines@), "\n"@), "formats"@) {
            Err(m) => r matches Err(CoreError::ProviderError(x)) && x@
                == "Failed to parse metadata JSON: "@ + m,
            Ok((top, list)) => r matches Ok(p) && probe_matches(p, url@, top, list),
        },
{
    let text = join_strings(stdout_lines, "\n");
    match parse_json_document(text.as_str(), "formats") {
        Err(m) => Err(
            CoreError::ProviderError(concat_str("Failed to parse metadata JSON: ", m.as_str())),
        ),
        Ok((top, list)) => Ok(probe_from_records(url, &top, &list)),
    }
}

/// The error when yt-dlp cannot be found.
pub fn ytdlp_not_found() -> (e: CoreError)
    ensures
        e matches CoreError::DownloadFailed(d) && d.code == DownloadErrorCode::YtdlpNotFound
            && d.message@ == crate::error::error_code_text(DownloadErrorCode::YtdlpNotFound)
            && d.stderr_tail is None,
{
    CoreError::DownloadFailed(DownloadErrorDetails::from_code(DownloadErrorCode::YtdlpNotFound))
}

/// The error when yt-dlp cannot be started.
pub fn ytdlp_start_failure(binary: &str, reason: &str) -> (e: CoreError)
    ensures
        e matches CoreError::DownloadFailed(d) && d.code == DownloadErrorCode::YtdlpStartFailed
            && d.message@ == "Impossible de démarrer yt-dlp '"@ + binary@ + "': "@ + reason@
            && d.stderr_tail is None,
{
    let mut m = concat3("Impossible de démarrer yt-dlp '", binary, "': ");
    m.append(reason);
    CoreError::DownloadFailed(DownloadErrorDetails::with_message(DownloadErrorCode::YtdlpStartFailed, m))
}

/// The error of a yt-dlp run that exited with a failure: the process failed,
/// with its error output as diagnostic when it printed any.
pub fn ytdlp_run_failure(stderr: String) -> (e: CoreError)
    ensures
        e matches CoreError::DownloadFailed(d) && d.code == DownloadErrorCode::DownloadProcessFailed
            && d.message@ == crate::error::error_code_text(DownloadErrorCode::DownloadProcessFailed)
            && d.retryable && d.stderr_tail == (if stderr@.len() == 0 {
                None::<String>
            } else {
                Some(stderr)
            }),
{
    let mut d = DownloadErrorDetails::from_code(DownloadErrorCode::DownloadProcessFailed);
    if stderr.unicode_len() > 0 {
        d.stderr_tail = Some(stderr);
    }
    CoreError::DownloadFailed(d)
}

/// Diagnostic availability status for yt-dlp.
#[derive(Debug, Clone)]
pub struct YtDlpAvailability {
    pub is_ready: bool,
    pub version: Option<String>,
    pub binary_path: Option<String>,
    pub status_message: String,
}

/// The availability reported for the outcome of resolving yt-dlp.
pub fn ytdlp_availability(resolved: &Result<ResolvedBinary, BinResError>) -> (r: YtDlpAvailability)
    ensures
        match resolved {
            Ok(b) => r.is_ready && opt_view(r.version) == Some(b.version@) && opt_view(r.binary_path)
                == Some(b.path@) && r.status_message@ == "yt-dlp version "@ + b.version@
                + " prête"@,
            Err(e) => !r.is_ready && r.version is None && r.binary_path is None
                && r.status_message@ == "yt-dlp indisponible: "@ + binres_error_text(*e),
        },
{
    match resolved {
        Ok(b) => YtDlpAvailability {
            is_ready: true,
            version: Some(b.version.clone()),
            binary_path: Some(b.path.clone()),
            status_message: concat3("yt-dlp version ", b.version.as_str(), " prête"),
        },
        Err(e) => YtDlpAvailability {
            is_ready: false,
            version: None,
            binary_path: None,
            status_message: concat_str("yt-dlp indisponible: ", e.message().as_str()),
        },
    }
}


/// The value of a `key:value` word: the rest of the first word that starts
/// with the key, or the word after a word that is the key alone.
pub open spec fn keyed_value(ws: Seq<Seq<char>>, key: Seq<char>) -> Option<Seq<char>>
    decreases ws.len(),
{
    if ws.len() == 0 {
        None
    } else if ws[0] == key {
        if ws.len() > 1 {
            Some(ws[1])
        } else {
            None
        }
    } else if starts_with(ws[0], key) {
        Some(ws[0].subrange(key.len() as int, ws[0].len() as int))
    } else {
        keyed_value(ws.drop_first(), key)
    }
}

fn keyed_value_exec(ws: &Vec<Vec<char>>, key: &str) -> (r: Option<Vec<char>>)
    ensures
        match (r, keyed_value(nested_view(ws@), key@)) {
            (Some(a), Some(b)) => a@ == b,
            (None, None) => true,
            _ => false,
        },
{
    let k = to_chars(key);
    let ghost nv = nested_view(ws@);
    let mut i: usize = 0;
    assert(nv.subrange(0, nv.len() as int) =~= nv);
    while i < ws.len()
        invariant
            i <= ws@.len(),
            k@ == key@,
            nv == nested_view(ws@),
            keyed_value(nv, key@) == keyed_value(nv.subrange(i as int, nv.len() as int), key@),
        decreases ws@.len() - i,
    {
        let ghost rest = nv.subrange(i as int, nv.len() as int);
        assert(rest[0] == ws@[i as int]@);
        if chars_equal(&ws[i], &k) {
            if i + 1 < ws.len() {
                assert(rest[1] == ws@[i + 1]@);
                let n = ws[i + 1].len();
                let w = slice_chars(&ws[i + 1], 0, n);
                assert(ws@[i + 1]@.subrange(0, n as int) =~= ws@[i + 1]@);
                return Some(w);
            }
            return None;
        }
        if chars_starts_with(&ws[i], &k) {
            return Some(slice_chars(&ws[i], k.len(), ws[i].len()));
        }
        assert(rest.drop_first() =~= nv.subrange(i + 1, nv.len() as int));
        i = i + 1;
    }
    None
}

/// A whole number read from a yt-dlp field: the integer part of a decimal
/// number; `NA` and anything else give none.
pub open spec fn field_number(v: Option<Seq<char>>) -> Option<u64> {
    match v {
        Some(t) => match decimal_number(t) {
            Some((i, _, _)) => Some(i),
            None => None,
        },
        None => None,
    }
}

fn field_number_exec(v: Option<Vec<char>>) -> (r: Option<u64>)
    ensures
        r == field_number(match v {
            Some(x) => Some(x@),
            None => None,
        }),
{
    match v {
        Some(t) => match decimal_number_exec(&t) {
            Some((i, _, _)) => Some(i),
            None => None,
        },
        None => None,
    }
}

/// A percentage field such as `45.2%`, rounded down and capped at 100.
pub open spec fn field_percent(v: Option<Seq<char>>) -> Option<u8> {
    match v {
        Some(t) => if ends_with(t, "%"@) {
            match decimal_number(t.drop_last()) {
                Some((i, _, _)) => Some(
                    if i > 100 {
                        100u8
                    } else {
                        i as u8
                    },
                ),
                None => None,
            }
        } else {
            None
        },
        None => None,
    }
}

/// A line yt-dlp prints with the templates of a download run.
#[derive(Debug)]
pub enum YtDlpLine {
    /// The media's title and duration, printed before the download.
    Meta { title: Option<String>, duration_seconds: Option<u64> },
    /// Progress of one stream.
    Progress { stream: Option<String>, progress: StreamProgress },
    /// The path of a finished file.
    Output(String),
    /// Anything else.
    Other,
}

pub enum YtDlpLineView {
    Meta { title: Option<Seq<char>>, duration_seconds: Option<u64> },
    Progress { stream: Option<Seq<char>>, progress: StreamProgress },
    Output(Seq<char>),
    Other,
}

impl View for YtDlpLine {
    type V = YtDlpLineView;

    open spec fn view(&self) -> YtDlpLineView {
        match self {
            YtDlpLine::Meta { title, duration_seconds } => YtDlpLineView::Meta {
                title: opt_view(*title),
                duration_seconds: *duration_seconds,
            },
            YtDlpLine::Progress { stream, progress } => YtDlpLineView::Progress {
                stream: opt_view(*stream),
                progress: *progress,
            },
            YtDlpLine::Output(p) => YtDlpLineView::Output(p@),
            YtDlpLine::Other => YtDlpLineView::Other,
        }
    }
}

/// The value of a tab-separated `key:value` field.
pub open spec fn tab_field(fields: Seq<Seq<char>>, key: Seq<char>) -> Option<Seq<char>>
    decreases fields.len(),
{
    if fields.len() == 0 {
        None
    } else if starts_with(fields[0], key) {
        Some(fields[0].subrange(key.len() as int, fields[0].len() as int))
    } else {
        tab_field(fields.drop_first(), key)
    }
}

fn tab_field_exec(fields: &Vec<Vec<char>>, key: &str) -> (r: Option<Vec<char>>)
    ensures
        match (r, tab_field(nested_view(fields@), key@)) {
            (Some(a), Some(b)) => a@ == b,
            (None, None) => true,
            _ => false,
        },
{
    let k = to_chars(key);
    let ghost nv = nested_view(fields@);
    let mut i: usize = 0;
    assert(nv.subrange(0, nv.len() as int) =~= nv);
    while i < fields.len()
        invariant
            i <= fields@.len(),
            k@ == key@,
            nv == nested_view(fields@),
            tab_field(nv, key@) == tab_field(nv.subrange(i as int, nv.len() as int), key@),
        decreases fields@.len() - i,
    {
        let ghost rest = nv.subrange(i as int, nv.len() as int);
        assert(rest[0] == fields@[i as int]@);
        if chars_starts_with(&fields[i], &k) {
            return Some(slice_chars(&fields[i], k.len(), fields[i].len()));
        }
        assert(rest.drop_first() =~= nv.subrange(i + 1, nv.len() as int));
        i = i + 1;
    }
    None
}

/// A text field where `NA` stands for no value.
pub open spec fn present(v: Option<Seq<char>>) -> Option<Seq<char>> {
    match v {
        Some(t) => if t == "NA"@ {
            None
        } else {
            Some(t)
        },
        None => None,
    }
}

pub open spec fn meta_prefix() -> Seq<char> {
    "[POLYSAVER_META] "@
}

pub open spec fn progress_prefix() -> Seq<char> {
    "[POLYSAVER_PROGRESS]"@
}

pub open spec fn output_prefix() -> Seq<char> {
    "[POLYSAVER_OUTPUT] "@
}

/// How a line printed during a download run is read.
pub open spec fn ytdlp_line_spec(line: Seq<char>) -> YtDlpLineView {
    let t = trim(line);
    if starts_with(t, meta_prefix()) {
        let fields = split_on(t.subrange(meta_prefix().len() as int, t.len() as int), '\t');
        YtDlpLineView::Meta {
            title: present(tab_field(fields, "title:"@)),
            duration_seconds: field_number(present(tab_field(fields, "duration:"@))),
        }
    } else if starts_with(t, progress_prefix()) {
        let ws = words(t.subrange(progress_prefix().len() as int, t.len() as int));
        YtDlpLineView::Progress {
            stream: present(keyed_value(ws, "stream:"@)),
            progress: StreamProgress {
                percent: field_percent(keyed_value(ws, "percent:"@)),
                downloaded_bytes: field_number(keyed_value(ws, "downloaded:"@)),
                total_bytes: field_number(keyed_value(ws, "total:"@)),
                speed_bytes_per_second: field_number(keyed_value(ws, "speed:"@)),
            },
        }
    } else if starts_with(t, output_prefix()) {
        YtDlpLineView::Output(t.subrange(output_prefix().len() as int, t.len() as int))
    } else {
        YtDlpLineView::Other
    }
}

fn present_exec(v: Option<Vec<char>>) -> (r: Option<String>)
    ensures
        opt_view(r) == present(match v {
            Some(x) => Some(x@),
            None => None,
        }),
{
    proof {
        reveal_strlit("NA");
    }
    match v {
        Some(t) => {
            let s = from_chars(&t);
            if str_same(s.as_str(), "NA") {
                None
            } else {
                Some(s)
            }
        },
        None => None,
    }
}

fn present_present(v: Option<Vec<char>>) -> (r: Option<Vec<char>>)
    ensures
        match (r, present(match v {
            Some(x) => Some(x@),
            None => None,
        })) {
            (Some(a), Some(b)) => a@ == b,
            (None, None) => true,
            _ => false,
        },
{
    proof {
        reveal_strlit("NA");
    }
    match v {
        Some(t) => {
            let na = to_chars("NA");
            if chars_equal(&t, &na) {
                None
            } else {
                Some(t)
            }
        },
        None => None,
    }
}

fn field_percent_exec(v: Option<Vec<char>>) -> (r: Option<u8>)
    ensures
        r == field_percent(match v {
            Some(x) => Some(x@),
            None => None,
        }),
{
    proof {
        reveal_strlit("%");
    }
    match v {
        Some(t) => {
            let pct = to_chars("%");
            if !chars_ends_with(&t, &pct) {
                return None;
            }
            let num = slice_chars(&t, 0, t.len() - 1);
            assert(num@ =~= t@.drop_last());
            match decimal_number_exec(&num) {
                Some((i, _, _)) => Some(
                    if i > 100 {
                        100u8
                    } else {
                        i as u8
                    },
                ),
                None => None,
            }
        },
        None => None,
    }
}

/// Reads a line printed during a download run.
pub fn classify_ytdlp_line(line: &str) -> (r: YtDlpLine)
    ensures
        r@ == ytdlp_line_spec(line@),
{
    proof {
        reveal_strlit("[POLYSAVER_META] ");
        reveal_strlit("[POLYSAVER_PROGRESS]");
        reveal_strlit("[POLYSAVER_OUTPUT] ");
    }
    let chars = to_chars(line);
    let t = trim_chars(&chars);
    let meta = to_chars("[POLYSAVER_META] ");
    let prog = to_chars("[POLYSAVER_PROGRESS]");
    let out = to_chars("[POLYSAVER_OUTPUT] ");
    if chars_starts_with(&t, &meta) {
        let rest = slice_chars(&t, meta.len(), t.len());
        let fields = split_chars(&rest, '\t');
        let title = present_exec(tab_field_exec(&fields, "title:"));
        let duration = field_number_exec(present_present(tab_field_exec(&fields, "duration:")));
        return YtDlpLine::Meta { title, duration_seconds: duration };
    }
    if chars_starts_with(&t, &prog) {
        let rest = slice_chars(&t, prog.len(), t.len());
        let ws = words_exec(&rest);
        let stream = present_exec(keyed_value_exec(&ws, "stream:"));
        let progress = StreamProgress {
            percent: field_percent_exec(keyed_value_exec(&ws, "percent:")),
            downloaded_bytes: field_number_exec(keyed_value_exec(&ws, "downloaded:")),
            total_bytes: field_number_exec(keyed_value_exec(&ws, "total:")),
            speed_bytes_per_second: field_number_exec(keyed_value_exec(&ws, "speed:")),
        };
        return YtDlpLine::Progress { stream, progress };
    }
    if chars_starts_with(&t, &out) {
        let rest = slice_chars(&t, out.len(), t.len());
        return YtDlpLine::Output(from_chars(&rest));
    }
    YtDlpLine::Other
}

proof fn lemma_split_on_concat(a: Seq<char>, b: Seq<char>, sep: char)
    ensures
        split_on(a + seq![sep] + b, sep) == split_on(a, sep) + split_on(b, sep),
    decreases b.len(),
{
    let s = a + seq![sep] + b;
    if b.len() == 0 {
        assert(s.drop_last() =~= a);
        assert(split_on(b, sep) =~= seq![Seq::<char>::empty()]);
        assert(split_on(s, sep) =~= split_on(a, sep) + split_on(b, sep));
    } else {
        lemma_split_on_concat(a, b.drop_last(), sep);
        assert(s.drop_last() =~= a + seq![sep] + b.drop_last());
        let x = split_on(a, sep);
        let p = split_on(b.drop_last(), sep);
        lemma_split_nonempty(b.drop_last(), sep);
        if b.last() == sep {
            assert(split_on(s, sep) =~= x + p.push(Seq::<char>::empty()));
        } else {
            let q = p.update(p.len() - 1, p.last().push(b.last()));
            assert((x + p).update((x + p).len() - 1, (x + p).last().push(b.last())) =~= x + q);
        }
    }
}

proof fn lemma_split_on_plain(n: Seq<char>, sep: char)
    requires
        forall|i: int| 0 <= i < n.len() ==> #[trigger] n[i] != sep,
    ensures
        split_on(n, sep) == seq![n],
    decreases n.len(),
{
    if n.len() > 0 {
        assert forall|i: int| 0 <= i < n.drop_last().len() implies #[trigger] n.drop_last()[i] != sep by {
            assert(n.drop_last()[i] == n[i]);
        }
        lemma_split_on_plain(n.drop_last(), sep);
        assert(n[n.len() - 1] != sep);
        assert(n.drop_last().push(n.last()) =~= n);
        assert(split_on(n, sep) =~= seq![n]);
    } else {
        assert(n =~= Seq::<char>::empty());
    }
}

/// The height condition of a format selector.
pub open spec fn height_tag(h: u32) -> Seq<char> {
    "[height="@ + decimal(h as nat) + "]"@
}

proof fn lemma_tag_no_slash(h: u32)
    ensures
        forall|i: int| 0 <= i < height_tag(h).len() ==> #[trigger] height_tag(h)[i] != '/',
{
    reveal_strlit("[height=");
    reveal_strlit("]");
    crate::publish::lemma_decimal_shape(h as nat);
    let t = height_tag(h);
    let d = decimal(h as nat);
    assert forall|i: int| 0 <= i < t.len() implies #[trigger] t[i] != '/' by {
        if 8 <= i < 8 + d.len() {
            assert(t[i] == d[i - 8]);
            assert(crate::text::is_ascii_digit(d[i - 8]));
        }
    }
}

spec fn no_slash(s: Seq<char>) -> bool {
    forall|i: int| 0 <= i < s.len() ==> #[trigger] s[i] != '/'
}

/// An alternative made of a plain head, the height condition and a plain
/// tail holds no separator and asks for that height.
proof fn lemma_alternative(head: Seq<char>, tail: Seq<char>, h: u32)
    requires
        no_slash(head),
        no_slash(tail),
    ensures
        no_slash(head + height_tag(h) + tail),
        contains_seq(head + height_tag(h) + tail, height_tag(h)),
{
    let t = height_tag(h);
    let a = head + t + tail;
    lemma_tag_no_slash(h);
    assert forall|i: int| 0 <= i < a.len() implies #[trigger] a[i] != '/' by {
        if i < head.len() {
            assert(a[i] == head[i]);
        } else if i < head.len() + t.len() {
            assert(a[i] == t[i - head.len()]);
        } else {
            assert(a[i] == tail[i - head.len() - t.len()]);
        }
    }
    assert(a.subrange(head.len() as int, (head.len() + t.len()) as int) =~= t);
}

proof fn lemma_two_alternatives(a: Seq<char>, b: Seq<char>, h: u32)
    requires
        no_slash(a),
        no_slash(b),
        contains_seq(a, height_tag(h)),
        contains_seq(b, height_tag(h)),
    ensures
        all_alternatives_keep(a + seq!['/'] + b, h),
{
    lemma_split_on_plain(a, '/');
    lemma_split_on_plain(b, '/');
    lemma_split_on_concat(a, b, '/');
    let alts = split_on(a + seq!['/'] + b, '/');
    assert(alts =~= seq![a, b]);
    assert forall|k: int| 0 <= k < alts.len() implies contains_seq(#[trigger] alts[k], height_tag(h)) by {
        if k == 0 {
            assert(alts[k] == a);
        } else {
            assert(alts[k] == b);
        }
    }
}

proof fn lemma_three_alternatives(a: Seq<char>, b: Seq<char>, c: Seq<char>, h: u32)
    requires
        no_slash(a),
        no_slash(b),
        no_slash(c),
        contains_seq(a, height_tag(h)),
        contains_seq(b, height_tag(h)),
        contains_seq(c, height_tag(h)),
    ensures
        all_alternatives_keep(a + seq!['/'] + (b + seq!['/'] + c), h),
{
    lemma_split_on_plain(a, '/');
    lemma_split_on_plain(b, '/');
    lemma_split_on_plain(c, '/');
    lemma_split_on_concat(b, c, '/');
    lemma_split_on_concat(a, b + seq!['/'] + c, '/');
    let alts = split_on(a + seq!['/'] + (b + seq!['/'] + c), '/');
    assert(alts =~= seq![a, b, c]);
    assert forall|k: int| 0 <= k < alts.len() implies contains_seq(#[trigger] alts[k], height_tag(h)) by {
        if k == 0 {
            assert(alts[k] == a);
        } else if k == 1 {
            assert(alts[k] == b);
        } else {
            assert(alts[k] == c);
        }
    }
}

proof fn lemma_plain_literals()
    ensures
        no_slash("bestvideo"@),
        no_slash("best"@),
        no_slash("+bestaudio"@),
        no_slash("[ext=mp4]+bestaudio[ext=m4a]"@),
        no_slash(Seq::<char>::empty()),
{
    reveal_strlit("bestvideo");
    reveal_strlit("best");
    reveal_strlit("+bestaudio");
    reveal_strlit("[ext=mp4]+bestaudio[ext=m4a]");
}

#[verifier::rlimit(40)]
proof fn lemma_mp4_selector(h: u32)
    ensures
        ({
            let d = decimal(h as nat);
            "bestvideo[height="@ + d + "][ext=mp4]+bestaudio[ext=m4a]/bestvideo[height="@ + d
                + "]+bestaudio/best[height="@ + d + "]"@ == ("bestvideo"@ + height_tag(h)
                + "[ext=mp4]+bestaudio[ext=m4a]"@) + seq!['/'] + (("bestvideo"@ + height_tag(h)
                + "+bestaudio"@) + seq!['/'] + ("best"@ + height_tag(h) + Seq::<char>::empty()))
        }),
{
    reveal_strlit("[height=");
    reveal_strlit("]");
    reveal_strlit("bestvideo");
    reveal_strlit("best");
    reveal_strlit("[ext=mp4]+bestaudio[ext=m4a]");
    reveal_strlit("+bestaudio");
    reveal_strlit("bestvideo[height=");
    reveal_strlit("][ext=mp4]+bestaudio[ext=m4a]/bestvideo[height=");
    reveal_strlit("]+bestaudio/best[height=");
    let d = decimal(h as nat);
    assert("bestvideo[height="@ + d + "][ext=mp4]+bestaudio[ext=m4a]/bestvideo[height="@ + d
        + "]+bestaudio/best[height="@ + d + "]"@ =~= ("bestvideo"@ + height_tag(h)
        + "[ext=mp4]+bestaudio[ext=m4a]"@) + seq!['/'] + (("bestvideo"@ + height_tag(h)
        + "+bestaudio"@) + seq!['/'] + ("best"@ + height_tag(h) + Seq::<char>::empty())));
}

#[verifier::rlimit(40)]
proof fn lemma_mov_selector(h: u32)
    ensures
        ({
            let d = decimal(h as nat);
            "bestvideo[height="@ + d + "]+bestaudio/best[height="@ + d + "]"@ == ("bestvideo"@
                + height_tag(h) + "+bestaudio"@) + seq!['/'] + ("best"@ + height_tag(h)
                + Seq::<char>::empty())
        }),
{
    reveal_strlit("[height=");
    reveal_strlit("]");
    reveal_strlit("bestvideo");
    reveal_strlit("best");
    reveal_strlit("+bestaudio");
    reveal_strlit("bestvideo[height=");
    reveal_strlit("]+bestaudio/best[height=");
    let d = decimal(h as nat);
    assert("bestvideo[height="@ + d + "]+bestaudio/best[height="@ + d + "]"@ =~= ("bestvideo"@
        + height_tag(h) + "+bestaudio"@) + seq!['/'] + ("best"@ + height_tag(h)
        + Seq::<char>::empty()));
}

/// Every alternative of a selector asks for the height.
pub open spec fn all_alternatives_keep(sel: Seq<char>, h: u32) -> bool {
    &&& split_on(sel, '/').len() >= 2
    &&& forall|k: int|
        0 <= k < split_on(sel, '/').len() ==> contains_seq(#[trigger] split_on(sel, '/')[k], height_tag(h))
}

/// A video preset of a chosen resolution downloads that resolution only:
/// every alternative of its format selector (the `/`-separated choices
/// yt-dlp tries in turn) asks for that height, whatever the container.
pub proof fn law_video_selector_keeps_height(format: OutputFormat, quality: crate::format::VideoQuality)
    requires
        format == OutputFormat::Mp4 || format == OutputFormat::Mov,
        quality_height(quality) is Some,
    ensures
        all_alternatives_keep(
            format_selector_spec(DownloadPreset::Video { format, quality }),
            quality_height(quality)->0,
        ),
{
    let h = quality_height(quality)->0;
    let e = Seq::<char>::empty();
    lemma_plain_literals();
    lemma_alternative("bestvideo"@, "+bestaudio"@, h);
    lemma_alternative("best"@, e, h);
    if format == OutputFormat::Mp4 {
        lemma_alternative("bestvideo"@, "[ext=mp4]+bestaudio[ext=m4a]"@, h);
        lemma_three_alternatives(
            "bestvideo"@ + height_tag(h) + "[ext=mp4]+bestaudio[ext=m4a]"@,
            "bestvideo"@ + height_tag(h) + "+bestaudio"@,
            "best"@ + height_tag(h) + e,
            h,
        );
        lemma_mp4_selector(h);
    } else {
        lemma_two_alternatives("bestvideo"@ + height_tag(h) + "+bestaudio"@, "best"@ + height_tag(h) + e, h);
        lemma_mov_selector(h);
    }
}

} // verus!
