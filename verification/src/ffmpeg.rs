//! The FFmpeg adapter's logic: the command lines it runs, how it reads the
//! progress FFmpeg prints and the tail of its error output, how a conversion
//! failure is described, and how FFprobe's report on a file is summarized and
//! checked.
use vstd::prelude::*;

use crate::binres::{binres_error_text, strings_view, BinResError, ResolvedBinary};
use crate::error::{CoreError, DownloadErrorCode, DownloadErrorDetails};
use crate::format::{format_extension, mp3_bitrate, Mp3Quality, OutputFormat};
use crate::job::{new_uuid_v4, uuid_hyphenated, uuid_hyphenated_text};
use crate::json::{
    json_document, parse_json_document, record_view, records_view, text_field, unsigned_field,
    JsonRecord, RecordView,
};
use crate::media_url::opt_view;
use crate::ports::AudioCodec;
use crate::publish::{join_file, join_file_path};
use crate::service::is_failure;
use crate::text::{
    concat3, concat_str, decimal, from_chars, lemma_split_nonempty, nested_view, parse_u64_chars,
    parse_u64_spec, slice_chars, split_chars, split_on, starts_with, to_chars, trim, trim_chars,
    trim_str, u64_to_decimal, chars_starts_with,
};

verus! {

/// Ten to the power `n`.
pub open spec fn pow10(n: nat) -> nat
    decreases n,
{
    if n == 0 {
        1
    } else {
        10 * pow10((n - 1) as nat)
    }
}

/// A number capped at `u64::MAX`.
pub open spec fn sat(x: int) -> u64 {
    if x > u64::MAX {
        u64::MAX
    } else if x < 0 {
        0
    } else {
        x as u64
    }
}

/// Microseconds given by the digits after the decimal point of a number of
/// seconds: the digits are read as a number and scaled to six places.
pub open spec fn fraction_micros(frac: u64, len: nat) -> u64 {
    if len <= 6 {
        sat(frac * pow10((6 - len) as nat))
    } else {
        ((frac as nat) / pow10((len - 6) as nat)) as u64
    }
}

/// `HH:MM:SS.fraction` as microseconds, each step saturating; `None` when the
/// text does not have three `:`-separated parts or a number does not parse.
pub open spec fn parse_time_spec(s: Seq<char>) -> Option<u64> {
    let parts = split_on(s, ':');
    if parts.len() != 3 {
        None
    } else {
        let sp = split_on(parts[2], '.');
        match (parse_u64_spec(parts[0]), parse_u64_spec(parts[1]), parse_u64_spec(sp[0])) {
            (Some(h), Some(m), Some(sec)) => {
                let micros: u64 = if sp.len() > 1 {
                    match parse_u64_spec(sp[1]) {
                        Some(f) => fraction_micros(f, sp[1].len()),
                        None => 0,
                    }
                } else {
                    0
                };
                Some(sat(sat(sat(sat(h * 3600) + sat(m * 60)) + sec) * 1_000_000 + micros))
            },
            _ => None,
        }
    }
}

proof fn lemma_pow10_positive(n: nat)
    ensures
        pow10(n) >= 1,
    decreases n,
{
    if n > 0 {
        lemma_pow10_positive((n - 1) as nat);
    }
}

pub(crate) proof fn lemma_pow10_positive_pub(n: nat)
    ensures
        pow10(n) >= 1,
{
    lemma_pow10_positive(n);
}

proof fn lemma_pow10_monotone(i: nat, j: nat)
    requires
        i <= j,
    ensures
        pow10(i) <= pow10(j),
    decreases j,
{
    if j > i {
        lemma_pow10_monotone(i, (j - 1) as nat);
        lemma_pow10_positive((j - 1) as nat);
    }
}

pub(crate) fn pow10_u64(n: u32) -> (r: u64)
    requires
        n <= 19,
    ensures
        r == pow10(n as nat),
{
    let mut r: u64 = 1;
    let mut i: u32 = 0;
    while i < n
        invariant
            i <= n <= 19,
            r == pow10(i as nat),
        decreases n - i,
    {
        proof {
            lemma_pow10_monotone((i + 1) as nat, 19);
            reveal_with_fuel(pow10, 20);
            assert(pow10(19) == 10_000_000_000_000_000_000nat);
        }
        r = r * 10;
        i = i + 1;
    }
    r
}

fn sat_mul(x: u64, y: u64) -> (r: u64)
    ensures
        r == sat(x * y),
{
    match x.checked_mul(y) {
        Some(z) => z,
        None => u64::MAX,
    }
}

fn fraction_micros_exec(frac: u64, len: usize) -> (r: u64)
    ensures
        r == fraction_micros(frac, len as nat),
{
    if len <= 6 {
        sat_mul(frac, pow10_u64((6 - len) as u32))
    } else if len - 6 <= 19 {
        proof {
            lemma_pow10_positive((len - 6) as nat);
        }
        frac / pow10_u64((len - 6) as u32)
    } else {
        proof {
            lemma_pow10_monotone(20, (len - 6) as nat);
            reveal_with_fuel(pow10, 21);
            assert(pow10(20) == 100_000_000_000_000_000_000nat);
            assert((frac as nat) / pow10((len - 6) as nat) == 0) by (nonlinear_arith)
                requires
                    frac < pow10((len - 6) as nat),
            ;
        }
        0
    }
}

/// Parses "HH:MM:SS.microseconds" format into microseconds.
pub fn parse_time_string_to_us(time_str: &str) -> (r: Option<u64>)
    ensures
        r == parse_time_spec(time_str@),
{
    let chars = to_chars(time_str);
    let parts = split_chars(&chars, ':');
    if parts.len() != 3 {
        return None;
    }
    assert(parts@[0]@ == nested_view(parts@)[0]);
    assert(parts@[1]@ == nested_view(parts@)[1]);
    assert(parts@[2]@ == nested_view(parts@)[2]);
    let hours = parse_u64_chars(&parts[0]);
    let minutes = parse_u64_chars(&parts[1]);
    let sec_parts = split_chars(&parts[2], '.');
    proof {
        lemma_split_nonempty(parts@[2]@, '.');
    }
    assert(sec_parts@[0]@ == nested_view(sec_parts@)[0]);
    let seconds = parse_u64_chars(&sec_parts[0]);
    let (h, m, sec) = match (hours, minutes, seconds) {
        (Some(h), Some(m), Some(s)) => (h, m, s),
        _ => {
            return None;
        },
    };
    let mut micros: u64 = 0;
    if sec_parts.len() > 1 {
        assert(sec_parts@[1]@ == nested_view(sec_parts@)[1]);
        match parse_u64_chars(&sec_parts[1]) {
            Some(f) => {
                micros = fraction_micros_exec(f, sec_parts[1].len());
            },
            None => {},
        }
    }
    let a = sat_mul(h, 3600).saturating_add(sat_mul(m, 60));
    let b = a.saturating_add(sec);
    let c = sat_mul(b, 1_000_000);
    Some(c.saturating_add(micros))
}

/// A line FFmpeg prints on its progress pipe, as the adapter reads it.
#[derive(Debug, Clone, Copy, PartialEq, Eq, Structural)]
pub enum ProgressLine {
    /// `out_time_us=` with a number of microseconds.
    OutTimeMicros(u64),
    /// `out_time=` with a time, when it parses.
    OutTime(Option<u64>),
    /// `progress=end`.
    End,
    /// Anything else.
    Other,
}

pub open spec fn progress_line_spec(line: Seq<char>) -> ProgressLine {
    let t = trim(line);
    if starts_with(t, "out_time_us="@) {
        match parse_u64_spec(t.subrange(12, t.len() as int)) {
            Some(us) => ProgressLine::OutTimeMicros(us),
            None => ProgressLine::Other,
        }
    } else if starts_with(t, "out_time="@) {
        ProgressLine::OutTime(parse_time_spec(t.subrange(9, t.len() as int)))
    } else if t == "progress=end"@ {
        ProgressLine::End
    } else {
        ProgressLine::Other
    }
}

/// Reads one line of FFmpeg's `-progress` output.
pub fn classify_progress_line(line: &str) -> (r: ProgressLine)
    ensures
        r == progress_line_spec(line@),
{
    proof {
        reveal_strlit("out_time_us=");
        reveal_strlit("out_time=");
        reveal_strlit("progress=end");
    }
    let chars = to_chars(line);
    let t = trim_chars(&chars);
    let us_prefix = to_chars("out_time_us=");
    let time_prefix = to_chars("out_time=");
    let end = to_chars("progress=end");
    if chars_starts_with(&t, &us_prefix) {
        let rest = slice_chars(&t, 12, t.len());
        return match parse_u64_chars(&rest) {
            Some(us) => ProgressLine::OutTimeMicros(us),
            None => ProgressLine::Other,
        };
    }
    if chars_starts_with(&t, &time_prefix) {
        let rest = slice_chars(&t, 9, t.len());
        let text = from_chars(&rest);
        return ProgressLine::OutTime(parse_time_string_to_us(text.as_str()));
    }
    if t.len() == end.len() && chars_starts_with(&t, &end) {
        assert(t@ =~= end@);
        return ProgressLine::End;
    }
    proof {
        if t@ == "progress=end"@ {
            assert(t@.subrange(0, t@.len() as int) =~= t@);
        }
    }
    ProgressLine::Other
}

/// What a progress line is reported as.
#[derive(Debug, Clone, Copy, PartialEq, Eq, Structural)]
pub enum ProgressReport {
    /// The time converted so far, in microseconds, to be shown as a share of
    /// the duration.
    Elapsed(u64),
    /// Progress without a known percentage.
    Unknown,
    /// The run is over: 100 %.
    Done,
}

/// One progress line read: whether `out_time_us` was seen so far, and what
/// to report. `out_time_us` is reported against a positive duration, or as
/// unknown progress when there is no duration; `out_time` is reported only
/// before any `out_time_us` and against a positive duration; `progress=end`
/// reports the end.
pub open spec fn progress_step(seen_micros: bool, duration: Option<u64>, line: ProgressLine) -> (
    bool,
    Option<ProgressReport>,
) {
    match line {
        ProgressLine::OutTimeMicros(us) => (
            true,
            match duration {
                Some(d) => if d > 0 {
                    Some(ProgressReport::Elapsed(us))
                } else {
                    None
                },
                None => Some(ProgressReport::Unknown),
            },
        ),
        ProgressLine::OutTime(Some(us)) => (
            seen_micros,
            if !seen_micros && (duration matches Some(d) && d > 0) {
                Some(ProgressReport::Elapsed(us))
            } else {
                None
            },
        ),
        ProgressLine::End => (seen_micros, Some(ProgressReport::Done)),
        _ => (seen_micros, None),
    }
}

/// Follows FFmpeg's progress output line by line.
pub struct ProgressTracker {
    seen_micros: bool,
    duration_seconds: Option<u64>,
}

impl View for ProgressTracker {
    type V = (bool, Option<u64>);

    closed spec fn view(&self) -> (bool, Option<u64>) {
        (self.seen_micros, self.duration_seconds)
    }
}

impl ProgressTracker {
    /// A tracker for a media of the given duration, if known.
    pub fn new(duration_seconds: Option<u64>) -> (t: Self)
        ensures
            t@ == (false, duration_seconds),
    {
        ProgressTracker { seen_micros: false, duration_seconds }
    }

    /// Reads one line of the progress output and answers what to report.
    pub fn step(&mut self, line: &str) -> (r: Option<ProgressReport>)
        ensures
            final(self)@ == (
                progress_step(old(self)@.0, old(self)@.1, progress_line_spec(line@)).0,
                old(self)@.1,
            ),
            r == progress_step(old(self)@.0, old(self)@.1, progress_line_spec(line@)).1,
    {
        match classify_progress_line(line) {
            ProgressLine::OutTimeMicros(us) => {
                self.seen_micros = true;
                match self.duration_seconds {
                    Some(d) => if d > 0 {
                        Some(ProgressReport::Elapsed(us))
                    } else {
                        None
                    },
                    None => Some(ProgressReport::Unknown),
                }
            },
            ProgressLine::OutTime(Some(us)) => {
                if self.seen_micros {
                    return None;
                }
                match self.duration_seconds {
                    Some(d) => if d > 0 {
                        Some(ProgressReport::Elapsed(us))
                    } else {
                        None
                    },
                    None => None,
                }
            },
            ProgressLine::End => Some(ProgressReport::Done),
            _ => None,
        }
    }
}

/// What an FFmpeg run gave: its exit code, the tail of its error output and
/// whether it succeeded.
#[derive(Debug, Clone)]
pub struct FfmpegRunResult {
    pub exit_code: Option<i32>,
    pub stderr_tail: String,
    pub success: bool,
}

/// Runs FFmpeg: the process itself is started and watched outside; this
/// module reads its progress lines and keeps the tail of its error output.
pub struct FfmpegProcessRunner;

/// Maximum number of stderr lines retained for diagnostic reporting.
pub const MAX_STDERR_LINES: usize = 25;

/// The last `n` items of a sequence.
pub open spec fn keep_last<T>(s: Seq<T>, n: nat) -> Seq<T> {
    if s.len() > n {
        s.subrange(s.len() - n, s.len() as int)
    } else {
        s
    }
}

/// Lines joined with a separator between them.
pub open spec fn join_with(s: Seq<Seq<char>>, sep: Seq<char>) -> Seq<char>
    decreases s.len(),
{
    if s.len() == 0 {
        seq![]
    } else if s.len() == 1 {
        s[0]
    } else {
        join_with(s.drop_last(), sep) + sep + s.last()
    }
}

/// Joins texts with a separator.
pub fn join_strings(v: &Vec<String>, sep: &str) -> (r: String)
    ensures
        r@ == join_with(strings_view(v@), sep@),
{
    let mut r = String::new();
    let mut i: usize = 0;
    while i < v.len()
        invariant
            i <= v@.len(),
            r@ == join_with(strings_view(v@).subrange(0, i as int), sep@),
        decreases v@.len() - i,
    {
        let ghost prefix = strings_view(v@).subrange(0, i + 1);
        assert(prefix.drop_last() =~= strings_view(v@).subrange(0, i as int));
        if i > 0 {
            r.append(sep);
        }
        r.append(v[i].as_str());
        proof {
            if i == 0 {
                assert(r@ =~= prefix[0]);
            }
        }
        i = i + 1;
    }
    assert(strings_view(v@).subrange(0, v@.len() as int) =~= strings_view(v@));
    r
}

/// The last lines FFmpeg wrote on its error output.
pub struct StderrTail {
    lines: Vec<String>,
}

impl View for StderrTail {
    type V = Seq<Seq<char>>;

    closed spec fn view(&self) -> Seq<Seq<char>> {
        strings_view(self.lines@)
    }
}

/// The lines kept after each line is added in turn.
pub open spec fn tail_after(lines: Seq<Seq<char>>) -> Seq<Seq<char>>
    decreases lines.len(),
{
    if lines.len() == 0 {
        seq![]
    } else {
        keep_last(tail_after(lines.drop_last()).push(lines.last()), 25)
    }
}

impl StderrTail {
    #[verifier::type_invariant]
    spec fn inv(self) -> bool {
        self.lines@.len() <= 25
    }

    pub fn new() -> (t: Self)
        ensures
            t@ == Seq::<Seq<char>>::empty(),
    {
        let t = StderrTail { lines: Vec::new() };
        assert(t@ =~= Seq::<Seq<char>>::empty());
        t
    }

    /// Adds a line, forgetting the oldest one beyond 25.
    pub fn push(&mut self, line: String)
        ensures
            final(self)@ == keep_last(old(self)@.push(line@), 25),
    {
        proof {
            use_type_invariant(&*self);
        }
        let ghost before = self@;
        let mut lines = Vec::new();
        std::mem::swap(&mut lines, &mut self.lines);
        if lines.len() >= MAX_STDERR_LINES {
            lines.remove(0);
            assert(strings_view(lines@) =~= before.subrange(1, before.len() as int));
        } else {
            assert(strings_view(lines@) =~= before);
        }
        lines.push(line);
        proof {
            let s = before.push(line@);
            if before.len() >= 25 {
                assert(strings_view(lines@) =~= s.subrange(s.len() - 25, s.len() as int));
            } else {
                assert(strings_view(lines@) =~= s);
            }
        }
        self.lines = lines;
    }

    /// The kept lines joined with newlines.
    pub fn joined(&self) -> (r: String)
        ensures
            r@ == join_with(self@, "\n"@),
    {
        join_strings(&self.lines, "\n")
    }
}

/// The tail holds the last 25 lines written, whatever came before: adding
/// lines one by one keeps exactly the last 25 of them.
pub proof fn law_tail_keeps_last_lines(lines: Seq<Seq<char>>)
    ensures
        tail_after(lines) == keep_last(lines, 25),
    decreases lines.len(),
{
    if lines.len() > 0 {
        law_tail_keeps_last_lines(lines.drop_last());
        let p = lines.drop_last();
        let k = keep_last(p, 25);
        assert(lines =~= p.push(lines.last()));
        if p.len() >= 25 {
            assert(k.push(lines.last()).subrange(1, 26) =~= lines.subrange(
                lines.len() - 25,
                lines.len() as int,
            ));
        } else {
            assert(k.push(lines.last()) =~= lines);
        }
    }
}


fn push_str(v: &mut Vec<String>, s: &str)
    ensures
        strings_view(final(v)@) == strings_view(old(v)@).push(s@),
{
    v.push(String::from_str(s));
    assert(strings_view(final(v)@) =~= strings_view(old(v)@).push(s@));
}

/// The arguments common to every FFmpeg run: overwrite, machine-readable
/// progress on stdout, errors only, and the first input.
pub open spec fn common_args(input: Seq<char>) -> Seq<Seq<char>> {
    seq!["-y"@, "-progress"@, "pipe:1"@, "-nostats"@, "-loglevel"@, "error"@, "-i"@, input]
}

/// The arguments of a video mux (stream copy) or transcode run.
pub open spec fn video_args_spec(
    video: Seq<char>,
    audio: Option<Seq<char>>,
    output: Seq<char>,
    format: OutputFormat,
    use_copy: bool,
) -> Seq<Seq<char>> {
    let inputs = match audio {
        Some(a) => seq!["-i"@, a, "-map"@, "0:v:0"@, "-map"@, "1:a:0?"@],
        None => seq!["-map"@, "0:v:0?"@, "-map"@, "0:a:0?"@],
    };
    let codecs = if use_copy {
        seq!["-sn"@, "-dn"@, "-c"@, "copy"@]
    } else {
        seq![
            "-sn"@,
            "-dn"@,
            "-c:v"@,
            "libx264"@,
            "-preset"@,
            "fast"@,
            "-pix_fmt"@,
            "yuv420p"@,
            "-c:a"@,
            "aac"@,
            "-b:a"@,
            "192k"@,
        ]
    };
    let container = match format {
        OutputFormat::Mov => seq!["-f"@, "mov"@],
        OutputFormat::Mp4 => seq!["-f"@, "mp4"@, "-movflags"@, "+faststart"@],
        _ => seq![],
    };
    common_args(video) + inputs + codecs + container + seq![output]
}

fn push_common_args(v: &mut Vec<String>, input: &str)
    ensures
        strings_view(final(v)@) == strings_view(old(v)@) + common_args(input@),
{
    let ghost start = strings_view(v@);
    push_str(v, "-y");
    push_str(v, "-progress");
    push_str(v, "pipe:1");
    push_str(v, "-nostats");
    push_str(v, "-loglevel");
    push_str(v, "error");
    push_str(v, "-i");
    push_str(v, input);
    assert(strings_view(v@) =~= start + common_args(input@));
}

/// Builds explicit argument vector for video muxing/transcoding.
pub fn build_video_ffmpeg_args(
    video_input: &str,
    audio_input: Option<&str>,
    output_path: &str,
    format: OutputFormat,
    use_copy: bool,
) -> (r: Vec<String>)
    ensures
        strings_view(r@) == video_args_spec(
            video_input@,
            match audio_input {
                Some(a) => Some(a@),
                None => None,
            },
            output_path@,
            format,
            use_copy,
        ),
{
    let mut args: Vec<String> = Vec::new();
    push_common_args(&mut args, video_input);
    let ghost head = strings_view(args@);
    match audio_input {
        Some(audio) => {
            push_str(&mut args, "-i");
            push_str(&mut args, audio);
            push_str(&mut args, "-map");
            push_str(&mut args, "0:v:0");
            push_str(&mut args, "-map");
            push_str(&mut args, "1:a:0?");
        },
        None => {
            push_str(&mut args, "-map");
            push_str(&mut args, "0:v:0?");
            push_str(&mut args, "-map");
            push_str(&mut args, "0:a:0?");
        },
    }
    let ghost with_inputs = strings_view(args@);
    push_str(&mut args, "-sn");
    push_str(&mut args, "-dn");
    if use_copy {
        push_str(&mut args, "-c");
        push_str(&mut args, "copy");
    } else {
        push_str(&mut args, "-c:v");
        push_str(&mut args, "libx264");
        push_str(&mut args, "-preset");
        push_str(&mut args, "fast");
        push_str(&mut args, "-pix_fmt");
        push_str(&mut args, "yuv420p");
        push_str(&mut args, "-c:a");
        push_str(&mut args, "aac");
        push_str(&mut args, "-b:a");
        push_str(&mut args, "192k");
    }
    let ghost with_codecs = strings_view(args@);
    match format {
        OutputFormat::Mov => {
            push_str(&mut args, "-f");
            push_str(&mut args, "mov");
        },
        OutputFormat::Mp4 => {
            push_str(&mut args, "-f");
            push_str(&mut args, "mp4");
            push_str(&mut args, "-movflags");
            push_str(&mut args, "+faststart");
        },
        _ => {},
    }
    let ghost with_container = strings_view(args@);
    push_str(&mut args, output_path);
    proof {
        let audio = match audio_input {
            Some(a) => Some(a@),
            None => None,
        };
        let inputs = match audio {
            Some(a) => seq!["-i"@, a, "-map"@, "0:v:0"@, "-map"@, "1:a:0?"@],
            None => seq!["-map"@, "0:v:0?"@, "-map"@, "0:a:0?"@],
        };
        assert(with_inputs =~= head + inputs);
        let codecs = if use_copy {
            seq!["-sn"@, "-dn"@, "-c"@, "copy"@]
        } else {
            seq![
                "-sn"@,
                "-dn"@,
                "-c:v"@,
                "libx264"@,
                "-preset"@,
                "fast"@,
                "-pix_fmt"@,
                "yuv420p"@,
                "-c:a"@,
                "aac"@,
                "-b:a"@,
                "192k"@,
            ]
        };
        assert(with_codecs =~= with_inputs + codecs);
        let container = match format {
            OutputFormat::Mov => seq!["-f"@, "mov"@],
            OutputFormat::Mp4 => seq!["-f"@, "mp4"@, "-movflags"@, "+faststart"@],
            _ => seq![],
        };
        assert(with_container =~= with_codecs + container);
        assert(strings_view(args@) =~= video_args_spec(
            video_input@,
            audio,
            output_path@,
            format,
            use_copy,
        ));
    }
    args
}

/// The text of an MP3 bitrate argument, such as `192k`.
pub open spec fn bitrate_arg(kbps: u32) -> Seq<char> {
    decimal(kbps as nat) + "k"@
}

/// The arguments of an audio transcode run.
pub open spec fn audio_args_spec(input: Seq<char>, codec: AudioCodec, output: Seq<char>) -> Seq<
    Seq<char>,
> {
    let select = seq!["-map"@, "0:a:0"@, "-vn"@, "-sn"@, "-dn"@];
    let encode = match codec {
        AudioCodec::Mp3(q) => seq!["-c:a"@, "libmp3lame"@, "-b:a"@, bitrate_arg(mp3_bitrate(q))],
        AudioCodec::Flac => seq!["-c:a"@, "flac"@],
    };
    common_args(input) + select + encode + seq![output]
}

/// Builds the argument vector of an audio transcode.
pub fn build_audio_ffmpeg_args(audio_input: &str, codec: AudioCodec, output_path: &str) -> (r: Vec<
    String,
>)
    ensures
        strings_view(r@) == audio_args_spec(audio_input@, codec, output_path@),
{
    let mut args: Vec<String> = Vec::new();
    push_common_args(&mut args, audio_input);
    let ghost head = strings_view(args@);
    push_str(&mut args, "-map");
    push_str(&mut args, "0:a:0");
    push_str(&mut args, "-vn");
    push_str(&mut args, "-sn");
    push_str(&mut args, "-dn");
    let ghost with_select = strings_view(args@);
    match codec {
        AudioCodec::Mp3(q) => {
            push_str(&mut args, "-c:a");
            push_str(&mut args, "libmp3lame");
            push_str(&mut args, "-b:a");
            let rate = concat_str(u64_to_decimal(q.bitrate_kbps() as u64).as_str(), "k");
            push_str(&mut args, rate.as_str());
        },
        AudioCodec::Flac => {
            push_str(&mut args, "-c:a");
            push_str(&mut args, "flac");
        },
    }
    let ghost with_encode = strings_view(args@);
    push_str(&mut args, output_path);
    proof {
        assert(with_select =~= head + seq!["-map"@, "0:a:0"@, "-vn"@, "-sn"@, "-dn"@]);
        let encode = match codec {
            AudioCodec::Mp3(q) => seq!["-c:a"@, "libmp3lame"@, "-b:a"@, bitrate_arg(mp3_bitrate(q))],
            AudioCodec::Flac => seq!["-c:a"@, "flac"@],
        };
        assert(with_encode =~= with_select + encode);
        assert(strings_view(args@) =~= audio_args_spec(audio_input@, codec, output_path@));
    }
    args
}

/// The extension of an audio codec's files.
pub open spec fn codec_extension(codec: AudioCodec) -> Seq<char> {
    match codec {
        AudioCodec::Mp3(_) => "mp3"@,
        AudioCodec::Flac => "flac"@,
    }
}

pub fn audio_extension(codec: AudioCodec) -> (r: &'static str)
    ensures
        r@ == codec_extension(codec),
{
    match codec {
        AudioCodec::Mp3(_) => "mp3",
        AudioCodec::Flac => "flac",
    }
}

/// A fresh name for a temporary conversion file: the prefix, a random UUID
/// and the extension.
pub fn conversion_temp_name(prefix: &str, ext: &str) -> (r: String)
    ensures
        exists|v: u128| r@ == prefix@ + "_"@ + #[trigger] uuid_hyphenated(v) + "."@ + ext@,
{
    let v = new_uuid_v4();
    let u = uuid_hyphenated_text(v);
    let mut r = concat3(prefix, "_", u.as_str());
    r.append(".");
    r.append(ext);
    assert(r@ == prefix@ + "_"@ + uuid_hyphenated(v) + "."@ + ext@);
    r
}

/// Whether the muxed output must carry audio: a separate audio input was
/// given, or the video input was seen to carry audio.
pub fn expect_audio(has_audio_input: bool, video_input_has_audio: Option<bool>) -> (r: bool)
    ensures
        r == (has_audio_input || video_input_has_audio == Some(true)),
{
    has_audio_input || match video_input_has_audio {
        Some(b) => b,
        None => false,
    }
}

/// The error output reported for a failed video conversion: both attempts'
/// when both wrote some, else the one that did.
pub open spec fn combined_stderr(remux: Seq<char>, transcode: Seq<char>) -> Seq<char> {
    if remux.len() > 0 && transcode.len() > 0 {
        "[Échec Remux -c copy]:\n"@ + remux + "\n\n[Échec Transcodage repli]:\n"@ + transcode
    } else if transcode.len() > 0 {
        transcode
    } else {
        remux
    }
}

/// A failed conversion: `FFMPEG_FAILED` with the message, and the error
/// output when there is some.
pub open spec fn is_conversion_failure(e: CoreError, message: Seq<char>, stderr: Seq<char>) -> bool {
    e matches CoreError::DownloadFailed(d) && d.code == DownloadErrorCode::FfmpegFailed
        && d.message@ == message && d.retryable == crate::error::error_code_retryable(
        DownloadErrorCode::FfmpegFailed,
    ) && (if stderr.len() > 0 {
        d.stderr_tail matches Some(t) && t@ == stderr
    } else {
        d.stderr_tail is None
    })
}

fn conversion_failure(message: &str, stderr: String) -> (e: CoreError)
    ensures
        is_conversion_failure(e, message@, stderr@),
{
    let mut d = DownloadErrorDetails::from_code(DownloadErrorCode::FfmpegFailed);
    d.message = String::from_str(message);
    if stderr.unicode_len() > 0 {
        d.stderr_tail = Some(stderr);
    }
    CoreError::DownloadFailed(d)
}

/// The error when neither the stream copy nor the transcode gave a valid
/// video file.
pub fn video_conversion_failure(remux_tail: &str, transcode_tail: &str) -> (e: CoreError)
    ensures
        is_conversion_failure(
            e,
            "La conversion ou le multiplexage multimédia avec FFmpeg a échoué."@,
            combined_stderr(remux_tail@, transcode_tail@),
        ),
{
    let rn: usize = remux_tail.unicode_len();
    let tn: usize = transcode_tail.unicode_len();
    let combined = if rn > 0 && tn > 0 {
        let mut c = concat3("[Échec Remux -c copy]:\n", remux_tail, "\n\n[Échec Transcodage repli]:\n");
        c.append(transcode_tail);
        c
    } else if tn > 0 {
        String::from_str(transcode_tail)
    } else {
        String::from_str(remux_tail)
    };
    conversion_failure("La conversion ou le multiplexage multimédia avec FFmpeg a échoué.", combined)
}

/// A temporary file of a conversion attempt: inside the directory, named
/// with the attempt's prefix, a UUID and the extension.
pub open spec fn is_attempt_file(path: Seq<char>, dir: Seq<char>, prefix: Seq<char>, ext: Seq<char>) -> bool {
    exists|v: u128| path == join_file(dir, prefix + "_"@ + #[trigger] uuid_hyphenated(v) + "."@ + ext)
}

/// What a conversion does next.
#[derive(Debug)]
pub enum ConversionStep {
    /// Run FFmpeg with the arguments; it writes the temporary file.
    Run(Vec<String>, String),
    /// Keep the temporary file of the last run as the output.
    Keep,
    /// The conversion failed.
    Fail(CoreError),
}

pub struct VideoConversionView {
    pub video: Seq<char>,
    pub audio: Option<Seq<char>>,
    pub format: OutputFormat,
    pub temp_dir: Seq<char>,
    /// The error output of the stream copy, once it was tried and failed.
    pub copy_tail: Option<Seq<char>>,
}

/// Whether a step runs the attempt of the given kind for a conversion: a
/// stream copy or a transcode of its inputs into a fresh temporary file.
pub open spec fn runs_attempt(step: ConversionStep, c: VideoConversionView, use_copy: bool) -> bool {
    step matches ConversionStep::Run(args, out) && is_attempt_file(
        out@,
        c.temp_dir,
        if use_copy {
            "remux"@
        } else {
            "transcode"@
        },
        format_extension(c.format),
    ) && strings_view(args@) == video_args_spec(c.video, c.audio, out@, c.format, use_copy)
}

/// A video conversion: a stream copy first and, when it does not give a
/// valid file, a transcode; when neither does, the conversion fails with
/// the error output of both.
pub struct VideoConversion {
    video_input: String,
    audio_input: Option<String>,
    format: OutputFormat,
    temp_dir: String,
    copy_tail: Option<String>,
}

impl View for VideoConversion {
    type V = VideoConversionView;

    closed spec fn view(&self) -> VideoConversionView {
        VideoConversionView {
            video: self.video_input@,
            audio: opt_view(self.audio_input),
            format: self.format,
            temp_dir: self.temp_dir@,
            copy_tail: opt_view(self.copy_tail),
        }
    }
}

impl VideoConversion {
    fn attempt(&self, use_copy: bool) -> (r: ConversionStep)
        ensures
            runs_attempt(r, self@, use_copy),
    {
        let prefix = if use_copy {
            "remux"
        } else {
            "transcode"
        };
        let name = conversion_temp_name(prefix, self.format.extension());
        let out = join_file_path(self.temp_dir.as_str(), name.as_str());
        let audio = match &self.audio_input {
            Some(a) => Some(a.as_str()),
            None => None,
        };
        let args = build_video_ffmpeg_args(self.video_input.as_str(), audio, out.as_str(), self.format, use_copy);
        ConversionStep::Run(args, out)
    }

    /// Starts a conversion: its first step runs the stream copy.
    pub fn start(
        video_input: String,
        audio_input: Option<String>,
        format: OutputFormat,
        temp_dir: String,
    ) -> (r: (VideoConversion, ConversionStep))
        ensures
            r.0@ == (VideoConversionView {
                video: video_input@,
                audio: opt_view(audio_input),
                format,
                temp_dir: temp_dir@,
                copy_tail: None,
            }),
            runs_attempt(r.1, r.0@, true),
    {
        let c = VideoConversion { video_input, audio_input, format, temp_dir, copy_tail: None };
        let step = c.attempt(true);
        (c, step)
    }

    /// After an attempt ran: its file is kept when it is a valid output;
    /// otherwise a failed stream copy is followed by the transcode, and a
    /// failed transcode fails the conversion.
    pub fn after_attempt(&mut self, valid_output: bool, stderr_tail: String) -> (r: ConversionStep)
        ensures
            valid_output ==> r is Keep && final(self)@ == old(self)@,
            !valid_output && old(self)@.copy_tail is None ==> final(self)@ == (VideoConversionView {
                copy_tail: Some(stderr_tail@),
                ..old(self)@
            }) && runs_attempt(r, final(self)@, false),
            !valid_output && old(self)@.copy_tail is Some ==> final(self)@ == old(self)@ && (
            r matches ConversionStep::Fail(e) && is_conversion_failure(
                e,
                "La conversion ou le multiplexage multimédia avec FFmpeg a échoué."@,
                combined_stderr(old(self)@.copy_tail->0, stderr_tail@),
            )),
    {
        if valid_output {
            return ConversionStep::Keep;
        }
        match &self.copy_tail {
            Some(t) => ConversionStep::Fail(video_conversion_failure(t.as_str(), stderr_tail.as_str())),
            None => {
                self.copy_tail = Some(stderr_tail);
                self.attempt(false)
            },
        }
    }
}

/// The error when the audio transcode did not give a valid file.
pub fn audio_conversion_failure(stderr_tail: &str) -> (e: CoreError)
    ensures
        is_conversion_failure(e, "La conversion audio avec FFmpeg a échoué."@, stderr_tail@),
{
    conversion_failure("La conversion audio avec FFmpeg a échoué.", String::from_str(stderr_tail))
}

/// The error when FFmpeg cannot be started.
pub fn ffmpeg_start_failure(ffmpeg_bin: &str, reason: &str) -> (e: CoreError)
    ensures
        is_failure(
            e,
            DownloadErrorCode::FfmpegFailed,
            "Impossible de démarrer le processus FFmpeg '"@ + ffmpeg_bin@ + "': "@ + reason@,
        ),
{
    let mut m = concat3("Impossible de démarrer le processus FFmpeg '", ffmpeg_bin, "': ");
    m.append(reason);
    CoreError::DownloadFailed(
        DownloadErrorDetails::with_message(DownloadErrorCode::FfmpegFailed, m),
    )
}

/// The error when waiting for FFmpeg fails.
pub fn ffmpeg_wait_failure(reason: &str) -> (e: CoreError)
    ensures
        is_failure(
            e,
            DownloadErrorCode::FfmpegFailed,
            "FFmpeg process wait failure: "@ + reason@,
        ),
{
    CoreError::DownloadFailed(
        DownloadErrorDetails::with_message(
            DownloadErrorCode::FfmpegFailed,
            concat_str("FFmpeg process wait failure: ", reason),
        ),
    )
}

/// The error when an output stream of FFmpeg cannot be captured.
pub fn capture_failure(stream_name: &str) -> (e: CoreError)
    ensures
        e matches CoreError::ConverterError(m) && m@ == "Failed to capture FFmpeg "@
            + stream_name@,
{
    CoreError::ConverterError(concat_str("Failed to capture FFmpeg ", stream_name))
}

/// The error when a converted file can be neither moved nor copied.
pub fn move_failure(src: &str, dst: &str, reason: &str) -> (e: CoreError)
    ensures
        e matches CoreError::ConverterError(m) && m@ == "Failed to copy file from '"@ + src@
            + "' to '"@ + dst@ + "': "@ + reason@,
{
    let mut m = concat3("Failed to copy file from '", src, "' to '");
    m.append(dst);
    m.append("': ");
    m.append(reason);
    CoreError::ConverterError(m)
}

/// The error when FFmpeg or FFprobe cannot be found.
pub fn ffmpeg_not_found() -> (e: CoreError)
    ensures
        e matches CoreError::DownloadFailed(d) && d.code == DownloadErrorCode::FfmpegNotFound
            && d.message@ == crate::error::error_code_text(DownloadErrorCode::FfmpegNotFound)
            && d.stderr_tail is None,
{
    CoreError::DownloadFailed(DownloadErrorDetails::from_code(DownloadErrorCode::FfmpegNotFound))
}

/// Summary metadata extracted by FFprobe.
#[derive(Debug)]
pub struct MediaInspection {
    pub has_video: bool,
    pub video_codec: Option<String>,
    pub has_audio: bool,
    pub audio_codec: Option<String>,
    pub audio_bitrate: Option<u64>,
}

pub struct InspectionView {
    pub has_video: bool,
    pub video_codec: Option<Seq<char>>,
    pub has_audio: bool,
    pub audio_codec: Option<Seq<char>>,
    pub audio_bitrate: Option<u64>,
}

impl View for MediaInspection {
    type V = InspectionView;

    open spec fn view(&self) -> InspectionView {
        InspectionView {
            has_video: self.has_video,
            video_codec: opt_view(self.video_codec),
            has_audio: self.has_audio,
            audio_codec: opt_view(self.audio_codec),
            audio_bitrate: self.audio_bitrate,
        }
    }
}

pub open spec fn empty_inspection() -> InspectionView {
    InspectionView {
        has_video: false,
        video_codec: None,
        has_audio: false,
        audio_codec: None,
        audio_bitrate: None,
    }
}

/// The summary updated with one stream: the first video and audio codecs are
/// kept, and the bitrate of the last audio stream that gives a readable one.
pub open spec fn inspect_step(acc: InspectionView, s: RecordView) -> InspectionView {
    let kind = match text_field(s, "codec_type"@) {
        Some(t) => t,
        None => seq![],
    };
    let name = text_field(s, "codec_name"@);
    if kind == "video"@ {
        InspectionView {
            has_video: true,
            video_codec: if acc.video_codec is None {
                name
            } else {
                acc.video_codec
            },
            ..acc
        }
    } else if kind == "audio"@ {
        let bitrate = match crate::json::field_of(s, "bit_rate"@) {
            crate::json::JsonScalarView::Text(t) => match parse_u64_spec(t) {
                Some(b) => Some(b),
                None => acc.audio_bitrate,
            },
            crate::json::JsonScalarView::Unsigned(n) => Some(n),
            crate::json::JsonScalarView::Other => acc.audio_bitrate,
        };
        InspectionView {
            has_audio: true,
            audio_codec: if acc.audio_codec is None {
                name
            } else {
                acc.audio_codec
            },
            audio_bitrate: bitrate,
            ..acc
        }
    } else {
        acc
    }
}

/// The summary of a list of streams.
pub open spec fn summarize_spec(s: Seq<RecordView>) -> InspectionView
    decreases s.len(),
{
    if s.len() == 0 {
        empty_inspection()
    } else {
        inspect_step(summarize_spec(s.drop_last()), s.last())
    }
}

fn str_is(a: &str, b: &str) -> (r: bool)
    ensures
        r == (a@ == b@),
{
    let x = to_chars(a);
    let y = to_chars(b);
    if x.len() != y.len() {
        return false;
    }
    let r = chars_starts_with(&x, &y);
    proof {
        if r {
            assert(x@.subrange(0, y@.len() as int) =~= x@);
        }
        if a@ == b@ {
            assert(x@.subrange(0, y@.len() as int) =~= x@);
        }
    }
    r
}

/// Summarizes the streams FFprobe reported.
pub fn summarize_streams(streams: &Vec<JsonRecord>) -> (r: MediaInspection)
    ensures
        r@ == summarize_spec(records_view(streams@)),
{
    let mut r = MediaInspection {
        has_video: false,
        video_codec: None,
        has_audio: false,
        audio_codec: None,
        audio_bitrate: None,
    };
    let mut i: usize = 0;
    while i < streams.len()
        invariant
            i <= streams@.len(),
            r@ == summarize_spec(records_view(streams@).subrange(0, i as int)),
        decreases streams@.len() - i,
    {
        let s = &streams[i];
        let ghost sv = record_view(*s);
        assert(records_view(streams@)[i as int] == sv);
        assert(records_view(streams@).subrange(0, i + 1).drop_last() =~= records_view(
            streams@,
        ).subrange(0, i as int));
        let kind = match s.text("codec_type") {
            Some(t) => t,
            None => String::new(),
        };
        let name = s.text("codec_name");
        if str_is(kind.as_str(), "video") {
            r.has_video = true;
            if r.video_codec.is_none() {
                r.video_codec = name;
            }
        } else if str_is(kind.as_str(), "audio") {
            r.has_audio = true;
            if r.audio_codec.is_none() {
                r.audio_codec = name;
            }
            match s.field("bit_rate") {
                crate::json::JsonScalar::Text(t) => {
                    let tc = to_chars(t.as_str());
                    match parse_u64_chars(&tc) {
                        Some(b) => {
                            r.audio_bitrate = Some(b);
                        },
                        None => {},
                    }
                },
                crate::json::JsonScalar::Unsigned(n) => {
                    r.audio_bitrate = Some(n);
                },
                crate::json::JsonScalar::Other => {},
            }
        }
        i = i + 1;
    }
    assert(records_view(streams@).subrange(0, streams@.len() as int) =~= records_view(streams@));
    r
}

/// Whether FFprobe's run gave the expected summary, or the expected error.
pub open spec fn inspection_outcome(
    r: Result<MediaInspection, CoreError>,
    success: bool,
    stdout: Seq<char>,
    stderr: Seq<char>,
    path: Seq<char>,
) -> bool {
    if !success {
        r matches Err(CoreError::DownloadFailed(d)) && d.code == DownloadErrorCode::FfmpegFailed
            && d.message@ == "ffprobe verification failed on '"@ + path + "'"@ && d.retryable
            == crate::error::error_code_retryable(DownloadErrorCode::FfmpegFailed)
            && (d.stderr_tail matches Some(t) && t@ == trim(stderr))
    } else {
        match json_document(stdout, "streams"@) {
            Err(m) => r matches Err(CoreError::ConverterError(x)) && x@
                == "Failed to parse ffprobe JSON output: "@ + m,
            Ok((_, None)) => r matches Ok(i) && i@ == empty_inspection(),
            Ok((_, Some(list))) => r matches Ok(i) && i@ == summarize_spec(list),
        }
    }
}

/// Reads FFprobe's report on a file from its run: a failed run is an
/// `FFMPEG_FAILED` error with the trimmed error output, unparsable output a
/// converter error.
pub fn inspection_from_output(success: bool, stdout: &str, stderr: &str, media_path: &str) -> (r:
    Result<MediaInspection, CoreError>)
    ensures
        inspection_outcome(r, success, stdout@, stderr@, media_path@),
{
    if !success {
        let mut d = DownloadErrorDetails::from_code(DownloadErrorCode::FfmpegFailed);
        d.message = concat3("ffprobe verification failed on '", media_path, "'");
        d.stderr_tail = Some(trim_str(stderr));
        return Err(CoreError::DownloadFailed(d));
    }
    match parse_json_document(stdout, "streams") {
        Err(m) => Err(
            CoreError::ConverterError(
                concat_str("Failed to parse ffprobe JSON output: ", m.as_str()),
            ),
        ),
        Ok((_, None)) => Ok(
            MediaInspection {
                has_video: false,
                video_codec: None,
                has_audio: false,
                audio_codec: None,
                audio_bitrate: None,
            },
        ),
        Ok((_, Some(list))) => Ok(summarize_streams(&list)),
    }
}

/// The error when FFprobe cannot be run on a file.
pub fn ffprobe_spawn_failure(media_path: &str, reason: &str) -> (e: CoreError)
    ensures
        e matches CoreError::ConverterError(m) && m@ == "Failed to execute ffprobe on '"@
            + media_path@ + "': "@ + reason@,
{
    let mut m = concat3("Failed to execute ffprobe on '", media_path, "': ");
    m.append(reason);
    CoreError::ConverterError(m)
}

fn ffmpeg_failed(message: String) -> (e: CoreError)
    ensures
        is_failure(e, DownloadErrorCode::FfmpegFailed, message@),
{
    CoreError::DownloadFailed(
        DownloadErrorDetails::with_message(DownloadErrorCode::FfmpegFailed, message),
    )
}

/// A generated audio file must have an audio stream with the expected codec
/// (when FFprobe names one).
pub open spec fn audio_validation_ok(i: InspectionView, codec: Seq<char>) -> bool {
    i.has_audio && !(i.audio_codec matches Some(c) && c != codec)
}

fn validate_audio_output(
    inspection: &MediaInspection,
    media_path: &str,
    label: &str,
    codec: &str,
) -> (r: Result<(), CoreError>)
    ensures
        !inspection.has_audio ==> (r matches Err(e) && is_failure(
            e,
            DownloadErrorCode::FfmpegFailed,
            "Generated "@ + label@ + " file '"@ + media_path@ + "' contains no audio stream"@,
        )),
        (inspection.has_audio && (inspection@.audio_codec matches Some(c) && c != codec@)) ==> (
        r matches Err(e) && is_failure(
            e,
            DownloadErrorCode::FfmpegFailed,
            "Generated file '"@ + media_path@ + "' codec is '"@ + inspection@.audio_codec->0
                + "', expected '"@ + codec@ + "'"@,
        )),
        audio_validation_ok(inspection@, codec@) ==> r is Ok,
{
    if !inspection.has_audio {
        let mut m = concat3("Generated ", label, " file '");
        m.append(media_path);
        m.append("' contains no audio stream");
        return Err(ffmpeg_failed(m));
    }
    match &inspection.audio_codec {
        Some(c) => {
            if !str_is(c.as_str(), codec) {
                let mut m = concat3("Generated file '", media_path, "' codec is '");
                m.append(c.as_str());
                m.append("', expected '");
                m.append(codec);
                m.append("'");
                return Err(ffmpeg_failed(m));
            }
        },
        None => {},
    }
    Ok(())
}

/// The checks FFprobe's report on a generated file must pass.
pub struct FfprobeInspector;

impl FfprobeInspector {
    /// A generated video must have a video stream, and the audio stream it is
    /// expected to carry.
    pub fn validate_video_output(inspection: &MediaInspection, media_path: &str, expect_audio: bool) -> (r:
        Result<(), CoreError>)
        ensures
            !inspection.has_video ==> (r matches Err(e) && is_failure(
                e,
                DownloadErrorCode::FfmpegFailed,
                "Generated file '"@ + media_path@ + "' contains no video stream"@,
            )),
            inspection.has_video && expect_audio && !inspection.has_audio ==> (r matches Err(e)
                && is_failure(
                e,
                DownloadErrorCode::FfmpegFailed,
                "Generated file '"@ + media_path@ + "' is missing the expected audio stream"@,
            )),
            inspection.has_video && !(expect_audio && !inspection.has_audio) ==> r is Ok,
    {
        if !inspection.has_video {
            return Err(
                ffmpeg_failed(concat3("Generated file '", media_path, "' contains no video stream")),
            );
        }
        if expect_audio && !inspection.has_audio {
            return Err(
                ffmpeg_failed(
                    concat3("Generated file '", media_path, "' is missing the expected audio stream"),
                ),
            );
        }
        Ok(())
    }

    /// A generated MP3 file must have an audio stream with the `mp3` codec.
    pub fn validate_mp3_output(inspection: &MediaInspection, media_path: &str) -> (r: Result<
        (),
        CoreError,
    >)
        ensures
            !inspection.has_audio ==> (r matches Err(e) && is_failure(
                e,
                DownloadErrorCode::FfmpegFailed,
                "Generated MP3 file '"@ + media_path@ + "' contains no audio stream"@,
            )),
            (inspection.has_audio && (inspection@.audio_codec matches Some(c) && c != "mp3"@)) ==> (
            r matches Err(e) && is_failure(
                e,
                DownloadErrorCode::FfmpegFailed,
                "Generated file '"@ + media_path@ + "' codec is '"@ + inspection@.audio_codec->0
                    + "', expected 'mp3'"@,
            )),
            audio_validation_ok(inspection@, "mp3"@) ==> r is Ok,
    {
        proof {
            reveal_strlit("MP3");
            reveal_strlit("mp3");
            reveal_strlit("', expected '");
            reveal_strlit("'");
            reveal_strlit("', expected 'mp3'");
            reveal_strlit("Generated ");
            reveal_strlit(" file '");
            reveal_strlit("Generated MP3 file '");
        }
        let r = validate_audio_output(inspection, media_path, "MP3", "mp3");
        proof {
            assert("Generated "@ + "MP3"@ + " file '"@ =~= "Generated MP3 file '"@);
            assert("', expected '"@ + "mp3"@ + "'"@ =~= "', expected 'mp3'"@);
            match inspection@.audio_codec {
                Some(c) => {
                    let pre = "Generated file '"@ + media_path@ + "' codec is '"@ + c;
                    assert(pre + "', expected '"@ + "mp3"@ + "'"@ =~= pre + "', expected 'mp3'"@);
                },
                None => {},
            }
        }
        r
    }

    /// A generated FLAC file must have an audio stream with the `flac` codec.
    pub fn validate_flac_output(inspection: &MediaInspection, media_path: &str) -> (r: Result<
        (),
        CoreError,
    >)
        ensures
            !inspection.has_audio ==> (r matches Err(e) && is_failure(
                e,
                DownloadErrorCode::FfmpegFailed,
                "Generated FLAC file '"@ + media_path@ + "' contains no audio stream"@,
            )),
            (inspection.has_audio && (inspection@.audio_codec matches Some(c) && c != "flac"@)) ==> (
            r matches Err(e) && is_failure(
                e,
                DownloadErrorCode::FfmpegFailed,
                "Generated file '"@ + media_path@ + "' codec is '"@ + inspection@.audio_codec->0
                    + "', expected 'flac'"@,
            )),
            audio_validation_ok(inspection@, "flac"@) ==> r is Ok,
    {
        proof {
            reveal_strlit("FLAC");
            reveal_strlit("flac");
            reveal_strlit("', expected '");
            reveal_strlit("'");
            reveal_strlit("', expected 'flac'");
            reveal_strlit("Generated ");
            reveal_strlit(" file '");
            reveal_strlit("Generated FLAC file '");
        }
        let r = validate_audio_output(inspection, media_path, "FLAC", "flac");
        proof {
            assert("Generated "@ + "FLAC"@ + " file '"@ =~= "Generated FLAC file '"@);
            assert("', expected '"@ + "flac"@ + "'"@ =~= "', expected 'flac'"@);
            match inspection@.audio_codec {
                Some(c) => {
                    let pre = "Generated file '"@ + media_path@ + "' codec is '"@ + c;
                    assert(pre + "', expected '"@ + "flac"@ + "'"@ =~= pre + "', expected 'flac'"@);
                },
                None => {},
            }
        }
        r
    }
}

/// Diagnostic availability status for FFmpeg.
#[derive(Debug, Clone)]
pub struct FfmpegAvailability {
    pub is_ready: bool,
    pub version: Option<String>,
    pub binary_path: Option<String>,
    pub status_message: String,
}

/// The availability reported for the outcome of resolving FFmpeg.
pub fn ffmpeg_availability(resolved: &Result<ResolvedBinary, BinResError>) -> (r: FfmpegAvailability)
    ensures
        match resolved {
            Ok(b) => r.is_ready && opt_view(r.version) == Some(b.version@) && opt_view(r.binary_path)
                == Some(b.path@) && r.status_message@ == "FFmpeg version "@ + b.version@
                + " prête"@,
            Err(e) => !r.is_ready && r.version is None && r.binary_path is None
                && r.status_message@ == "FFmpeg indisponible: "@ + binres_error_text(*e),
        },
{
    match resolved {
        Ok(b) => FfmpegAvailability {
            is_ready: true,
            version: Some(b.version.clone()),
            binary_path: Some(b.path.clone()),
            status_message: concat3("FFmpeg version ", b.version.as_str(), " prête"),
        },
        Err(e) => FfmpegAvailability {
            is_ready: false,
            version: None,
            binary_path: None,
            status_message: concat_str("FFmpeg indisponible: ", e.message().as_str()),
        },
    }
}

/// An MP3 transcode asks the encoder for the bitrate the quality's label
/// shows: `-b:a` is followed by the label's number and `k` (`256 kb/s` gives
/// `-b:a 256k`).
pub proof fn law_mp3_args_use_label_bitrate(input: Seq<char>, q: Mp3Quality, output: Seq<char>)
    ensures
        ({
            let args = audio_args_spec(input, AudioCodec::Mp3(q), output);
            exists|i: int|
                0 <= i && i + 1 < args.len() && #[trigger] args[i] == "-b:a"@ && args[i + 1]
                    == crate::format::mp3_label(q).subrange(0, 3) + "k"@
        }),
{
    crate::format::law_mp3_bitrate_matches_label(q);
    let args = audio_args_spec(input, AudioCodec::Mp3(q), output);
    assert(args[15] == "-b:a"@);
    assert(args[16] == bitrate_arg(mp3_bitrate(q)));
    assert(args[16] == crate::format::mp3_label(q).subrange(0, 3) + "k"@);
}

/// A stream that FFprobe reports with the given `codec_type`.
pub open spec fn stream_is(r: RecordView, kind: Seq<char>) -> bool {
    text_field(r, "codec_type"@) == Some(kind)
}

/// A stream of the given type that names its codec.
pub open spec fn names_codec(r: RecordView, kind: Seq<char>) -> bool {
    stream_is(r, kind) && text_field(r, "codec_name"@) is Some
}

#[verifier::rlimit(40)]
proof fn lemma_first_video(s: Seq<RecordView>)
    ensures
        summarize_spec(s).has_video <==> exists|j: int| 0 <= j < s.len() && stream_is(#[trigger] s[j], "video"@),
        (forall|j: int| 0 <= j < s.len() ==> !names_codec(#[trigger] s[j], "video"@))
            ==> summarize_spec(s).video_codec is None,
        forall|k: int|
            0 <= k < s.len() && names_codec(#[trigger] s[k], "video"@) && (forall|j: int|
                0 <= j < k ==> !names_codec(#[trigger] s[j], "video"@)) ==> summarize_spec(s).video_codec
                == text_field(s[k], "codec_name"@),
    decreases s.len(),
{
    reveal_strlit("video");
    reveal_strlit("audio");
    assert("video"@.len() == 5);
    assert("video"@ != "audio"@) by {
        assert("video"@[0] != "audio"@[0]);
    }
    if s.len() > 0 {
        let d = s.drop_last();
        let x = s.last();
        lemma_first_video(d);
        assert(s[s.len() - 1] == x);
        let kind = match text_field(x, "codec_type"@) {
            Some(t) => t,
            None => seq![],
        };
        if text_field(x, "codec_type"@) is None {
            assert(kind.len() == 0);
        }
        assert((kind == "video"@) == stream_is(x, "video"@));
        let acc = summarize_spec(d);
        let r = summarize_spec(s);
        assert(r == inspect_step(acc, x));
        if stream_is(x, "video"@) {
            assert(r.has_video);
            assert(r.video_codec == (if acc.video_codec is None {
                text_field(x, "codec_name"@)
            } else {
                acc.video_codec
            }));
        } else {
            assert(r.has_video == acc.has_video);
            assert(r.video_codec == acc.video_codec);
        }
        if exists|j: int| 0 <= j < d.len() && stream_is(#[trigger] d[j], "video"@) {
            let j = choose|j: int| 0 <= j < d.len() && stream_is(#[trigger] d[j], "video"@);
            assert(s[j] == d[j]);
        }
        if exists|j: int| 0 <= j < s.len() && stream_is(#[trigger] s[j], "video"@) {
            let j = choose|j: int| 0 <= j < s.len() && stream_is(#[trigger] s[j], "video"@);
            if j < d.len() {
                assert(d[j] == s[j]);
            }
        }
        assert forall|k: int|
            0 <= k < s.len() && names_codec(#[trigger] s[k], "video"@) && (forall|j: int|
                0 <= j < k ==> !names_codec(#[trigger] s[j], "video"@)) implies r.video_codec
            == text_field(s[k], "codec_name"@) by {
            if k < d.len() {
                assert(d[k] == s[k]);
                assert forall|j: int| 0 <= j < k implies !names_codec(#[trigger] d[j], "video"@) by {
                    assert(d[j] == s[j]);
                }
            } else {
                assert forall|j: int| 0 <= j < d.len() implies !names_codec(#[trigger] d[j], "video"@) by {
                    assert(d[j] == s[j]);
                }
            }
        }
        if forall|j: int| 0 <= j < s.len() ==> !names_codec(#[trigger] s[j], "video"@) {
            assert forall|j: int| 0 <= j < d.len() implies !names_codec(#[trigger] d[j], "video"@) by {
                assert(d[j] == s[j]);
            }
            assert(!names_codec(s[s.len() - 1], "video"@));
        }
    }
}

#[verifier::rlimit(40)]
proof fn lemma_first_audio(s: Seq<RecordView>)
    ensures
        summarize_spec(s).has_audio <==> exists|j: int| 0 <= j < s.len() && stream_is(#[trigger] s[j], "audio"@),
        (forall|j: int| 0 <= j < s.len() ==> !names_codec(#[trigger] s[j], "audio"@))
            ==> summarize_spec(s).audio_codec is None,
        forall|k: int|
            0 <= k < s.len() && names_codec(#[trigger] s[k], "audio"@) && (forall|j: int|
                0 <= j < k ==> !names_codec(#[trigger] s[j], "audio"@)) ==> summarize_spec(s).audio_codec
                == text_field(s[k], "codec_name"@),
    decreases s.len(),
{
    reveal_strlit("video");
    reveal_strlit("audio");
    assert("audio"@.len() == 5);
    assert("audio"@ != "video"@) by {
        assert("audio"@[0] != "video"@[0]);
    }
    if s.len() > 0 {
        let d = s.drop_last();
        let x = s.last();
        lemma_first_audio(d);
        assert(s[s.len() - 1] == x);
        let kind = match text_field(x, "codec_type"@) {
            Some(t) => t,
            None => seq![],
        };
        if text_field(x, "codec_type"@) is None {
            assert(kind.len() == 0);
        }
        assert((kind == "audio"@) == stream_is(x, "audio"@));
        let acc = summarize_spec(d);
        let r = summarize_spec(s);
        assert(r == inspect_step(acc, x));
        if stream_is(x, "audio"@) {
            assert(r.has_audio);
            assert(r.audio_codec == (if acc.audio_codec is None {
                text_field(x, "codec_name"@)
            } else {
                acc.audio_codec
            }));
        } else {
            assert(r.has_audio == acc.has_audio);
            assert(r.audio_codec == acc.audio_codec);
        }
        if exists|j: int| 0 <= j < d.len() && stream_is(#[trigger] d[j], "audio"@) {
            let j = choose|j: int| 0 <= j < d.len() && stream_is(#[trigger] d[j], "audio"@);
            assert(s[j] == d[j]);
        }
        if exists|j: int| 0 <= j < s.len() && stream_is(#[trigger] s[j], "audio"@) {
            let j = choose|j: int| 0 <= j < s.len() && stream_is(#[trigger] s[j], "audio"@);
            if j < d.len() {
                assert(d[j] == s[j]);
            }
        }
        assert forall|k: int|
            0 <= k < s.len() && names_codec(#[trigger] s[k], "audio"@) && (forall|j: int|
                0 <= j < k ==> !names_codec(#[trigger] s[j], "audio"@)) implies r.audio_codec
            == text_field(s[k], "codec_name"@) by {
            if k < d.len() {
                assert(d[k] == s[k]);
                assert forall|j: int| 0 <= j < k implies !names_codec(#[trigger] d[j], "audio"@) by {
                    assert(d[j] == s[j]);
                }
            } else {
                assert forall|j: int| 0 <= j < d.len() implies !names_codec(#[trigger] d[j], "audio"@) by {
                    assert(d[j] == s[j]);
                }
            }
        }
        if forall|j: int| 0 <= j < s.len() ==> !names_codec(#[trigger] s[j], "audio"@) {
            assert forall|j: int| 0 <= j < d.len() implies !names_codec(#[trigger] d[j], "audio"@) by {
                assert(d[j] == s[j]);
            }
            assert(!names_codec(s[s.len() - 1], "audio"@));
        }
    }
}

/// A media's video codec is the codec named by its first video stream that
/// names one (a later video stream, such as an embedded cover picture, never
/// replaces it), and likewise for audio; a media has video or audio exactly
/// when some stream is of that type.
pub proof fn law_summary_keeps_first_codecs(s: Seq<RecordView>)
    ensures
        summarize_spec(s).has_video <==> exists|j: int| 0 <= j < s.len() && stream_is(#[trigger] s[j], "video"@),
        summarize_spec(s).has_audio <==> exists|j: int| 0 <= j < s.len() && stream_is(#[trigger] s[j], "audio"@),
        (forall|j: int| 0 <= j < s.len() ==> !names_codec(#[trigger] s[j], "video"@))
            ==> summarize_spec(s).video_codec is None,
        (forall|j: int| 0 <= j < s.len() ==> !names_codec(#[trigger] s[j], "audio"@))
            ==> summarize_spec(s).audio_codec is None,
        forall|k: int|
            0 <= k < s.len() && names_codec(#[trigger] s[k], "video"@) && (forall|j: int|
                0 <= j < k ==> !names_codec(#[trigger] s[j], "video"@)) ==> summarize_spec(s).video_codec
                == text_field(s[k], "codec_name"@),
        forall|k: int|
            0 <= k < s.len() && names_codec(#[trigger] s[k], "audio"@) && (forall|j: int|
                0 <= j < k ==> !names_codec(#[trigger] s[j], "audio"@)) ==> summarize_spec(s).audio_codec
                == text_field(s[k], "codec_name"@),
{
    lemma_first_video(s);
    lemma_first_audio(s);
}

} // verus!
