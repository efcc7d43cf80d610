//! Download jobs and their lifecycle.
//!
//! A job moves forward through `Queued`, `Preparing`, `Downloading`,
//! `Converting`, `Finalizing` and `Completed`; it may fail or be canceled from
//! any state that is not terminal. `Completed`, `Failed` and `Canceled` are
//! terminal: nothing moves a job out of them.
use vstd::prelude::*;

use crate::error::{CoreError, DownloadErrorDetails};
use crate::format::DownloadPreset;
use crate::media_url::MediaUrl;

verus! {

/// Lower-case hexadecimal digit.
pub open spec fn hex_digit(d: nat) -> char {
    if d < 10 {
        (('0' as nat) + d) as char
    } else {
        (('a' as nat) + d - 10) as char
    }
}

/// The last `count` hexadecimal digits of `n`, most significant first.
pub open spec fn hex_digits(n: nat, count: nat) -> Seq<char>
    decreases count,
{
    if count == 0 {
        Seq::empty()
    } else {
        hex_digits(n / 16, (count - 1) as nat).push(hex_digit(n % 16))
    }
}

/// The hyphenated form of a UUID: 32 lower-case hexadecimal digits grouped
/// 8-4-4-4-12.
pub open spec fn uuid_hyphenated(v: u128) -> Seq<char> {
    let h = hex_digits(v as nat, 32);
    h.subrange(0, 8) + seq!['-'] + h.subrange(8, 12) + seq!['-'] + h.subrange(12, 16) + seq!['-']
        + h.subrange(16, 20) + seq!['-'] + h.subrange(20, 32)
}

/// The simple form of a UUID: 32 lower-case hexadecimal digits.
pub open spec fn uuid_simple(v: u128) -> Seq<char> {
    hex_digits(v as nat, 32)
}

/// A random (version 4) UUID, as its 128-bit value: the version digit is 4
/// and the two variant bits are `10`; the other 122 bits are random.
pub open spec fn is_uuid_v4(v: u128) -> bool {
    v & 0xF000C000000000000000u128 == 0x40008000000000000000u128
}

/// A fresh random UUID from `uuid::Uuid::new_v4`, as its 128-bit value.
///
/// Trusted: the value is a version 4 UUID of the RFC 4122 variant, as
/// `new_v4` sets those bits over random ones; nothing else is claimed of it.
#[verifier::external_body]
pub(crate) fn new_uuid_v4() -> (v: u128)
    ensures
        is_uuid_v4(v),
{
    uuid::Uuid::new_v4().as_u128()
}

/// `uuid::Uuid::from_u128(v).hyphenated().to_string()`.
///
/// Trusted: the text is the documented hyphenated form of the value.
#[verifier::external_body]
pub(crate) fn uuid_hyphenated_text(v: u128) -> (s: String)
    ensures
        s@ == uuid_hyphenated(v),
{
    uuid::Uuid::from_u128(v).hyphenated().to_string()
}

/// `uuid::Uuid::from_u128(v).simple().to_string()`.
///
/// Trusted: the text is the documented simple form of the value.
#[verifier::external_body]
pub(crate) fn uuid_simple_text(v: u128) -> (s: String)
    ensures
        s@ == uuid_simple(v),
{
    uuid::Uuid::from_u128(v).simple().to_string()
}

/// What `uuid::Uuid::parse_str` reads from a text, as a 128-bit value.
pub uninterp spec fn uuid_parse(text: Seq<char>) -> Option<u128>;

/// `uuid::Uuid::parse_str(text)`, as a 128-bit value.
///
/// Trusted: the result is a function of the text, named `uuid_parse`; the
/// hyphenated form of a UUID (which the parser accepts) reads back as that
/// UUID.
#[verifier::external_body]
pub(crate) fn parse_uuid_text(text: &str) -> (r: Option<u128>)
    ensures
        r == uuid_parse(text@),
        forall|v: u128| text@ == #[trigger] uuid_hyphenated(v) ==> r == Some(v),
{
    uuid::Uuid::parse_str(text).ok().map(|u| u.as_u128())
}

/// Identifier of a download job: the 128-bit value of a random UUID.
#[derive(Debug, Clone, Copy, PartialEq, Eq, Hash, Structural)]
pub struct DownloadId(pub u128);

impl DownloadId {
    /// A fresh random identifier: a version 4 UUID.
    pub fn new() -> (id: DownloadId)
        ensures
            is_uuid_v4(id.0),
    {
        DownloadId(new_uuid_v4())
    }

    /// The hyphenated UUID text of this identifier.
    pub fn to_text(&self) -> (s: String)
        ensures
            s@ == uuid_hyphenated(self.0),
    {
        uuid_hyphenated_text(self.0)
    }

    /// Reads an identifier from its UUID text.
    pub fn try_from_text(text: &str) -> (r: Result<DownloadId, CoreError>)
        ensures
            match uuid_parse(text@) {
                Some(v) => r matches Ok(id) && id.0 == v,
                None => r matches Err(CoreError::ValidationError(m)) && m@ == "Invalid download id '"@
                    + text@ + "'"@,
            },
            forall|v: u128| text@ == #[trigger] uuid_hyphenated(v) ==> (r matches Ok(id) && id.0 == v),
    {
        match parse_uuid_text(text) {
            Some(v) => Ok(DownloadId(v)),
            None => Err(
                CoreError::ValidationError(crate::text::concat3("Invalid download id '", text, "'")),
            ),
        }
    }
}

/// Status of a download job.
#[derive(Debug, Clone, Copy, PartialEq, Eq, Hash, Structural)]
pub enum DownloadStatus {
    Queued,
    Preparing,
    Downloading,
    Converting,
    Finalizing,
    Completed,
    Failed,
    Canceled,
}

pub open spec fn is_terminal_status(s: DownloadStatus) -> bool {
    s == DownloadStatus::Completed || s == DownloadStatus::Failed || s == DownloadStatus::Canceled
}

/// Position of a status along the pipeline; terminal states come last.
pub open spec fn status_rank(s: DownloadStatus) -> int {
    match s {
        DownloadStatus::Queued => 0,
        DownloadStatus::Preparing => 1,
        DownloadStatus::Downloading => 2,
        DownloadStatus::Converting => 3,
        DownloadStatus::Finalizing => 4,
        _ => 5,
    }
}

fn status_is_terminal(s: DownloadStatus) -> (b: bool)
    ensures
        b == is_terminal_status(s),
{
    match s {
        DownloadStatus::Completed | DownloadStatus::Failed | DownloadStatus::Canceled => true,
        _ => false,
    }
}

fn status_rank_exec(s: DownloadStatus) -> (r: u8)
    ensures
        r as int == status_rank(s),
{
    match s {
        DownloadStatus::Queued => 0,
        DownloadStatus::Preparing => 1,
        DownloadStatus::Downloading => 2,
        DownloadStatus::Converting => 3,
        DownloadStatus::Finalizing => 4,
        _ => 5,
    }
}

pub open spec fn opt_str_view(o: Option<String>) -> Option<Seq<char>> {
    match o {
        Some(s) => Some(s@),
        None => None,
    }
}

/// The abstract state of a job.
pub struct DownloadJobView {
    pub id: DownloadId,
    pub url: Seq<char>,
    pub preset: DownloadPreset,
    pub title: Option<Seq<char>>,
    pub status: DownloadStatus,
    pub progress_percent: Option<u8>,
    pub downloaded_bytes: Option<u64>,
    pub total_bytes: Option<u64>,
    pub speed_bytes_per_second: Option<u64>,
    pub destination_path: Option<Seq<char>>,
    pub error_message: Option<Seq<char>>,
    pub error_details: Option<DownloadErrorDetails>,
}

/// A download job.
#[derive(Debug)]
pub struct DownloadJob {
    id: DownloadId,
    url: MediaUrl,
    preset: DownloadPreset,
    title: Option<String>,
    status: DownloadStatus,
    progress_percent: Option<u8>,
    downloaded_bytes: Option<u64>,
    total_bytes: Option<u64>,
    speed_bytes_per_second: Option<u64>,
    destination_path: Option<String>,
    error_message: Option<String>,
    error_details: Option<DownloadErrorDetails>,
}

impl View for DownloadJob {
    type V = DownloadJobView;

    closed spec fn view(&self) -> DownloadJobView {
        DownloadJobView {
            id: self.id,
            url: self.url@,
            preset: self.preset,
            title: opt_str_view(self.title),
            status: self.status,
            progress_percent: self.progress_percent,
            downloaded_bytes: self.downloaded_bytes,
            total_bytes: self.total_bytes,
            speed_bytes_per_second: self.speed_bytes_per_second,
            destination_path: opt_str_view(self.destination_path),
            error_message: opt_str_view(self.error_message),
            error_details: self.error_details,
        }
    }
}

/// A new job: queued, with no title, progress, destination or error.
pub open spec fn queued_job(id: DownloadId, url: Seq<char>, preset: DownloadPreset) -> DownloadJobView {
    DownloadJobView {
        id,
        url,
        preset,
        title: None,
        status: DownloadStatus::Queued,
        progress_percent: None,
        downloaded_bytes: None,
        total_bytes: None,
        speed_bytes_per_second: None,
        destination_path: None,
        error_message: None,
        error_details: None,
    }
}

/// The job after moving to a pipeline phase; entering `Converting` clears
/// the download percentage and speed.
pub open spec fn advanced(j: DownloadJobView, target: DownloadStatus) -> DownloadJobView {
    if target == DownloadStatus::Converting {
        DownloadJobView {
            status: target,
            progress_percent: None,
            speed_bytes_per_second: None,
            ..j
        }
    } else {
        DownloadJobView { status: target, ..j }
    }
}

/// Whether a job may move to a pipeline phase: it is not terminal and the
/// phase lies ahead of its current one.
pub open spec fn can_advance(j: DownloadJobView, target: DownloadStatus) -> bool {
    !is_terminal_status(j.status) && status_rank(j.status) < status_rank(target)
}

/// Whether a progress report is accepted: the job is not terminal and the
/// percentage does not go back.
pub open spec fn progress_accepted(j: DownloadJobView, percent: Option<u8>) -> bool {
    !is_terminal_status(j.status) && !(percent matches Some(p) && j.progress_percent matches Some(
        q,
    ) && p < q)
}

pub open spec fn with_progress(
    j: DownloadJobView,
    percent: Option<u8>,
    downloaded: Option<u64>,
    total: Option<u64>,
    speed: Option<u64>,
) -> DownloadJobView {
    DownloadJobView {
        progress_percent: percent,
        downloaded_bytes: downloaded,
        total_bytes: total,
        speed_bytes_per_second: speed,
        ..j
    }
}

/// Result of a lifecycle operation: the job moved to `next`, or it was
/// refused with an `InvalidState` error and left unchanged.
pub open spec fn transition_outcome(
    r: Result<(), CoreError>,
    before: DownloadJobView,
    after: DownloadJobView,
    allowed: bool,
    next: DownloadJobView,
) -> bool {
    if allowed {
        r is Ok && after == next
    } else {
        r matches Err(CoreError::InvalidState(_)) && after == before
    }
}

impl DownloadJob {
    /// A queued job with the given identifier.
    pub fn with_id(id: DownloadId, url: MediaUrl, preset: DownloadPreset) -> (j: Self)
        ensures
            j@ == queued_job(id, url@, preset),
    {
        DownloadJob {
            id,
            url,
            preset,
            title: None,
            status: DownloadStatus::Queued,
            progress_percent: None,
            downloaded_bytes: None,
            total_bytes: None,
            speed_bytes_per_second: None,
            destination_path: None,
            error_message: None,
            error_details: None,
        }
    }

    /// A queued job with a fresh random identifier.
    pub fn new(url: MediaUrl, preset: DownloadPreset) -> (j: Self)
        ensures
            j@ == queued_job(j@.id, url@, preset),
    {
        DownloadJob::with_id(DownloadId::new(), url, preset)
    }

    pub fn id(&self) -> (r: DownloadId)
        ensures
            r == self@.id,
    {
        self.id
    }

    pub fn url(&self) -> (r: &MediaUrl)
        ensures
            r@ == self@.url,
    {
        &self.url
    }

    pub fn preset(&self) -> (r: DownloadPreset)
        ensures
            r == self@.preset,
    {
        self.preset
    }

    pub fn title(&self) -> (r: Option<&str>)
        ensures
            match (r, self@.title) {
                (Some(a), Some(b)) => a@ == b,
                (None, None) => true,
                _ => false,
            },
    {
        match &self.title {
            Some(t) => Some(t.as_str()),
            None => None,
        }
    }

    pub fn status(&self) -> (r: DownloadStatus)
        ensures
            r == self@.status,
    {
        self.status
    }

    pub fn progress_percent(&self) -> (r: Option<u8>)
        ensures
            r == self@.progress_percent,
    {
        self.progress_percent
    }

    pub fn downloaded_bytes(&self) -> (r: Option<u64>)
        ensures
            r == self@.downloaded_bytes,
    {
        self.downloaded_bytes
    }

    pub fn total_bytes(&self) -> (r: Option<u64>)
        ensures
            r == self@.total_bytes,
    {
        self.total_bytes
    }

    pub fn speed_bytes_per_second(&self) -> (r: Option<u64>)
        ensures
            r == self@.speed_bytes_per_second,
    {
        self.speed_bytes_per_second
    }

    pub fn destination_path(&self) -> (r: Option<&str>)
        ensures
            match (r, self@.destination_path) {
                (Some(a), Some(b)) => a@ == b,
                (None, None) => true,
                _ => false,
            },
    {
        match &self.destination_path {
            Some(t) => Some(t.as_str()),
            None => None,
        }
    }

    pub fn error_message(&self) -> (r: Option<&str>)
        ensures
            match (r, self@.error_message) {
                (Some(a), Some(b)) => a@ == b,
                (None, None) => true,
                _ => false,
            },
    {
        match &self.error_message {
            Some(t) => Some(t.as_str()),
            None => None,
        }
    }

    pub fn error_details(&self) -> (r: Option<&DownloadErrorDetails>)
        ensures
            match (r, self@.error_details) {
                (Some(a), Some(b)) => *a == b,
                (None, None) => true,
                _ => false,
            },
    {
        match &self.error_details {
            Some(d) => Some(d),
            None => None,
        }
    }

    /// Whether the job is completed, failed or canceled.
    pub fn is_terminal(&self) -> (r: bool)
        ensures
            r == is_terminal_status(self@.status),
    {
        status_is_terminal(self.status)
    }

    fn advance(&mut self, target: DownloadStatus) -> (r: Result<(), CoreError>)
        requires
            status_rank(target) < 5,
        ensures
            transition_outcome(
                r,
                old(self)@,
                final(self)@,
                can_advance(old(self)@, target),
                advanced(old(self)@, target),
            ),
    {
        if status_is_terminal(self.status) {
            return Err(
                CoreError::InvalidState(String::from_str("Job is in a terminal state")),
            );
        }
        if status_rank_exec(self.status) >= status_rank_exec(target) {
            return Err(
                CoreError::InvalidState(String::from_str("Job cannot move back to an earlier phase")),
            );
        }
        self.status = target;
        if target == DownloadStatus::Converting {
            self.progress_percent = None;
            self.speed_bytes_per_second = None;
        }
        Ok(())
    }

    pub fn transition_to_preparing(&mut self) -> (r: Result<(), CoreError>)
        ensures
            transition_outcome(
                r,
                old(self)@,
                final(self)@,
                can_advance(old(self)@, DownloadStatus::Preparing),
                advanced(old(self)@, DownloadStatus::Preparing),
            ),
    {
        self.advance(DownloadStatus::Preparing)
    }

    pub fn transition_to_downloading(&mut self) -> (r: Result<(), CoreError>)
        ensures
            transition_outcome(
                r,
                old(self)@,
                final(self)@,
                can_advance(old(self)@, DownloadStatus::Downloading),
                advanced(old(self)@, DownloadStatus::Downloading),
            ),
    {
        self.advance(DownloadStatus::Downloading)
    }

    pub fn transition_to_converting(&mut self) -> (r: Result<(), CoreError>)
        ensures
            transition_outcome(
                r,
                old(self)@,
                final(self)@,
                can_advance(old(self)@, DownloadStatus::Converting),
                advanced(old(self)@, DownloadStatus::Converting),
            ),
    {
        self.advance(DownloadStatus::Converting)
    }

    pub fn transition_to_finalizing(&mut self) -> (r: Result<(), CoreError>)
        ensures
            transition_outcome(
                r,
                old(self)@,
                final(self)@,
                can_advance(old(self)@, DownloadStatus::Finalizing),
                advanced(old(self)@, DownloadStatus::Finalizing),
            ),
    {
        self.advance(DownloadStatus::Finalizing)
    }

    /// Completes the job at its destination; percentage and speed are cleared.
    pub fn transition_to_completed(&mut self, destination_path: String) -> (r: Result<(), CoreError>)
        ensures
            transition_outcome(
                r,
                old(self)@,
                final(self)@,
                !is_terminal_status(old(self)@.status),
                DownloadJobView {
                    status: DownloadStatus::Completed,
                    destination_path: Some(destination_path@),
                    progress_percent: None,
                    speed_bytes_per_second: None,
                    ..old(self)@
                },
            ),
    {
        if status_is_terminal(self.status) {
            return Err(
                CoreError::InvalidState(String::from_str("Job is in a terminal state")),
            );
        }
        self.status = DownloadStatus::Completed;
        self.destination_path = Some(destination_path);
        self.progress_percent = None;
        self.speed_bytes_per_second = None;
        Ok(())
    }

    /// Fails the job, recording the error's message and details.
    pub fn transition_to_failed(&mut self, details: DownloadErrorDetails) -> (r: Result<
        (),
        CoreError,
    >)
        ensures
            transition_outcome(
                r,
                old(self)@,
                final(self)@,
                !is_terminal_status(old(self)@.status),
                DownloadJobView {
                    status: DownloadStatus::Failed,
                    error_message: Some(details.message@),
                    error_details: Some(details),
                    ..old(self)@
                },
            ),
    {
        if status_is_terminal(self.status) {
            return Err(
                CoreError::InvalidState(String::from_str("Job is in a terminal state")),
            );
        }
        self.status = DownloadStatus::Failed;
        self.error_message = Some(details.message.clone());
        self.error_details = Some(details);
        Ok(())
    }

    /// Cancels the job.
    pub fn transition_to_canceled(&mut self) -> (r: Result<(), CoreError>)
        ensures
            transition_outcome(
                r,
                old(self)@,
                final(self)@,
                !is_terminal_status(old(self)@.status),
                DownloadJobView { status: DownloadStatus::Canceled, ..old(self)@ },
            ),
    {
        if status_is_terminal(self.status) {
            return Err(
                CoreError::InvalidState(String::from_str("Job is in a terminal state")),
            );
        }
        self.status = DownloadStatus::Canceled;
        Ok(())
    }

    /// Records download progress; a lower percentage than the recorded one is refused.
    pub fn update_progress(
        &mut self,
        percent: Option<u8>,
        downloaded_bytes: Option<u64>,
        total_bytes: Option<u64>,
        speed_bytes_per_second: Option<u64>,
    ) -> (r: Result<(), CoreError>)
        ensures
            transition_outcome(
                r,
                old(self)@,
                final(self)@,
                progress_accepted(old(self)@, percent),
                with_progress(old(self)@, percent, downloaded_bytes, total_bytes, speed_bytes_per_second),
            ),
    {
        if status_is_terminal(self.status) {
            return Err(
                CoreError::InvalidState(String::from_str("Job is in a terminal state")),
            );
        }
        match (percent, self.progress_percent) {
            (Some(p), Some(q)) => {
                if p < q {
                    return Err(
                        CoreError::InvalidState(String::from_str("Progress cannot decrease")),
                    );
                }
            },
            _ => {},
        }
        self.progress_percent = percent;
        self.downloaded_bytes = downloaded_bytes;
        self.total_bytes = total_bytes;
        self.speed_bytes_per_second = speed_bytes_per_second;
        Ok(())
    }

    /// Sets the media title.
    pub fn set_title(&mut self, title: String)
        ensures
            final(self)@ == (DownloadJobView { title: Some(title@), ..old(self)@ }),
    {
        self.title = Some(title);
    }

    /// A field-by-field copy.
    pub fn duplicate(&self) -> (r: Self)
        ensures
            r@ == self@,
    {
        DownloadJob {
            id: self.id,
            url: self.url.duplicate(),
            preset: self.preset,
            title: match &self.title {
                Some(t) => Some(t.clone()),
                None => None,
            },
            status: self.status,
            progress_percent: self.progress_percent,
            downloaded_bytes: self.downloaded_bytes,
            total_bytes: self.total_bytes,
            speed_bytes_per_second: self.speed_bytes_per_second,
            destination_path: match &self.destination_path {
                Some(t) => Some(t.clone()),
                None => None,
            },
            error_message: match &self.error_message {
                Some(t) => Some(t.clone()),
                None => None,
            },
            error_details: match &self.error_details {
                Some(d) => Some(d.duplicate()),
                None => None,
            },
        }
    }
}

/// Terminal states are absorbing: once a job is completed, failed or
/// canceled, no lifecycle operation is allowed.
pub proof fn law_terminal_is_absorbing(j: DownloadJobView, target: DownloadStatus, percent: Option<
    u8,
>)
    requires
        is_terminal_status(j.status),
    ensures
        !can_advance(j, target),
        !progress_accepted(j, percent),
{
}

/// Every allowed phase change moves the job strictly forward.
pub proof fn law_phases_move_forward(j: DownloadJobView, target: DownloadStatus)
    requires
        can_advance(j, target),
    ensures
        status_rank(advanced(j, target).status) > status_rank(j.status),
{
}

/// An accepted progress report never lowers the recorded percentage.
pub proof fn law_progress_never_decreases(
    j: DownloadJobView,
    percent: Option<u8>,
    downloaded: Option<u64>,
    total: Option<u64>,
    speed: Option<u64>,
)
    requires
        progress_accepted(j, percent),
        j.progress_percent is Some,
        percent is Some,
    ensures
        with_progress(j, percent, downloaded, total, speed).progress_percent->0
            >= j.progress_percent->0,
{
}

} // verus!
