//! The decisions of the download service: the registry of in-memory jobs,
//! what each request does to it, and the steps of the download pipeline.
use vstd::prelude::*;

use crate::error::{
    error_code_retryable, is_download_details_of, CoreError, DownloadErrorCode,
    DownloadErrorDetails,
};
use crate::format::DownloadPreset;
use crate::job::{
    advanced, can_advance, is_terminal_status, progress_accepted, status_rank, uuid_hyphenated,
    with_progress, DownloadId, DownloadJob, DownloadJobView, DownloadStatus,
};
use crate::ports::StreamProgress;
use crate::text::{chars_starts_with, concat3, starts_with, to_chars};

verus! {

/// Index of the first job with the given identifier.
pub open spec fn find_job(s: Seq<DownloadJobView>, id: DownloadId) -> Option<int>
    decreases s.len(),
{
    if s.len() == 0 {
        None
    } else if s[0].id == id {
        Some(0)
    } else {
        match find_job(s.drop_first(), id) {
            Some(k) => Some(k + 1),
            None => None,
        }
    }
}

proof fn lemma_find_job(s: Seq<DownloadJobView>, id: DownloadId, k: int)
    requires
        0 <= k <= s.len(),
        forall|j: int| 0 <= j < k ==> s[j].id != id,
        k < s.len() ==> s[k].id == id,
    ensures
        k < s.len() ==> find_job(s, id) == Some(k),
        k == s.len() ==> find_job(s, id) is None,
    decreases s.len(),
{
    if s.len() > 0 && k > 0 {
        lemma_find_job(s.drop_first(), id, k - 1);
    }
}

proof fn lemma_find_job_found(s: Seq<DownloadJobView>, id: DownloadId)
    ensures
        find_job(s, id) matches Some(k) ==> 0 <= k < s.len() && s[k].id == id,
    decreases s.len(),
{
    if s.len() > 0 && s[0].id != id {
        lemma_find_job_found(s.drop_first(), id);
    }
}

/// The debug name of a status.
pub open spec fn status_name(s: DownloadStatus) -> Seq<char> {
    match s {
        DownloadStatus::Queued => "Queued"@,
        DownloadStatus::Preparing => "Preparing"@,
        DownloadStatus::Downloading => "Downloading"@,
        DownloadStatus::Converting => "Converting"@,
        DownloadStatus::Finalizing => "Finalizing"@,
        DownloadStatus::Completed => "Completed"@,
        DownloadStatus::Failed => "Failed"@,
        DownloadStatus::Canceled => "Canceled"@,
    }
}

fn status_name_exec(s: DownloadStatus) -> (r: &'static str)
    ensures
        r@ == status_name(s),
{
    match s {
        DownloadStatus::Queued => "Queued",
        DownloadStatus::Preparing => "Preparing",
        DownloadStatus::Downloading => "Downloading",
        DownloadStatus::Converting => "Converting",
        DownloadStatus::Finalizing => "Finalizing",
        DownloadStatus::Completed => "Completed",
        DownloadStatus::Failed => "Failed",
        DownloadStatus::Canceled => "Canceled",
    }
}

/// A failed download with the given code and message.
pub open spec fn is_failure(e: CoreError, code: DownloadErrorCode, message: Seq<char>) -> bool {
    e matches CoreError::DownloadFailed(d) && d.code == code && d.message@ == message && d.retryable
        == error_code_retryable(code) && d.stderr_tail is None
}

fn failure(code: DownloadErrorCode, message: String) -> (e: CoreError)
    ensures
        is_failure(e, code, message@),
{
    CoreError::DownloadFailed(DownloadErrorDetails::with_message(code, message))
}

pub open spec fn job_views(v: Seq<DownloadJob>) -> Seq<DownloadJobView> {
    v.map_values(|j: DownloadJob| j@)
}

/// What canceling a job does: the jobs afterwards, and the answer (the job and
/// whether it was canceled by this request), or the error.
pub enum CancelAnswer {
    Canceled(DownloadJobView, bool),
    NotFound,
    Terminal(Seq<char>),
}

pub open spec fn cancel_spec(s: Seq<DownloadJobView>, id: DownloadId) -> (
    Seq<DownloadJobView>,
    CancelAnswer,
) {
    match find_job(s, id) {
        None => (s, CancelAnswer::NotFound),
        Some(k) => {
            let j = s[k];
            if j.status == DownloadStatus::Canceled {
                (s, CancelAnswer::Canceled(j, false))
            } else if is_terminal_status(j.status) {
                (
                    s,
                    CancelAnswer::Terminal(
                        "Cannot cancel job '"@ + uuid_hyphenated(id.0) + "' in terminal state '"@
                            + status_name(j.status) + "'"@,
                    ),
                )
            } else {
                let c = DownloadJobView { status: DownloadStatus::Canceled, ..j };
                (s.update(k, c), CancelAnswer::Canceled(c, true))
            }
        },
    }
}

/// Whether dismissing a job is refused: it exists and is still active.
pub open spec fn dismiss_refused(s: Seq<DownloadJobView>, id: DownloadId) -> bool {
    find_job(s, id) matches Some(k) && !is_terminal_status(s[k].status)
}

pub open spec fn dismiss_spec(s: Seq<DownloadJobView>, id: DownloadId) -> Seq<DownloadJobView> {
    match find_job(s, id) {
        Some(k) => if is_terminal_status(s[k].status) {
            s.remove(k)
        } else {
            s
        },
        None => s,
    }
}

/// What the registry holds after recording stream progress for a job, and
/// whether the job was missing or terminal.
pub open spec fn record_progress_spec(s: Seq<DownloadJobView>, id: DownloadId, p: StreamProgress) -> (
    Seq<DownloadJobView>,
    bool,
) {
    match find_job(s, id) {
        None => (s, true),
        Some(k) => if is_terminal_status(s[k].status) {
            (s, true)
        } else if progress_accepted(s[k], p.percent) {
            (
                s.update(
                    k,
                    with_progress(
                        s[k],
                        p.percent,
                        p.downloaded_bytes,
                        p.total_bytes,
                        p.speed_bytes_per_second,
                    ),
                ),
                false,
            )
        } else {
            (s, false)
        },
    }
}

/// What moving a job to a pipeline phase does: an unknown job is left alone,
/// a job that may advance moves, any other is refused and left unchanged.
pub open spec fn advance_outcome(
    before: Seq<DownloadJobView>,
    after: Seq<DownloadJobView>,
    id: DownloadId,
    target: DownloadStatus,
    r: Result<(), CoreError>,
) -> bool {
    match find_job(before, id) {
        None => r is Ok && after == before,
        Some(k) => if can_advance(before[k], target) {
            r is Ok && after == before.update(k, advanced(before[k], target))
        } else {
            r matches Err(CoreError::InvalidState(_)) && after == before
        },
    }
}

/// Like `advance_outcome`, except that a job that ended meanwhile stops the
/// pipeline as canceled.
pub open spec fn advance_unless_terminal_outcome(
    before: Seq<DownloadJobView>,
    after: Seq<DownloadJobView>,
    id: DownloadId,
    target: DownloadStatus,
    r: Result<(), CoreError>,
) -> bool {
    if (find_job(before, id) matches Some(k) && is_terminal_status(before[k].status)) {
        r matches Err(CoreError::OperationCancelled) && after == before
    } else {
        advance_outcome(before, after, id, target, r)
    }
}

/// The jobs after marking a job canceled, and the job to announce.
pub open spec fn mark_canceled_spec(s: Seq<DownloadJobView>, id: DownloadId) -> (
    Seq<DownloadJobView>,
    Option<DownloadJobView>,
) {
    match find_job(s, id) {
        None => (s, None),
        Some(k) => {
            let j = s[k];
            if j.status == DownloadStatus::Canceled {
                (s, None)
            } else if is_terminal_status(j.status) {
                (s, Some(j))
            } else {
                let c = DownloadJobView { status: DownloadStatus::Canceled, ..j };
                (s.update(k, c), Some(c))
            }
        },
    }
}

/// The jobs after marking a job failed, and the job to announce.
pub open spec fn mark_failed_spec(
    s: Seq<DownloadJobView>,
    id: DownloadId,
    details: DownloadErrorDetails,
) -> (Seq<DownloadJobView>, Option<DownloadJobView>) {
    match find_job(s, id) {
        None => (s, None),
        Some(k) => {
            let j = s[k];
            if is_terminal_status(j.status) {
                (s, None)
            } else {
                let f = DownloadJobView {
                    status: DownloadStatus::Failed,
                    error_message: Some(details.message@),
                    error_details: Some(details),
                    ..j
                };
                (s.update(k, f), Some(f))
            }
        },
    }
}

/// The jobs after completing a job at a destination, and the completed job:
/// an unknown job, or one that ended meanwhile, is left alone.
pub open spec fn complete_spec(s: Seq<DownloadJobView>, id: DownloadId, destination: Seq<char>) -> (
    Seq<DownloadJobView>,
    Option<DownloadJobView>,
) {
    match find_job(s, id) {
        None => (s, None),
        Some(k) => if is_terminal_status(s[k].status) {
            (s, None)
        } else {
            let c = DownloadJobView {
                status: DownloadStatus::Completed,
                destination_path: Some(destination),
                progress_percent: None,
                speed_bytes_per_second: None,
                ..s[k]
            };
            (s.update(k, c), Some(c))
        },
    }
}

pub open spec fn opt_job_view(o: Option<DownloadJob>) -> Option<DownloadJobView> {
    match o {
        Some(j) => Some(j@),
        None => None,
    }
}

/// No two jobs share an identifier.
pub open spec fn distinct_ids(s: Seq<DownloadJobView>) -> bool {
    forall|i: int, j: int| 0 <= i < j < s.len() ==> (#[trigger] s[i]).id != (#[trigger] s[j]).id
}

proof fn lemma_find_job_absent(s: Seq<DownloadJobView>, id: DownloadId)
    ensures
        find_job(s, id) is None ==> forall|j: int| 0 <= j < s.len() ==> (#[trigger] s[j]).id != id,
    decreases s.len(),
{
    if s.len() > 0 && s[0].id != id {
        lemma_find_job_absent(s.drop_first(), id);
        if find_job(s, id) is None {
            assert forall|j: int| 0 <= j < s.len() implies (#[trigger] s[j]).id != id by {
                if j > 0 {
                    assert(s[j] == s.drop_first()[j - 1]);
                }
            }
        }
    }
}

proof fn lemma_remove_distinct(s: Seq<DownloadJobView>, k: int)
    requires
        distinct_ids(s),
        0 <= k < s.len(),
    ensures
        distinct_ids(s.remove(k)),
{
    let r = s.remove(k);
    assert forall|i: int, j: int| 0 <= i < j < r.len() implies (#[trigger] r[i]).id != (
    #[trigger] r[j]).id by {
        let a = if i < k {
            i
        } else {
            i + 1
        };
        let b = if j < k {
            j
        } else {
            j + 1
        };
        assert(r[i] == s[a]);
        assert(r[j] == s[b]);
    }
}

/// The in-memory jobs of the download service, keyed by identifier.
pub struct JobRegistry {
    jobs: Vec<DownloadJob>,
}

impl View for JobRegistry {
    type V = Seq<DownloadJobView>;

    closed spec fn view(&self) -> Seq<DownloadJobView> {
        job_views(self.jobs@)
    }
}

impl JobRegistry {
    #[verifier::type_invariant]
    spec fn keyed_by_id(self) -> bool {
        distinct_ids(job_views(self.jobs@))
    }

    pub fn new() -> (r: Self)
        ensures
            r@ == Seq::<DownloadJobView>::empty(),
    {
        let r = JobRegistry { jobs: Vec::new() };
        assert(r@ =~= Seq::<DownloadJobView>::empty());
        r
    }

    fn position(&self, id: DownloadId) -> (r: Option<usize>)
        ensures
            match (r, find_job(self@, id)) {
                (Some(a), Some(b)) => a as int == b && a < self@.len(),
                (None, None) => true,
                _ => false,
            },
    {
        let mut i: usize = 0;
        while i < self.jobs.len()
            invariant
                i <= self.jobs@.len(),
                self@ == job_views(self.jobs@),
                forall|j: int| 0 <= j < i ==> self@[j].id != id,
            decreases self.jobs@.len() - i,
        {
            if self.jobs[i].id() == id {
                proof {
                    lemma_find_job(self@, id, i as int);
                }
                return Some(i);
            }
            i = i + 1;
        }
        proof {
            lemma_find_job(self@, id, i as int);
        }
        None
    }

    /// Stores a job, replacing the job with the same identifier if there is one.
    pub fn upsert(&mut self, job: DownloadJob)
        ensures
            final(self)@ == (match find_job(old(self)@, job@.id) {
                Some(k) => old(self)@.update(k, job@),
                None => old(self)@.push(job@),
            }),
    {
        proof {
            use_type_invariant(&*self);
        }
        let ghost before = self@;
        match self.position(job.id()) {
            Some(k) => {
                proof {
                    lemma_find_job_found(before, job@.id);
                    assert(distinct_ids(before.update(k as int, job@)));
                }
                let mut jobs: Vec<DownloadJob> = Vec::new();
                std::mem::swap(&mut jobs, &mut self.jobs);
                jobs.set(k, job);
                assert(job_views(jobs@) =~= before.update(k as int, job@));
                self.jobs = jobs;
                assert(self@ =~= before.update(k as int, job@));
            },
            None => {
                proof {
                    lemma_find_job_absent(before, job@.id);
                    assert(distinct_ids(before.push(job@)));
                }
                let mut jobs: Vec<DownloadJob> = Vec::new();
                std::mem::swap(&mut jobs, &mut self.jobs);
                jobs.push(job);
                assert(job_views(jobs@) =~= before.push(job@));
                self.jobs = jobs;
                assert(self@ =~= before.push(job@));
            },
        }
    }

    /// A copy of the job with the given identifier.
    pub fn get(&self, id: DownloadId) -> (r: Option<DownloadJob>)
        ensures
            match (r, find_job(self@, id)) {
                (Some(j), Some(k)) => j@ == self@[k],
                (None, None) => true,
                _ => false,
            },
    {
        match self.position(id) {
            Some(k) => Some(self.jobs[k].duplicate()),
            None => None,
        }
    }

    /// Copies of all jobs, in the order they were first stored; no two of
    /// them share an identifier.
    pub fn list(&self) -> (r: Vec<DownloadJob>)
        ensures
            job_views(r@) == self@,
            distinct_ids(job_views(r@)),
    {
        proof {
            use_type_invariant(self);
        }
        let mut out: Vec<DownloadJob> = Vec::new();
        let mut i: usize = 0;
        while i < self.jobs.len()
            invariant
                i <= self.jobs@.len(),
                out@.len() == i,
                forall|j: int| 0 <= j < i ==> (#[trigger] out@[j])@ == self.jobs@[j]@,
            decreases self.jobs@.len() - i,
        {
            out.push(self.jobs[i].duplicate());
            i = i + 1;
        }
        assert(job_views(out@) =~= job_views(self.jobs@));
        out
    }

    fn replace_at(&mut self, k: usize, job: DownloadJob)
        requires
            k < old(self)@.len(),
            job@.id == old(self)@[k as int].id,
        ensures
            final(self)@ == old(self)@.update(k as int, job@),
    {
        proof {
            use_type_invariant(&*self);
        }
        let ghost before = self@;
        assert(distinct_ids(before.update(k as int, job@)));
        let mut jobs: Vec<DownloadJob> = Vec::new();
        std::mem::swap(&mut jobs, &mut self.jobs);
        jobs.set(k, job);
        assert(job_views(jobs@) =~= before.update(k as int, job@));
        self.jobs = jobs;
        assert(self@ =~= before.update(k as int, job@));
    }

    /// Cancels a queued or running job. Canceling a canceled job answers it
    /// again without canceling anew; a completed or failed job is refused.
    pub fn cancel(&mut self, id: DownloadId) -> (r: Result<(DownloadJob, bool), CoreError>)
        ensures
            final(self)@ == cancel_spec(old(self)@, id).0,
            match (r, cancel_spec(old(self)@, id).1) {
                (Ok((j, fresh)), CancelAnswer::Canceled(v, f)) => j@ == v && fresh == f,
                (Err(CoreError::JobNotFound(x)), CancelAnswer::NotFound) => x == id,
                (Err(CoreError::InvalidState(m)), CancelAnswer::Terminal(t)) => m@ == t,
                _ => false,
            },
    {
        let k = match self.position(id) {
            Some(k) => k,
            None => {
                return Err(CoreError::JobNotFound(id));
            },
        };
        let mut job = self.jobs[k].duplicate();
        if job.status() == DownloadStatus::Canceled {
            return Ok((job, false));
        }
        if job.is_terminal() {
            let mut m = concat3("Cannot cancel job '", id.to_text().as_str(), "' in terminal state '");
            m.append(status_name_exec(job.status()));
            m.append("'");
            return Err(CoreError::InvalidState(m));
        }
        let _ = job.transition_to_canceled();
        let answer = job.duplicate();
        self.replace_at(k, job);
        Ok((answer, true))
    }

    /// Removes a finished, failed or canceled job; an active one is refused,
    /// and an unknown one is no error.
    pub fn dismiss(&mut self, id: DownloadId) -> (r: Result<(), CoreError>)
        ensures
            dismiss_refused(old(self)@, id) ==> (r matches Err(CoreError::InvalidState(m)) && m@
                == "Cannot dismiss an active download; please cancel it first"@),
            !dismiss_refused(old(self)@, id) ==> r is Ok,
            final(self)@ == dismiss_spec(old(self)@, id),
    {
        match self.position(id) {
            None => Ok(()),
            Some(k) => {
                if !self.jobs[k].is_terminal() {
                    return Err(
                        CoreError::InvalidState(
                            String::from_str(
                                "Cannot dismiss an active download; please cancel it first",
                            ),
                        ),
                    );
                }
                let ghost before = self@;
                proof {
                    use_type_invariant(&*self);
                    lemma_remove_distinct(before, k as int);
                }
                let mut jobs: Vec<DownloadJob> = Vec::new();
                std::mem::swap(&mut jobs, &mut self.jobs);
                jobs.remove(k);
                assert(job_views(jobs@) =~= before.remove(k as int));
                self.jobs = jobs;
                assert(self@ =~= before.remove(k as int));
                Ok(())
            },
        }
    }

    /// Marks a job canceled after its pipeline stopped; answers the job to
    /// announce unless it was already canceled or is unknown. A completed or
    /// failed job stays as it is but is still answered.
    pub fn mark_canceled(&mut self, id: DownloadId) -> (r: Option<DownloadJob>)
        ensures
            (final(self)@, opt_job_view(r)) == mark_canceled_spec(old(self)@, id),
    {
        let k = match self.position(id) {
            Some(k) => k,
            None => {
                return None;
            },
        };
        let mut job = self.jobs[k].duplicate();
        if job.status() == DownloadStatus::Canceled {
            return None;
        }
        let _ = job.transition_to_canceled();
        let answer = job.duplicate();
        self.replace_at(k, job);
        proof {
            if is_terminal_status(old(self)@[k as int].status) {
                assert(self@ =~= old(self)@);
            }
        }
        Some(answer)
    }

    /// Marks a job failed after its pipeline stopped; answers the job to
    /// announce unless it is unknown or already terminal.
    pub fn mark_failed(&mut self, id: DownloadId, details: DownloadErrorDetails) -> (r: Option<
        DownloadJob,
    >)
        ensures
            (final(self)@, opt_job_view(r)) == mark_failed_spec(old(self)@, id, details),
    {
        let k = match self.position(id) {
            Some(k) => k,
            None => {
                return None;
            },
        };
        let mut job = self.jobs[k].duplicate();
        if job.is_terminal() {
            return None;
        }
        let _ = job.transition_to_failed(details);
        let answer = job.duplicate();
        self.replace_at(k, job);
        Some(answer)
    }

    /// Records stream progress on a running job; answers whether the job is
    /// missing or terminal (and so whether the progress must be dropped).
    pub fn record_progress(&mut self, id: DownloadId, p: StreamProgress) -> (terminal: bool)
        ensures
            (final(self)@, terminal) == record_progress_spec(old(self)@, id, p),
    {
        let k = match self.position(id) {
            Some(k) => k,
            None => {
                return true;
            },
        };
        let mut job = self.jobs[k].duplicate();
        if job.is_terminal() {
            return true;
        }
        let ok = job.update_progress(
            p.percent,
            p.downloaded_bytes,
            p.total_bytes,
            p.speed_bytes_per_second,
        );
        if ok.is_ok() {
            self.replace_at(k, job);
        }
        false
    }

    /// Moves a job to the next pipeline phase; an unknown job is left alone.
    pub fn advance(&mut self, id: DownloadId, target: DownloadStatus) -> (r: Result<(), CoreError>)
        requires
            1 <= status_rank(target) < 5,
        ensures
            advance_outcome(old(self)@, final(self)@, id, target, r),
    {
        let k = match self.position(id) {
            Some(k) => k,
            None => {
                return Ok(());
            },
        };
        let mut job = self.jobs[k].duplicate();
        let r = match target {
            DownloadStatus::Preparing => job.transition_to_preparing(),
            DownloadStatus::Downloading => job.transition_to_downloading(),
            DownloadStatus::Converting => job.transition_to_converting(),
            _ => job.transition_to_finalizing(),
        };
        if r.is_ok() {
            self.replace_at(k, job);
        }
        r
    }

    /// Moves a job to the next phase unless it ended meanwhile (then the
    /// pipeline stops as canceled).
    pub fn advance_unless_terminal(&mut self, id: DownloadId, target: DownloadStatus) -> (r: Result<
        (),
        CoreError,
    >)
        requires
            1 <= status_rank(target) < 5,
        ensures
            advance_unless_terminal_outcome(old(self)@, final(self)@, id, target, r),
    {
        match self.position(id) {
            Some(k) => {
                if self.jobs[k].is_terminal() {
                    return Err(CoreError::OperationCancelled);
                }
            },
            None => {},
        }
        self.advance(id, target)
    }

    /// Stops the pipeline as canceled when the job ended meanwhile.
    pub fn ensure_not_terminal(&self, id: DownloadId) -> (r: Result<(), CoreError>)
        ensures
            (find_job(self@, id) matches Some(k) && is_terminal_status(self@[k].status)) ==> r matches Err(
                CoreError::OperationCancelled,
            ),
            !(find_job(self@, id) matches Some(k) && is_terminal_status(self@[k].status)) ==> r is Ok,
    {
        match self.position(id) {
            Some(k) => if self.jobs[k].is_terminal() {
                Err(CoreError::OperationCancelled)
            } else {
                Ok(())
            },
            None => Ok(()),
        }
    }

    /// Records the media title of a job.
    pub fn set_title(&mut self, id: DownloadId, title: String)
        ensures
            match find_job(old(self)@, id) {
                None => final(self)@ == old(self)@,
                Some(k) => final(self)@ == old(self)@.update(
                    k,
                    DownloadJobView { title: Some(title@), ..old(self)@[k] },
                ),
            },
    {
        match self.position(id) {
            Some(k) => {
                let mut job = self.jobs[k].duplicate();
                job.set_title(title);
                self.replace_at(k, job);
            },
            None => {},
        }
    }

    /// Completes a job at its destination unless it ended meanwhile; answers
    /// the completed job.
    pub fn complete(&mut self, id: DownloadId, destination: String) -> (r: Option<DownloadJob>)
        ensures
            (final(self)@, opt_job_view(r)) == complete_spec(old(self)@, id, destination@),
    {
        let k = match self.position(id) {
            Some(k) => k,
            None => {
                return None;
            },
        };
        let mut job = self.jobs[k].duplicate();
        if job.is_terminal() {
            return None;
        }
        let _ = job.transition_to_completed(destination);
        let answer = job.duplicate();
        self.replace_at(k, job);
        Some(answer)
    }

    /// The source URL of a known job, which must be an http or https URL.
    pub fn download_source_url(&self, id: DownloadId) -> (r: Result<String, CoreError>)
        ensures
            match find_job(self@, id) {
                None => r matches Err(CoreError::JobNotFound(x)) && x == id,
                Some(k) => if is_web_url(self@[k].url) {
                    r matches Ok(u) && u@ == self@[k].url
                } else {
                    r matches Err(e) && is_failure(
                        e,
                        DownloadErrorCode::SourceUrlInvalid,
                        only_web_urls_message(),
                    )
                },
            },
    {
        let k = match self.position(id) {
            Some(k) => k,
            None => {
                return Err(CoreError::JobNotFound(id));
            },
        };
        let url = self.jobs[k].url().to_string();
        check_web_url(url)
    }

    /// The destination of a completed job.
    pub fn completed_destination(&self, id: DownloadId) -> (r: Result<String, CoreError>)
        ensures
            match find_job(self@, id) {
                None => r matches Err(CoreError::JobNotFound(x)) && x == id,
                Some(k) => {
                    let j = self@[k];
                    if j.status != DownloadStatus::Completed {
                        r matches Err(e) && is_failure(
                            e,
                            DownloadErrorCode::OutputFileNotFound,
                            "Le téléchargement '"@ + uuid_hyphenated(id.0)
                                + "' n'est pas encore terminé."@,
                        )
                    } else {
                        match j.destination_path {
                            Some(p) => r matches Ok(x) && x@ == p,
                            None => r matches Err(e) && is_failure(
                                e,
                                DownloadErrorCode::OutputFileNotFound,
                                "Chemin de destination introuvable pour le téléchargement '"@
                                    + uuid_hyphenated(id.0) + "'."@,
                            ),
                        }
                    }
                },
            },
    {
        let k = match self.position(id) {
            Some(k) => k,
            None => {
                return Err(CoreError::JobNotFound(id));
            },
        };
        let job = &self.jobs[k];
        if job.status() != DownloadStatus::Completed {
            let m = concat3(
                "Le téléchargement '",
                id.to_text().as_str(),
                "' n'est pas encore terminé.",
            );
            return Err(failure(DownloadErrorCode::OutputFileNotFound, m));
        }
        match job.destination_path() {
            Some(p) => Ok(String::from_str(p)),
            None => {
                let m = concat3(
                    "Chemin de destination introuvable pour le téléchargement '",
                    id.to_text().as_str(),
                    "'.",
                );
                Err(failure(DownloadErrorCode::OutputFileNotFound, m))
            },
        }
    }
}

pub open spec fn only_web_urls_message() -> Seq<char> {
    "Seules les URL HTTP et HTTPS sont autorisées."@
}

/// An `http://` or `https://` URL.
pub open spec fn is_web_url(u: Seq<char>) -> bool {
    starts_with(u, "http://"@) || starts_with(u, "https://"@)
}

/// Keeps an http or https URL and refuses any other.
pub fn check_web_url(url: String) -> (r: Result<String, CoreError>)
    ensures
        is_web_url(url@) ==> (r matches Ok(u) && u@ == url@),
        !is_web_url(url@) ==> (r matches Err(e) && is_failure(
            e,
            DownloadErrorCode::SourceUrlInvalid,
            only_web_urls_message(),
        )),
{
    let c = to_chars(url.as_str());
    let h1 = to_chars("http://");
    let h2 = to_chars("https://");
    if !chars_starts_with(&c, &h1) && !chars_starts_with(&c, &h2) {
        return Err(
            failure(
                DownloadErrorCode::SourceUrlInvalid,
                String::from_str("Seules les URL HTTP et HTTPS sont autorisées."),
            ),
        );
    }
    Ok(url)
}

/// A request to cancel twice answers the same job, and only the first
/// cancels it.
pub proof fn law_cancel_is_idempotent(s: Seq<DownloadJobView>, id: DownloadId)
    requires
        cancel_spec(s, id).1 matches CancelAnswer::Canceled(_, _),
    ensures
        cancel_spec(cancel_spec(s, id).0, id).0 == cancel_spec(s, id).0,
        cancel_spec(cancel_spec(s, id).0, id).1 matches CancelAnswer::Canceled(j, fresh) && !fresh
            && j.status == DownloadStatus::Canceled,
{
    let k = find_job(s, id)->0;
    lemma_find_job_found(s, id);
    let t = cancel_spec(s, id).0;
    if s[k].status != DownloadStatus::Canceled {
        lemma_find_job_prefix_same(s, t, id, k);
    }
}

proof fn lemma_find_job_prefix_same(
    s: Seq<DownloadJobView>,
    t: Seq<DownloadJobView>,
    id: DownloadId,
    k: int,
)
    requires
        find_job(s, id) == Some(k),
        t.len() == s.len(),
        0 <= k < s.len(),
        forall|j: int| 0 <= j < s.len() && j != k ==> t[j] == s[j],
        t[k].id == id,
    ensures
        find_job(t, id) == Some(k),
    decreases s.len(),
{
    if k > 0 {
        assert(s[0].id != id);
        lemma_find_job_prefix_same(s.drop_first(), t.drop_first(), id, k - 1);
    }
}

/// A completed, failed or canceled job cannot be canceled into another state:
/// canceling leaves the jobs unchanged.
pub proof fn law_cancel_keeps_finished_jobs(s: Seq<DownloadJobView>, id: DownloadId)
    requires
        find_job(s, id) matches Some(k) && is_terminal_status(s[k].status),
    ensures
        cancel_spec(s, id).0 == s,
{
}

/// Once a job is canceled its pipeline can take it no further: no phase
/// change is made (the pipeline stops as canceled), the job is never
/// completed (so nothing is announced as completed and no history entry is
/// recorded for it), and it is announced neither as canceled again nor as
/// failed.
pub proof fn law_canceled_job_goes_no_further(
    s: Seq<DownloadJobView>,
    id: DownloadId,
    destination: Seq<char>,
    details: DownloadErrorDetails,
    target: DownloadStatus,
    after: Seq<DownloadJobView>,
    r: Result<(), CoreError>,
)
    requires
        find_job(s, id) matches Some(k) && s[k].status == DownloadStatus::Canceled,
    ensures
        advance_unless_terminal_outcome(s, after, id, target, r) ==> (r matches Err(
            CoreError::OperationCancelled,
        ) && after == s),
        complete_spec(s, id, destination) == (s, None::<DownloadJobView>),
        mark_canceled_spec(s, id) == (s, None::<DownloadJobView>),
        mark_failed_spec(s, id, details) == (s, None::<DownloadJobView>),
{
}

/// Dismissing is refused exactly for a job still in progress: a completed,
/// failed or canceled job is dismissed and leaves the registry (one job
/// fewer, and none with its identifier); a queued, preparing, downloading,
/// converting or finalizing job is refused and the registry is unchanged; an
/// unknown job is no error.
pub proof fn law_dismiss_removes_only_finished_jobs(s: Seq<DownloadJobView>, id: DownloadId)
    requires
        distinct_ids(s),
    ensures
        find_job(s, id) matches Some(k) && (s[k].status == DownloadStatus::Completed
            || s[k].status == DownloadStatus::Failed || s[k].status == DownloadStatus::Canceled)
            ==> !dismiss_refused(s, id) && dismiss_spec(s, id).len() == s.len() - 1 && find_job(
            dismiss_spec(s, id),
            id,
        ) is None,
        find_job(s, id) matches Some(k) && (s[k].status == DownloadStatus::Queued || s[k].status
            == DownloadStatus::Preparing || s[k].status == DownloadStatus::Downloading
            || s[k].status == DownloadStatus::Converting || s[k].status
            == DownloadStatus::Finalizing) ==> dismiss_refused(s, id) && dismiss_spec(s, id) == s,
        find_job(s, id) is None ==> !dismiss_refused(s, id) && dismiss_spec(s, id) == s,
{
    lemma_find_job_found(s, id);
    if let Some(k) = find_job(s, id) {
        let st = s[k].status;
        if st == DownloadStatus::Completed || st == DownloadStatus::Failed || st
            == DownloadStatus::Canceled {
            let r = s.remove(k);
            assert(dismiss_spec(s, id) == r);
            assert forall|j: int| 0 <= j < r.len() implies (#[trigger] r[j]).id != id by {
                if j < k {
                    assert(r[j] == s[j]);
                } else {
                    assert(r[j] == s[j + 1]);
                }
            }
            lemma_find_job(r, id, r.len() as int);
        }
    }
}

} // verus!
