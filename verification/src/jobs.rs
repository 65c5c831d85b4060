//! Import and upload jobs: their requests, progress and outcomes.
use vstd::prelude::*;
use crate::soziopolis::types::ArticleSummary;

verus! {

/// An article that could not be imported, with why.
#[derive(Debug, Clone)]
pub struct FailedFetchItem {
    pub url: String,
    pub title: String,
    pub category: String,
    pub message: String,
}

/// Where a running import stands.
#[derive(Debug, Clone)]
pub struct ImportProgress {
    pub phase: String,
    pub processed: usize,
    pub total: Option<usize>,
    pub saved_count: usize,
    pub skipped_existing: usize,
    pub skipped_out_of_range: usize,
    pub failed_count: usize,
    pub current_item: String,
}

/// What a job does.
#[derive(Debug, Clone, Copy, PartialEq, Eq, Structural)]
pub enum JobKind {
    Import,
    Upload,
}

impl JobKind {
    /// The display label of the kind.
    pub open spec fn spec_label(self) -> Seq<char> {
        match self {
            JobKind::Import => "Import"@,
            JobKind::Upload => "LingQ upload"@,
        }
    }

    /// The display label of the kind.
    pub fn label(self) -> (res: &'static str)
        ensures
            res@ == self.spec_label(),
    {
        match self {
            JobKind::Import => "Import",
            JobKind::Upload => "LingQ upload",
        }
    }
}

/// An article that could not be uploaded, with why.
#[derive(Debug, Clone)]
pub struct UploadFailure {
    pub article_id: i64,
    pub title: String,
    pub message: String,
}

/// An article uploaded as a LingQ lesson.
#[derive(Debug, Clone)]
pub struct UploadSuccess {
    pub article_id: i64,
    pub lesson_id: i64,
    pub lesson_url: String,
}

/// Where a running upload stands.
#[derive(Debug, Clone)]
pub struct UploadProgress {
    pub processed: usize,
    pub total: usize,
    pub uploaded: usize,
    pub failed_count: usize,
    pub current_item: String,
}

/// What a queued job will do.
#[derive(Debug, Clone)]
pub enum QueuedJobRequest {
    Import { articles: Vec<ArticleSummary> },
    Upload { ids: Vec<i64>, collection_id: Option<i64> },
}

/// A job waiting in the queue.
#[derive(Debug, Clone)]
pub struct QueuedJob {
    pub id: u64,
    pub kind: JobKind,
    pub label: String,
    pub total: usize,
    pub request: QueuedJobRequest,
}

/// A finished job.
#[derive(Debug, Clone)]
pub struct CompletedJob {
    pub id: u64,
    pub kind: JobKind,
    pub label: String,
    pub summary: String,
    pub success: bool,
    pub recorded_at: String,
}

/// Everything about the queue that outlives a session.
#[derive(Debug, Default, Clone)]
pub struct QueueSnapshot {
    pub next_job_id: u64,
    pub queue_paused: bool,
    pub queued_jobs: Vec<QueuedJob>,
    pub completed_jobs: Vec<CompletedJob>,
    pub failed_fetches: Vec<FailedFetchItem>,
    pub failed_uploads: Vec<UploadFailure>,
}

/// A copy of a sequence of listed articles.
pub fn copy_summaries(v: &Vec<ArticleSummary>) -> (res: Vec<ArticleSummary>)
    ensures
        res@ == v@,
{
    let mut out: Vec<ArticleSummary> = Vec::new();
    let mut i: usize = 0;
    while i < v.len()
        invariant
            i <= v@.len(),
            out@ =~= v@.take(i as int),
        decreases v@.len() - i,
    {
        out.push(v[i].duplicate());
        i = i + 1;
    }
    assert(v@.take(v@.len() as int) =~= v@);
    out
}

/// A copy of a sequence of ids.
pub fn copy_ids(v: &Vec<i64>) -> (res: Vec<i64>)
    ensures
        res@ == v@,
{
    let mut out: Vec<i64> = Vec::new();
    let mut i: usize = 0;
    while i < v.len()
        invariant
            i <= v@.len(),
            out@ =~= v@.take(i as int),
        decreases v@.len() - i,
    {
        out.push(v[i]);
        i = i + 1;
    }
    assert(v@.take(v@.len() as int) =~= v@);
    out
}

/// Two requests ask for the same work.
pub open spec fn same_request(a: QueuedJobRequest, b: QueuedJobRequest) -> bool {
    match a {
        QueuedJobRequest::Import { articles: x } => match b {
            QueuedJobRequest::Import { articles: y } => x@ == y@,
            QueuedJobRequest::Upload { .. } => false,
        },
        QueuedJobRequest::Upload { ids: x, collection_id: c } => match b {
            QueuedJobRequest::Import { .. } => false,
            QueuedJobRequest::Upload { ids: y, collection_id: d } => x@ == y@ && c == d,
        },
    }
}

/// Two queued jobs are the same job.
pub open spec fn same_job(a: QueuedJob, b: QueuedJob) -> bool {
    a.id == b.id && a.kind == b.kind && a.label == b.label && a.total == b.total && same_request(
        a.request,
        b.request,
    )
}

/// Two sequences of queued jobs hold the same jobs in the same order.
pub open spec fn same_jobs(a: Seq<QueuedJob>, b: Seq<QueuedJob>) -> bool {
    a.len() == b.len() && forall|i: int| 0 <= i < a.len() ==> same_job(#[trigger] a[i], b[i])
}

impl QueuedJobRequest {
    /// Whether this is an upload.
    pub fn is_upload(&self) -> (res: bool)
        ensures
            res == (*self is Upload),
    {
        match self {
            QueuedJobRequest::Upload { .. } => true,
            QueuedJobRequest::Import { .. } => false,
        }
    }

    /// A field-by-field copy.
    pub fn duplicate(&self) -> (res: QueuedJobRequest)
        ensures
            same_request(res, *self),
    {
        match self {
            QueuedJobRequest::Import { articles } => QueuedJobRequest::Import {
                articles: copy_summaries(articles),
            },
            QueuedJobRequest::Upload { ids, collection_id } => QueuedJobRequest::Upload {
                ids: copy_ids(ids),
                collection_id: *collection_id,
            },
        }
    }
}

impl QueuedJob {
    /// A field-by-field copy.
    pub fn duplicate(&self) -> (res: QueuedJob)
        ensures
            same_job(res, *self),
    {
        QueuedJob {
            id: self.id,
            kind: self.kind,
            label: self.label.clone(),
            total: self.total,
            request: self.request.duplicate(),
        }
    }
}

impl CompletedJob {
    /// A field-by-field copy.
    pub fn duplicate(&self) -> (res: CompletedJob)
        ensures
            res == *self,
    {
        CompletedJob {
            id: self.id,
            kind: self.kind,
            label: self.label.clone(),
            summary: self.summary.clone(),
            success: self.success,
            recorded_at: self.recorded_at.clone(),
        }
    }
}

impl FailedFetchItem {
    /// A field-by-field copy.
    pub fn duplicate(&self) -> (res: FailedFetchItem)
        ensures
            res == *self,
    {
        FailedFetchItem {
            url: self.url.clone(),
            title: self.title.clone(),
            category: self.category.clone(),
            message: self.message.clone(),
        }
    }
}

impl UploadFailure {
    /// A field-by-field copy.
    pub fn duplicate(&self) -> (res: UploadFailure)
        ensures
            res == *self,
    {
        UploadFailure { article_id: self.article_id, title: self.title.clone(), message: self.message.clone() }
    }
}

/// A copy of a sequence of queued jobs.
pub fn copy_queued_jobs(v: &Vec<QueuedJob>) -> (res: Vec<QueuedJob>)
    ensures
        same_jobs(res@, v@),
{
    let mut out: Vec<QueuedJob> = Vec::new();
    let mut i: usize = 0;
    while i < v.len()
        invariant
            i <= v@.len(),
            out@.len() == i,
            forall|k: int| 0 <= k < i ==> same_job(#[trigger] out@[k], v@[k]),
        decreases v@.len() - i,
    {
        out.push(v[i].duplicate());
        i = i + 1;
    }
    out
}

/// A copy of a sequence of finished jobs.
pub fn copy_completed_jobs(v: &Vec<CompletedJob>) -> (res: Vec<CompletedJob>)
    ensures
        res@ == v@,
{
    let mut out: Vec<CompletedJob> = Vec::new();
    let mut i: usize = 0;
    while i < v.len()
        invariant
            i <= v@.len(),
            out@ =~= v@.take(i as int),
        decreases v@.len() - i,
    {
        out.push(v[i].duplicate());
        i = i + 1;
    }
    assert(v@.take(v@.len() as int) =~= v@);
    out
}

/// A copy of a sequence of failed fetches.
pub fn copy_failed_fetches(v: &Vec<FailedFetchItem>) -> (res: Vec<FailedFetchItem>)
    ensures
        res@ == v@,
{
    let mut out: Vec<FailedFetchItem> = Vec::new();
    let mut i: usize = 0;
    while i < v.len()
        invariant
            i <= v@.len(),
            out@ =~= v@.take(i as int),
        decreases v@.len() - i,
    {
        out.push(v[i].duplicate());
        i = i + 1;
    }
    assert(v@.take(v@.len() as int) =~= v@);
    out
}

/// A copy of a sequence of failed uploads.
pub fn copy_upload_failures(v: &Vec<UploadFailure>) -> (res: Vec<UploadFailure>)
    ensures
        res@ == v@,
{
    let mut out: Vec<UploadFailure> = Vec::new();
    let mut i: usize = 0;
    while i < v.len()
        invariant
            i <= v@.len(),
            out@ =~= v@.take(i as int),
        decreases v@.len() - i,
    {
        out.push(v[i].duplicate());
        i = i + 1;
    }
    assert(v@.take(v@.len() as int) =~= v@);
    out
}

/// Progress is reported at most this often while a job runs, in milliseconds.
pub const PROGRESS_EVENT_MIN_INTERVAL_MS: u64 = 125;

/// Whether a job reports its progress now, and whether the report restarts
/// the interval: the first item is always reported (without restarting it),
/// and so is the last; in between, only once the interval has passed since
/// the last report that restarted it (`since_last_ms`, `None` before any).
pub fn should_emit_progress_update(processed: usize, total: Option<usize>, since_last_ms: Option<u64>) -> (res: (bool, bool))
    ensures
        res == (if processed == 0 {
            (true, false)
        } else if total is Some && processed >= total->0 {
            (true, true)
        } else {
            match since_last_ms {
                Some(ms) => if ms < PROGRESS_EVENT_MIN_INTERVAL_MS {
                    (false, false)
                } else {
                    (true, true)
                },
                None => (true, true),
            }
        }),
{
    if processed == 0 {
        return (true, false);
    }
    if let Some(t) = total {
        if processed >= t {
            return (true, true);
        }
    }
    match since_last_ms {
        Some(ms) => if ms < PROGRESS_EVENT_MIN_INTERVAL_MS {
            (false, false)
        } else {
            (true, true)
        },
        None => (true, true),
    }
}

} // verus!
