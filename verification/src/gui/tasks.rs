//! The app's own bookkeeping: notices, failures, settings, and the job queue
//! (what starts when, what is kept, what is written down).
use vstd::prelude::*;
use crate::app_error::AppError;
use crate::gui::message::Effect;
use crate::gui::state::{
    ActiveJob, App, BrowseScope, BrowseState, JobQueue, LibraryState, LingqState, Notice, NoticeKind,
    LingqAuthMode, PreviewState, Screen, BROWSE_PAGE_STEP,
    COMPLETED_JOB_HISTORY_LIMIT, TASK_FAILURE_LIMIT,
};
use crate::settings::SettingsStore;
use crate::jobs::{
    copy_completed_jobs, copy_failed_fetches, copy_queued_jobs, copy_upload_failures, same_jobs,
    CompletedJob, JobKind, QueueSnapshot, QueuedJob, QueuedJobRequest,
};
use crate::services::BrowseSessionState;
use crate::soziopolis::browse::same_walk;
use crate::soziopolis::types::{AllSectionsBrowseState, SectionBrowseState};
use crate::text::{append_chars, chars_of, decimal, decimal_vec, lit, string_of, trim, trim_vec};

verus! {

/// `n + 1`, wrapping to 0 after `u64::MAX` (`u64::wrapping_add(1)`).
pub open spec fn next_u64(n: u64) -> u64 {
    if n == u64::MAX {
        0
    } else {
        (n + 1) as u64
    }
}

/// The app shows `message` styled as `kind`.
pub open spec fn notice_is(app: App, message: Seq<char>, kind: NoticeKind) -> bool {
    app.notice matches Some(n) && n.message@ == message && n.kind == kind
}

/// `new` is `old` with a new notice and nothing else changed.
pub open spec fn only_notice_changed(old: App, new: App) -> bool {
    new == App { notice: new.notice, notice_serial: next_u64(old.notice_serial), ..old }
}

/// The task failures after recording `error`: newest first, the oldest one
/// dropped once the list holds its limit.
pub open spec fn failures_after(old: Seq<AppError>, error: AppError) -> Seq<AppError> {
    if old.len() >= TASK_FAILURE_LIMIT {
        seq![error] + old.drop_last()
    } else {
        seq![error] + old
    }
}

/// The finished-job history after recording `job`: newest first, at most
/// the limit kept.
pub open spec fn history_after(old: Seq<CompletedJob>, job: CompletedJob) -> Seq<CompletedJob> {
    let all = seq![job] + old;
    if all.len() > COMPLETED_JOB_HISTORY_LIMIT {
        all.take(COMPLETED_JOB_HISTORY_LIMIT as int)
    } else {
        all
    }
}

/// `active` is the progress record of `job` just started: nothing done yet.
pub open spec fn just_started(active: ActiveJob, job: QueuedJob) -> bool {
    &&& active.id == job.id
    &&& active.kind == job.kind
    &&& active.label == job.label
    &&& active.total == job.total
    &&& active.processed == 0
    &&& active.succeeded == 0
    &&& active.failed == 0
    &&& active.current_item@.len() == 0
}

/// `new` is `old` after recording the failed task `error`.
pub open spec fn failure_recorded(old: App, new: App, error: AppError) -> bool {
    &&& new == App {
        jobs: JobQueue { recent_task_failures: new.jobs.recent_task_failures, ..old.jobs },
        ..old
    }
    &&& new.jobs.recent_task_failures@ == failures_after(old.jobs.recent_task_failures@, error)
}

/// `new` is `old` after recording the failed task `error` and showing its
/// notice as an error.
pub open spec fn task_error_shown(old: App, new: App, error: AppError) -> bool {
    &&& new == App {
        jobs: JobQueue { recent_task_failures: new.jobs.recent_task_failures, ..old.jobs },
        notice: new.notice,
        notice_serial: next_u64(old.notice_serial),
        ..old
    }
    &&& new.jobs.recent_task_failures@ == failures_after(old.jobs.recent_task_failures@, error)
    &&& notice_is(new, error.operation@ + " failed: "@ + error.message@, NoticeKind::Error)
}

/// `new` is `old` with its view, section, browse filter and LingQ course
/// copied into the settings.
pub open spec fn settings_saved(old: App, new: App) -> bool {
    &&& new == App { settings: new.settings, ..old }
    &&& settings_hold(old, new.settings)
}

/// `settings` is the store of `app` with the view, section, browse filter and
/// LingQ course of `app` copied in.
pub open spec fn settings_hold(app: App, settings: crate::settings::SettingsStore) -> bool {
    &&& settings.path == app.settings.path
    &&& settings.data.last_view@ == app.current_view.spec_as_str()
    &&& settings.data.browse_section == app.browse.section
    &&& settings.data.browse_only_new == app.browse.only_new
    &&& settings.data.lingq_collection_id == app.lingq.selected_collection
}

/// `new` is `old` after handing out the job id `id`.
pub open spec fn job_id_taken(old: App, new: App, id: u64) -> bool {
    &&& id == next_u64(old.jobs.next_job_id)
    &&& new == App { jobs: JobQueue { next_job_id: id, ..old.jobs }, ..old }
}

/// `new` is `old` with `job` started: its progress record is fresh, the
/// import or upload flag is set by its kind, the waiting jobs are
/// `queued_after`, and the effect runs its request (an import also clears
/// the failed fetches; an upload runs with the current LingQ token).
pub open spec fn job_started(old: App, job: QueuedJob, queued_after: Seq<QueuedJob>, new: App, fx: Seq<Effect>) -> bool {
    &&& new.jobs == JobQueue { active_job: new.jobs.active_job, queued: new.jobs.queued, ..old.jobs }
    &&& new.jobs.queued@ == queued_after
    &&& new.jobs.active_job matches Some(a) && just_started(a, job)
    &&& new.browse == BrowseState {
        batch_fetching: job.kind == JobKind::Import,
        failed_fetches: new.browse.failed_fetches,
        ..old.browse
    }
    &&& new.lingq == LingqState { uploading: job.kind == JobKind::Upload, ..old.lingq }
    &&& new == App { jobs: new.jobs, browse: new.browse, lingq: new.lingq, ..old }
    &&& match job.request {
        QueuedJobRequest::Import { articles } => {
            &&& new.browse.failed_fetches@.len() == 0
            &&& fx == seq![Effect::RunImport { job_id: job.id, articles }]
        },
        QueuedJobRequest::Upload { ids, collection_id } => {
            &&& new.browse.failed_fetches == old.browse.failed_fetches
            &&& fx == seq![
                Effect::RunUpload { job_id: job.id, ids, api_key: old.lingq.api_key, collection_id },
            ]
        },
    }
}

/// `new` is `old` after `job` was handed to the queue: appended with a notice
/// when a job is running, else started at once; either way the queue is
/// written down.
pub open spec fn job_enqueued(old: App, job: QueuedJob, new: App, fx: Seq<Effect>) -> bool {
    if old.jobs.active_job is Some {
        &&& new == App {
            jobs: JobQueue { queued: new.jobs.queued, ..old.jobs },
            notice: new.notice,
            notice_serial: next_u64(old.notice_serial),
            ..old
        }
        &&& new.jobs.queued@ == old.jobs.queued@.push(job)
        &&& notice_is(
            new,
            "Job queued. "@ + decimal((old.jobs.queued@.len() + 1) as nat) + " job(s) waiting."@,
            NoticeKind::Info,
        )
        &&& fx == seq![Effect::PersistQueue]
    } else {
        &&& fx.len() >= 1
        &&& fx.last() == Effect::PersistQueue
        &&& job_started(old, job, old.jobs.queued@, new, fx.drop_last())
    }
}

/// `new` is `old` after trying the next waiting job: nothing happens while a
/// job runs, the queue is paused or empty; an upload at the head waits (with a
/// notice) while there is no LingQ token; otherwise the head leaves the queue
/// and starts, and the queue is written down.
pub open spec fn next_job_tried(old: App, new: App, fx: Seq<Effect>) -> bool {
    if old.jobs.active_job is Some || old.jobs.paused || old.jobs.queued@.len() == 0 {
        new == old && fx.len() == 0
    } else {
        let job = old.jobs.queued@[0];
        if job.request is Upload && trim(old.lingq.api_key@).len() == 0 {
            &&& new == App {
                jobs: JobQueue { queued: new.jobs.queued, ..old.jobs },
                notice: new.notice,
                notice_serial: next_u64(old.notice_serial),
                ..old
            }
            &&& new.jobs.queued@ == old.jobs.queued@
            &&& notice_is(new, "Queued uploads waiting for LingQ connection."@, NoticeKind::Info)
            &&& fx == seq![Effect::PersistQueue]
        } else {
            &&& fx.len() >= 1
            &&& fx[0] == Effect::PersistQueue
            &&& job_started(old, job, old.jobs.queued@.drop_first(), new, fx.drop_first())
        }
    }
}

/// `new` is `old` with a finished job recorded at the head of the history
/// (which keeps at most its limit) and selected in the diagnostics; the
/// effects add it to the stored history and write the queue down.
pub open spec fn job_recorded(
    old: App,
    new: App,
    id: u64,
    kind: JobKind,
    label: Seq<char>,
    summary: Seq<char>,
    success: bool,
    fx: Seq<Effect>,
) -> bool {
    &&& new.jobs.completed@.len() > 0
    &&& new.jobs.completed@[0].id == id
    &&& new.jobs.completed@[0].kind == kind
    &&& new.jobs.completed@[0].label@ == label
    &&& new.jobs.completed@[0].summary@ == summary
    &&& new.jobs.completed@[0].success == success
    &&& crate::app_error::is_decimal_digits(new.jobs.completed@[0].recorded_at@)
    &&& new.jobs.completed@ == history_after(old.jobs.completed@, new.jobs.completed@[0])
    &&& new == App {
        jobs: JobQueue {
            completed: new.jobs.completed,
            diagnostics_selected_job_id: Some(id),
            ..old.jobs
        },
        ..old
    }
    &&& fx == seq![Effect::RecordJobHistory(new.jobs.completed@[0]), Effect::PersistQueue]
}

/// `new` is `old` with a fresh load of the current section started: the
/// scope, selection, report and walk reset, a new request id.
pub open spec fn browse_refresh_started(old: App, new: App, fx: Seq<Effect>) -> bool {
    &&& new == App { browse: new.browse, ..old }
    &&& browse_refreshed(old.browse, new.browse, fx)
}

/// `new` is the browse state `old` with a fresh load of its section started.
pub open spec fn browse_refreshed(old: BrowseState, new: BrowseState, fx: Seq<Effect>) -> bool {
    let id = next_u64(old.request_id);
    &&& new == BrowseState {
        request_id: id,
        scope: BrowseScope::CurrentSection,
        scope_label: new.scope_label,
        loading: true,
        selected: new.selected,
        report: None,
        end_reached: false,
        session_state: None,
        ..old
    }
    &&& new.scope_label@ == "Current section"@
    &&& new.selected@.len() == 0
    &&& fx == seq![
        Effect::BrowseSection { request_id: id, section: old.section, limit: old.limit },
    ]
}

/// `new` is `old` with a fresh load of all sections started.
pub open spec fn browse_all_started(old: App, new: App, fx: Seq<Effect>) -> bool {
    &&& new == App { browse: new.browse, ..old }
    &&& browse_all_refreshed(old.browse, new.browse, fx)
}

/// `new` is the browse state `old` with a fresh load of all sections started.
pub open spec fn browse_all_refreshed(old: BrowseState, new: BrowseState, fx: Seq<Effect>) -> bool {
    let id = next_u64(old.request_id);
    &&& new == BrowseState {
        request_id: id,
        scope: BrowseScope::AllSections,
        scope_label: new.scope_label,
        loading: true,
        selected: new.selected,
        report: None,
        end_reached: false,
        session_state: None,
        ..old
    }
    &&& new.scope_label@ == "All sections"@
    &&& new.selected@.len() == 0
    &&& fx == seq![Effect::BrowseAllSections { request_id: id, limit: old.limit }]
}

/// `new` is `old` with the library reload for `reason` started.
pub open spec fn content_refresh_started(old: App, new: App, reason: Seq<char>, fx: Seq<Effect>) -> bool {
    let id = next_u64(old.library.content_refresh_request_id);
    &&& new == App {
        library: LibraryState { loading: true, content_refresh_request_id: id, ..old.library },
        ..old
    }
    &&& fx.len() == 1
    &&& fx[0] matches Effect::RefreshContent { request_id, reason: r } && request_id == id && r@
        == reason
}

/// `new` is `old` after asking for the LingQ courses: with no token, an
/// error notice; else the loading flag is raised and the courses requested
/// with the token.
pub open spec fn collections_requested(old: App, new: App, fx: Seq<Effect>) -> bool {
    if trim(old.lingq.api_key@).len() == 0 {
        &&& only_notice_changed(old, new)
        &&& notice_is(new, "Enter a LingQ API key first."@, NoticeKind::Error)
        &&& fx.len() == 0
    } else {
        &&& new == App { lingq: LingqState { loading_collections: true, ..old.lingq }, ..old }
        &&& fx == seq![Effect::LoadCollections { api_key: old.lingq.api_key }]
    }
}

/// `new` is `old` after "load more" in the current section: nothing while
/// a load runs; else the walk continues from a copy of its state, or (with no
/// walk of the current section) the section is loaded afresh.
pub open spec fn more_of_section_requested(old: App, new: App, fx: Seq<Effect>) -> bool {
    let id = next_u64(old.browse.request_id);
    if old.browse.loading {
        new == old && fx.len() == 0
    } else {
        match old.browse.session_state {
            Some(BrowseSessionState::CurrentSection(walk)) => {
                &&& new == App {
                    browse: BrowseState {
                        scope: BrowseScope::CurrentSection,
                        scope_label: new.browse.scope_label,
                        loading: true,
                        request_id: id,
                        ..old.browse
                    },
                    ..old
                }
                &&& new.browse.scope_label@ == "Current section"@
                &&& fx.len() == 1
                &&& fx[0] matches Effect::ContinueSection { request_id, state, limit } && request_id
                    == id && limit == old.browse.limit && same_walk(state, walk)
            },
            _ => {
                &&& new == App {
                    browse: BrowseState {
                        request_id: next_u64(id),
                        scope: BrowseScope::CurrentSection,
                        scope_label: new.browse.scope_label,
                        loading: true,
                        selected: new.browse.selected,
                        report: None,
                        end_reached: false,
                        session_state: None,
                        ..old.browse
                    },
                    ..old
                }
                &&& new.browse.scope_label@ == "Current section"@
                &&& new.browse.selected@.len() == 0
                &&& fx == seq![
                    Effect::BrowseSection {
                        request_id: next_u64(id),
                        section: old.browse.section,
                        limit: old.browse.limit,
                    },
                ]
            },
        }
    }
}

/// `new` is `old` after "load more" over all sections: nothing while a load
/// runs; else every section's walk continues from a copy of its state, or
/// (with no all-sections walk) all sections are loaded afresh.
pub open spec fn more_of_all_requested(old: App, new: App, fx: Seq<Effect>) -> bool {
    let id = next_u64(old.browse.request_id);
    if old.browse.loading {
        new == old && fx.len() == 0
    } else {
        match old.browse.session_state {
            Some(BrowseSessionState::AllSections(walks)) => {
                &&& new == App {
                    browse: BrowseState {
                        scope: BrowseScope::AllSections,
                        scope_label: new.browse.scope_label,
                        loading: true,
                        request_id: id,
                        ..old.browse
                    },
                    ..old
                }
                &&& new.browse.scope_label@ == "All sections"@
                &&& fx.len() == 1
                &&& fx[0] matches Effect::ContinueAllSections { request_id, state, limit }
                    && request_id == id && limit == old.browse.limit
                    && state.section_states@.len() == walks.section_states@.len()
                    && forall|i: int|
                    0 <= i < state.section_states@.len() ==> same_walk(
                        #[trigger] state.section_states@[i],
                        walks.section_states@[i],
                    )
            },
            _ => {
                &&& new == App {
                    browse: BrowseState {
                        request_id: next_u64(id),
                        scope: BrowseScope::AllSections,
                        scope_label: new.browse.scope_label,
                        loading: true,
                        selected: new.browse.selected,
                        report: None,
                        end_reached: false,
                        session_state: None,
                        ..old.browse
                    },
                    ..old
                }
                &&& new.browse.scope_label@ == "All sections"@
                &&& new.browse.selected@.len() == 0
                &&& fx == seq![
                    Effect::BrowseAllSections { request_id: next_u64(id), limit: old.browse.limit },
                ]
            },
        }
    }
}

/// `new` is `old` after a LingQ login was asked for: an error notice when the
/// username is blank or the password empty; else the loading flag is raised,
/// the password is handed to the login and cleared.
pub open spec fn login_requested(old: App, new: App, fx: Seq<Effect>) -> bool {
    if trim(old.lingq.username@).len() == 0 || old.lingq.password@.len() == 0 {
        &&& only_notice_changed(old, new)
        &&& notice_is(new, "Enter your LingQ username and password."@, NoticeKind::Error)
        &&& fx.len() == 0
    } else {
        &&& new == App {
            lingq: LingqState {
                loading_collections: true,
                password: new.lingq.password,
                ..old.lingq
            },
            ..old
        }
        &&& new.lingq.password@.len() == 0
        &&& fx == seq![
            Effect::Login { username: old.lingq.username, password: old.lingq.password },
        ]
    }
}

/// `new` is `old` with the queue restored from `snapshot` (and the finished
/// jobs from `history` when it was read): the larger next id, the paused flag,
/// the waiting jobs and failures, the newest finished job selected, and a
/// notice when jobs are waiting.
pub open spec fn queue_restored(
    old: App,
    snapshot: QueueSnapshot,
    history: Option<Vec<CompletedJob>>,
    new: App,
) -> bool {
    let completed = match history {
        Some(h) => h,
        None => snapshot.completed_jobs,
    };
    &&& new.jobs == JobQueue {
        next_job_id: if old.jobs.next_job_id >= snapshot.next_job_id {
            old.jobs.next_job_id
        } else {
            snapshot.next_job_id
        },
        paused: snapshot.queue_paused,
        queued: snapshot.queued_jobs,
        completed,
        last_failed_uploads: snapshot.failed_uploads,
        diagnostics_selected_job_id: if completed@.len() > 0 {
            Some(completed@[0].id)
        } else {
            None
        },
        ..old.jobs
    }
    &&& new.browse == BrowseState { failed_fetches: snapshot.failed_fetches, ..old.browse }
    &&& if snapshot.queued_jobs@.len() > 0 {
        &&& new == App {
            jobs: new.jobs,
            browse: new.browse,
            notice: new.notice,
            notice_serial: next_u64(old.notice_serial),
            ..old
        }
        &&& notice_is(
            new,
            "Restored "@ + decimal(snapshot.queued_jobs@.len()) + " queued job(s)."@,
            NoticeKind::Info,
        )
    } else {
        new == App { jobs: new.jobs, browse: new.browse, ..old }
    }
}

impl App {
    /// Shows `message` as a notice of the given kind.
    
    pub fn set_notice(&mut self, message: String, kind: NoticeKind)
        ensures
            only_notice_changed(*old(self), *final(self)),
            final(self).notice == (Some(Notice { message, kind })),
    {
        self.notice = Some(Notice { message, kind });
        self.notice_serial = if self.notice_serial == u64::MAX {
            0
        } else {
            self.notice_serial + 1
        };
    }

    /// Records a failed background task, newest first, keeping at most
    /// the limit.
    pub fn record_task_failure(&mut self, error: AppError)
        ensures
            failure_recorded(*old(self), *final(self), error),
    {
        if self.jobs.recent_task_failures.len() >= TASK_FAILURE_LIMIT {
            self.jobs.recent_task_failures.pop();
        }
        self.jobs.recent_task_failures.insert(0, error);
        assert(self.jobs.recent_task_failures@ =~= failures_after(
            old(self).jobs.recent_task_failures@,
            error,
        ));
    }

    /// Records a failed task and shows its notice as an error.
    pub fn set_task_error_notice(&mut self, error: AppError)
        ensures
            task_error_shown(*old(self), *final(self), error),
    {
        let notice = error.notice_message();
        self.record_task_failure(error);
        self.set_notice(notice, NoticeKind::Error);
    }

    /// Copies the view, section, browse filter and LingQ course into the
    /// settings, and asks for them to be written.
    pub fn save_settings(&mut self) -> (fx: Vec<Effect>)
        ensures
            settings_saved(*old(self), *final(self)),
            fx@ == seq![Effect::SaveSettings],
    {
        self.settings.data.last_view = String::from_str(self.current_view.as_str());
        self.settings.data.browse_section = self.browse.section.clone();
        self.settings.data.browse_only_new = self.browse.only_new;
        self.settings.data.lingq_collection_id = self.lingq.selected_collection;
        let mut fx: Vec<Effect> = Vec::new();
        fx.push(Effect::SaveSettings);
        fx
    }

    /// The id for a new job: one more than the last (wrapping).
    pub fn next_job_id(&mut self) -> (id: u64)
        ensures
            job_id_taken(*old(self), *final(self), id),
    {
        self.jobs.next_job_id = if self.jobs.next_job_id == u64::MAX {
            0
        } else {
            self.jobs.next_job_id + 1
        };
        self.jobs.next_job_id
    }

    /// What is written to the database to restore the queue later: the next
    /// id, whether the queue is paused, the waiting and finished jobs, and the
    /// failed imports and uploads.
    pub fn queue_snapshot(&self) -> (res: QueueSnapshot)
        ensures
            is_snapshot_of(res, *self),
    {
        QueueSnapshot {
            next_job_id: self.jobs.next_job_id,
            queue_paused: self.jobs.paused,
            queued_jobs: copy_queued_jobs(&self.jobs.queued),
            completed_jobs: copy_completed_jobs(&self.jobs.completed),
            failed_fetches: copy_failed_fetches(&self.browse.failed_fetches),
            failed_uploads: copy_upload_failures(&self.jobs.last_failed_uploads),
        }
    }

    /// Starts `job`: records its progress, raises the import or upload flag
    /// and asks for its request to be run.
    pub fn start_job(&mut self, job: QueuedJob) -> (fx: Vec<Effect>)
        ensures
            job_started(*old(self), job, old(self).jobs.queued@, *final(self), fx@),
    {
        self.jobs.active_job = Some(
            ActiveJob {
                id: job.id,
                kind: job.kind,
                label: job.label.clone(),
                total: job.total,
                processed: 0,
                succeeded: 0,
                failed: 0,
                current_item: String::new(),
            },
        );
        self.browse.batch_fetching = job.kind == JobKind::Import;
        self.lingq.uploading = job.kind == JobKind::Upload;
        let mut fx: Vec<Effect> = Vec::new();
        match job.request {
            QueuedJobRequest::Import { articles } => {
                self.browse.failed_fetches.clear();
                fx.push(Effect::RunImport { job_id: job.id, articles });
            },
            QueuedJobRequest::Upload { ids, collection_id } => {
                fx.push(
                    Effect::RunUpload {
                        job_id: job.id,
                        ids,
                        api_key: self.lingq.api_key.clone(),
                        collection_id,
                    },
                );
            },
        }
        fx
    }

    /// Hands `job` to the queue: it waits while another job runs, else it
    /// starts at once.
    pub fn enqueue_job(&mut self, job: QueuedJob) -> (fx: Vec<Effect>)
        ensures
            job_enqueued(*old(self), job, *final(self), fx@),
    {
        if self.jobs.active_job.is_some() {
            self.jobs.queued.push(job);
            let mut text = lit("Job queued. ");
            append_chars(&mut text, &decimal_vec(self.jobs.queued.len()));
            append_chars(&mut text, &lit(" job(s) waiting."));
            self.set_notice(string_of(&text), NoticeKind::Info);
            let mut fx: Vec<Effect> = Vec::new();
            fx.push(Effect::PersistQueue);
            return fx;
        }
        let mut fx = self.start_job(job);
        let ghost started = fx@;
        fx.push(Effect::PersistQueue);
        assert(fx@.drop_last() =~= started);
        fx
    }

    /// Starts the job at the head of the queue when nothing runs and the
    /// queue is not paused.
    pub fn try_start_next_queued_job(&mut self) -> (fx: Vec<Effect>)
        ensures
            next_job_tried(*old(self), *final(self), fx@),
    {
        if self.jobs.active_job.is_some() || self.jobs.paused || self.jobs.queued.len() == 0 {
            return Vec::new();
        }
        let job = self.jobs.queued.remove(0);
        let is_upload: bool = match job.request {
            QueuedJobRequest::Upload { .. } => true,
            QueuedJobRequest::Import { .. } => false,
        };
        if is_upload && trim_vec(&chars_of(self.lingq.api_key.as_str())).len() == 0 {
            self.jobs.queued.insert(0, job);
            assert(self.jobs.queued@ =~= old(self).jobs.queued@);
            self.set_notice(
                String::from_str("Queued uploads waiting for LingQ connection."),
                NoticeKind::Info,
            );
            let mut fx: Vec<Effect> = Vec::new();
            fx.push(Effect::PersistQueue);
            return fx;
        }
        let mut fx: Vec<Effect> = Vec::new();
        fx.push(Effect::PersistQueue);
        let mut rest = self.start_job(job);
        let ghost rv = rest@;
        fx.append(&mut rest);
        assert(fx@.drop_first() =~= rv);
        fx
    }

    /// Records a finished job at the head of the history, stamped with the
    /// current time.
    pub fn record_completed_job(
        &mut self,
        id: u64,
        kind: JobKind,
        label: String,
        summary: String,
        success: bool,
    ) -> (fx: Vec<Effect>)
        ensures
            job_recorded(*old(self), *final(self), id, kind, label@, summary@, success, fx@),
    {
        let completed = CompletedJob {
            id,
            kind,
            label,
            summary,
            success,
            recorded_at: crate::app_error::unix_seconds_now(),
        };
        let record = completed.duplicate();
        let mut history: Vec<CompletedJob> = Vec::new();
        std::mem::swap(&mut history, &mut self.jobs.completed);
        history.insert(0, completed);
        let ghost all = history@;
        while history.len() > COMPLETED_JOB_HISTORY_LIMIT
            invariant
                history@.len() <= all.len(),
                history@.len() >= (if all.len() < COMPLETED_JOB_HISTORY_LIMIT {
                    all.len() as int
                } else {
                    COMPLETED_JOB_HISTORY_LIMIT as int
                }),
                history@ == all.take(history@.len() as int),
            decreases history@.len(),
        {
            history.pop();
        }
        assert(all.take(all.len() as int) =~= all);
        assert(all =~= seq![completed] + old(self).jobs.completed@);
        self.jobs.completed = history;
        self.jobs.diagnostics_selected_job_id = Some(id);
        let mut fx: Vec<Effect> = Vec::new();
        fx.push(Effect::RecordJobHistory(record));
        fx.push(Effect::PersistQueue);
        assert(self.jobs.completed@[0] == completed);
        assert(self.jobs.completed@ == history_after(old(self).jobs.completed@, completed));
        assert(fx@ == seq![Effect::RecordJobHistory(completed), Effect::PersistQueue]);
        fx
    }

    /// Starts loading the current section afresh.
    pub fn spawn_browse_refresh(&mut self) -> (fx: Vec<Effect>)
        ensures
            browse_refresh_started(*old(self), *final(self), fx@),
    {
        self.browse.scope = BrowseScope::CurrentSection;
        self.browse.scope_label = String::from_str(BrowseScope::CurrentSection.label());
        self.browse.loading = true;
        self.browse.selected.clear();
        self.browse.report = None;
        self.browse.end_reached = false;
        self.browse.session_state = None;
        self.browse.request_id = if self.browse.request_id == u64::MAX {
            0
        } else {
            self.browse.request_id + 1
        };
        let mut fx: Vec<Effect> = Vec::new();
        fx.push(
            Effect::BrowseSection {
                request_id: self.browse.request_id,
                section: self.browse.section.clone(),
                limit: self.browse.limit,
            },
        );
        fx
    }

    /// Starts loading all sections afresh.
    pub fn spawn_browse_all_sections(&mut self) -> (fx: Vec<Effect>)
        ensures
            browse_all_started(*old(self), *final(self), fx@),
    {
        self.browse.scope = BrowseScope::AllSections;
        self.browse.scope_label = String::from_str(BrowseScope::AllSections.label());
        self.browse.loading = true;
        self.browse.selected.clear();
        self.browse.report = None;
        self.browse.end_reached = false;
        self.browse.session_state = None;
        self.browse.request_id = if self.browse.request_id == u64::MAX {
            0
        } else {
            self.browse.request_id + 1
        };
        let mut fx: Vec<Effect> = Vec::new();
        fx.push(Effect::BrowseAllSections { request_id: self.browse.request_id, limit: self.browse.limit });
        fx
    }

    /// Starts reloading the library cards, stats and imported URLs.
    pub fn spawn_content_refresh(&mut self, reason: &str) -> (fx: Vec<Effect>)
        ensures
            content_refresh_started(*old(self), *final(self), reason@, fx@),
    {
        self.library.loading = true;
        self.library.content_refresh_request_id = if self.library.content_refresh_request_id
            == u64::MAX {
            0
        } else {
            self.library.content_refresh_request_id + 1
        };
        let mut fx: Vec<Effect> = Vec::new();
        fx.push(
            Effect::RefreshContent {
                request_id: self.library.content_refresh_request_id,
                reason: string_of(&chars_of(reason)),
            },
        );
        fx
    }

    /// Starts loading the LingQ courses with the current token.
    pub fn spawn_load_collections(&mut self) -> (fx: Vec<Effect>)
        ensures
            collections_requested(*old(self), *final(self), fx@),
    {
        if trim_vec(&chars_of(self.lingq.api_key.as_str())).len() == 0 {
            self.set_notice(String::from_str("Enter a LingQ API key first."), NoticeKind::Error);
            return Vec::new();
        }
        self.lingq.loading_collections = true;
        let mut fx: Vec<Effect> = Vec::new();
        fx.push(Effect::LoadCollections { api_key: self.lingq.api_key.clone() });
        fx
    }

    /// Loads more of the current section.
    pub fn spawn_load_more_current_section(&mut self) -> (fx: Vec<Effect>)
        ensures
            more_of_section_requested(*old(self), *final(self), fx@),
    {
        if self.browse.loading {
            return Vec::new();
        }
        self.browse.scope = BrowseScope::CurrentSection;
        self.browse.scope_label = String::from_str(BrowseScope::CurrentSection.label());
        self.browse.loading = true;
        self.browse.request_id = if self.browse.request_id == u64::MAX {
            0
        } else {
            self.browse.request_id + 1
        };
        let walk: Option<SectionBrowseState> = match &self.browse.session_state {
            Some(BrowseSessionState::CurrentSection(state)) => Some(state.duplicate()),
            _ => None,
        };
        match walk {
            Some(state) => {
                let mut fx: Vec<Effect> = Vec::new();
                fx.push(
                    Effect::ContinueSection {
                        request_id: self.browse.request_id,
                        state,
                        limit: self.browse.limit,
                    },
                );
                fx
            },
            None => self.spawn_browse_refresh(),
        }
    }

    /// Loads more of every section.
    pub fn spawn_load_more_all_sections(&mut self) -> (fx: Vec<Effect>)
        ensures
            more_of_all_requested(*old(self), *final(self), fx@),
    {
        if self.browse.loading {
            return Vec::new();
        }
        self.browse.scope = BrowseScope::AllSections;
        self.browse.scope_label = String::from_str(BrowseScope::AllSections.label());
        self.browse.loading = true;
        self.browse.request_id = if self.browse.request_id == u64::MAX {
            0
        } else {
            self.browse.request_id + 1
        };
        let walks: Option<AllSectionsBrowseState> = match &self.browse.session_state {
            Some(BrowseSessionState::AllSections(state)) => Some(state.duplicate()),
            _ => None,
        };
        match walks {
            Some(state) => {
                let mut fx: Vec<Effect> = Vec::new();
                fx.push(
                    Effect::ContinueAllSections {
                        request_id: self.browse.request_id,
                        state,
                        limit: self.browse.limit,
                    },
                );
                fx
            },
            None => self.spawn_browse_all_sections(),
        }
    }

    /// Opens the preview drawer and starts fetching the article at `url`.
    pub fn spawn_open_preview(&mut self, url: String) -> (fx: Vec<Effect>)
        ensures
            *final(self) == (App {
                preview: PreviewState { loading: true, show: true, article: None, stored_article: None },
                ..*old(self)
            }),
            fx@ == seq![Effect::PreviewArticle { url }],
    {
        self.preview.loading = true;
        self.preview.show = true;
        self.preview.article = None;
        self.preview.stored_article = None;
        let mut fx: Vec<Effect> = Vec::new();
        fx.push(Effect::PreviewArticle { url });
        fx
    }

    /// Starts a LingQ login with the typed username and password.
    pub fn spawn_login_to_lingq(&mut self) -> (fx: Vec<Effect>)
        ensures
            login_requested(*old(self), *final(self), fx@),
    {
        if trim_vec(&chars_of(self.lingq.username.as_str())).len() == 0
            || chars_of(self.lingq.password.as_str()).len() == 0 {
            proof {
                assert(self.lingq.password@.len() == 0 ==> self.lingq.password@.len() == 0);
            }
            self.set_notice(
                String::from_str("Enter your LingQ username and password."),
                NoticeKind::Error,
            );
            return Vec::new();
        }
        self.lingq.loading_collections = true;
        let username = self.lingq.username.clone();
        let mut password = String::new();
        std::mem::swap(&mut password, &mut self.lingq.password);
        let mut fx: Vec<Effect> = Vec::new();
        fx.push(Effect::Login { username, password });
        fx
    }

    /// Restores the queue saved by an earlier session.
    pub fn load_persisted_queue_state(
        &mut self,
        snapshot: QueueSnapshot,
        history: Option<Vec<CompletedJob>>,
    )
        ensures
            queue_restored(*old(self), snapshot, history, *final(self)),
    {
        let ghost snap = snapshot;
        if snapshot.next_job_id > self.jobs.next_job_id {
            self.jobs.next_job_id = snapshot.next_job_id;
        }
        self.jobs.paused = snapshot.queue_paused;
        let waiting: usize = snapshot.queued_jobs.len();
        self.jobs.queued = snapshot.queued_jobs;
        self.browse.failed_fetches = snapshot.failed_fetches;
        self.jobs.last_failed_uploads = snapshot.failed_uploads;
        self.jobs.completed = match history {
            Some(h) => h,
            None => snapshot.completed_jobs,
        };
        self.jobs.diagnostics_selected_job_id = if self.jobs.completed.len() > 0 {
            Some(self.jobs.completed[0].id)
        } else {
            None
        };
        if waiting > 0 {
            let mut text = lit("Restored ");
            append_chars(&mut text, &decimal_vec(waiting));
            append_chars(&mut text, &lit(" queued job(s)."));
            self.set_notice(string_of(&text), NoticeKind::Info);
        }
    }
}


/// `app` is the state the app starts in, before anything is restored or
/// loaded: the view, section, browse filter and LingQ course come from the
/// settings, the token is the stored one (counting as connected when not
/// blank), and everything else is empty, off or at its default.
pub open spec fn is_fresh_app(app: App, settings: SettingsStore, api_key: String, app_context_error: Option<String>) -> bool {
    &&& app.settings == settings
    &&& app.app_context_error == app_context_error
    &&& app.current_view == Screen::spec_from_str(settings.data.last_view@)
    &&& app.notice is None
    &&& app.notice_serial == 0
    &&& app.browse.request_id == 0
    &&& app.browse.section@ == settings.data.browse_section@
    &&& app.browse.limit == BROWSE_PAGE_STEP
    &&& app.browse.scope == BrowseScope::CurrentSection
    &&& app.browse.articles@.len() == 0
    &&& app.browse.report is None
    &&& app.browse.scope_label@ == "Current section"@
    &&& app.browse.search@.len() == 0
    &&& app.browse.selected@.len() == 0
    &&& app.browse.only_new == settings.data.browse_only_new
    &&& app.browse.imported_urls@.len() == 0
    &&& !app.browse.loading
    &&& !app.browse.end_reached
    &&& app.browse.session_state is None
    &&& !app.browse.batch_fetching
    &&& app.browse.failed_fetches@.len() == 0
    &&& app.browse.import_progress is None
    &&& app.preview.article is None
    &&& app.preview.stored_article is None
    &&& !app.preview.loading
    &&& !app.preview.show
    &&& app.library.content_refresh_request_id == 0
    &&& app.library.articles@.len() == 0
    &&& app.library.stats is None
    &&& !app.library.loading
    &&& app.library.search@.len() == 0
    &&& app.library.search_query@.len() == 0
    &&& app.library.search_results@.len() == 0
    &&& app.library.topic@.len() == 0
    &&& !app.library.only_not_uploaded
    &&& app.library.word_count_min@.len() == 0
    &&& app.library.word_count_max@.len() == 0
    &&& app.library.group_by_topic
    &&& app.library.sort_mode == crate::domain::LibrarySortMode::Newest
    &&& app.library.filters_expanded
    &&& !app.library.dense_mode
    &&& app.library.page_index == 0
    &&& app.library.page_cache is None
    &&& app.library.article_detail is None
    &&& app.lingq.api_key == api_key
    &&& app.lingq.auth_mode == LingqAuthMode::Account
    &&& app.lingq.username@.len() == 0
    &&& app.lingq.password@.len() == 0
    &&& app.lingq.connected == (trim(api_key@).len() > 0)
    &&& app.lingq.collections@.len() == 0
    &&& app.lingq.selected_collection == settings.data.lingq_collection_id
    &&& app.lingq.selected_articles@.len() == 0
    &&& app.lingq.word_count_min@.len() == 0
    &&& app.lingq.word_count_max@.len() == 0
    &&& app.lingq.select_only_not_uploaded
    &&& !app.lingq.show_settings
    &&& !app.lingq.loading_collections
    &&& !app.lingq.uploading
    &&& app.lingq.upload_progress is None
    &&& app.jobs.next_job_id == 0
    &&& !app.jobs.paused
    &&& app.jobs.active_job is None
    &&& app.jobs.queued@.len() == 0
    &&& app.jobs.completed@.len() == 0
    &&& app.jobs.last_failed_uploads@.len() == 0
    &&& app.jobs.recent_task_failures@.len() == 0
    &&& app.jobs.diagnostics_selected_job_id is None
}

/// `new` is the app after starting up from `fresh`: the saved queue restored
/// (when it could be read), the first of the startup notices shown, and then
/// the current section and the library loaded, the courses asked for when a
/// token is stored, and the next waiting job tried.
pub open spec fn started_up(
    fresh: App,
    persisted: Option<(QueueSnapshot, Option<Vec<CompletedJob>>)>,
    notice: Option<String>,
    new: App,
    fx: Seq<Effect>,
) -> bool {
    exists|noticed: App, browsing: App, refreshing: App, connecting: App, n1: int, n2: int, n3: int|
        #![trigger restored_and_noticed(fresh, persisted, notice, noticed), browse_refresh_started(noticed, browsing, fx.take(n1)), content_refresh_started(browsing, refreshing, "app startup"@, fx.subrange(n1, n2)), next_job_tried(connecting, new, fx.subrange(n3, fx.len() as int))]
        {
            &&& restored_and_noticed(fresh, persisted, notice, noticed)
            &&& 0 <= n1 <= n2 <= n3 <= fx.len()
            &&& browse_refresh_started(noticed, browsing, fx.take(n1))
            &&& content_refresh_started(browsing, refreshing, "app startup"@, fx.subrange(n1, n2))
            &&& if refreshing.lingq.connected {
                collections_requested(refreshing, connecting, fx.subrange(n2, n3))
            } else {
                connecting == refreshing && n2 == n3
            }
            &&& next_job_tried(connecting, new, fx.subrange(n3, fx.len() as int))
        }
}

/// `restored` is `fresh` with the saved queue restored, when it could be read.
pub open spec fn restored_from(
    fresh: App,
    persisted: Option<(QueueSnapshot, Option<Vec<CompletedJob>>)>,
    restored: App,
) -> bool {
    match persisted {
        Some((snapshot, history)) => queue_restored(fresh, snapshot, history, restored),
        None => restored == fresh,
    }
}

/// Whether `s` records the queue of `app`: the next job id, the pause, the
/// queued jobs, the history and the retry lists.
pub open spec fn is_snapshot_of(s: QueueSnapshot, app: App) -> bool {
    &&& s.next_job_id == app.jobs.next_job_id
    &&& s.queue_paused == app.jobs.paused
    &&& same_jobs(s.queued_jobs@, app.jobs.queued@)
    &&& s.completed_jobs@ == app.jobs.completed@
    &&& s.failed_fetches@ == app.browse.failed_fetches@
    &&& s.failed_uploads@ == app.jobs.last_failed_uploads@
}

/// A saved queue comes back as it was: restoring the snapshot of `app`
/// (without a separate history) into any app gives back its queued jobs,
/// pause, history and retry lists, and job ids that do not fall behind.
pub proof fn law_saved_queue_comes_back(app: App, s: QueueSnapshot, before: App, after: App)
    requires
        is_snapshot_of(s, app),
        queue_restored(before, s, None, after),
    ensures
        same_jobs(after.jobs.queued@, app.jobs.queued@),
        after.jobs.paused == app.jobs.paused,
        after.jobs.completed@ == app.jobs.completed@,
        after.jobs.last_failed_uploads@ == app.jobs.last_failed_uploads@,
        after.browse.failed_fetches@ == app.browse.failed_fetches@,
        after.jobs.next_job_id >= app.jobs.next_job_id,
{
}

/// `noticed` is `fresh` with the saved queue restored (when it could be
/// read) and then the startup notice shown (when there is one).
pub open spec fn restored_and_noticed(
    fresh: App,
    persisted: Option<(QueueSnapshot, Option<Vec<CompletedJob>>)>,
    notice: Option<String>,
    noticed: App,
) -> bool {
    exists|restored: App|
        {
            &&& #[trigger] restored_from(fresh, persisted, restored)
            &&& match notice {
                Some(m) => only_notice_changed(restored, noticed) && noticed.notice == Some(
                    Notice { message: m, kind: NoticeKind::Info },
                ),
                None => noticed == restored,
            }
        }
}

impl App {
    /// The app at startup, from what the shell read: the settings (and the
    /// notice when they fell back to defaults), the stored LingQ token (and
    /// the notice when the store could not be read), the database error when
    /// it could not be opened, and the saved queue and job history when they
    /// could be read. Returns the app and the work to start with.
    pub fn new(
        settings: SettingsStore,
        settings_notice: Option<String>,
        api_key: String,
        key_notice: Option<String>,
        app_context_error: Option<String>,
        persisted: Option<(QueueSnapshot, Option<Vec<CompletedJob>>)>,
    ) -> (res: (App, Vec<Effect>))
        ensures
            exists|fresh: App|
                is_fresh_app(fresh, settings, api_key, app_context_error) && started_up(
                    fresh,
                    persisted,
                    match settings_notice {
                        Some(m) => Some(m),
                        None => match key_notice {
                            Some(m) => Some(m),
                            None => app_context_error,
                        },
                    },
                    res.0,
                    res.1@,
                ),
    {
        let ghost settings_v = settings;
        let ghost key_v = api_key;
        let ghost ctx_v = app_context_error;
        let current_view = Screen::from_str(settings.data.last_view.as_str());
        let browse_section = settings.data.browse_section.clone();
        let browse_only_new = settings.data.browse_only_new;
        let selected_collection = settings.data.lingq_collection_id;
        let connected: bool = trim_vec(&chars_of(api_key.as_str())).len() > 0;
        let context_notice: Option<String> = match &app_context_error {
            Some(e) => Some(e.clone()),
            None => None,
        };
        let mut app = App {
            settings,
            app_context_error,
            current_view,
            notice: None,
            notice_serial: 0,
            browse: BrowseState {
                request_id: 0,
                section: browse_section,
                limit: BROWSE_PAGE_STEP,
                scope: BrowseScope::CurrentSection,
                articles: Vec::new(),
                report: None,
                scope_label: String::from_str(BrowseScope::CurrentSection.label()),
                search: String::new(),
                selected: Vec::new(),
                only_new: browse_only_new,
                imported_urls: Vec::new(),
                loading: false,
                end_reached: false,
                session_state: None,
                batch_fetching: false,
                failed_fetches: Vec::new(),
                import_progress: None,
            },
            preview: PreviewState { article: None, stored_article: None, loading: false, show: false },
            library: LibraryState {
                content_refresh_request_id: 0,
                articles: Vec::new(),
                stats: None,
                loading: false,
                search: String::new(),
                search_query: String::new(),
                search_results: Vec::new(),
                topic: String::new(),
                only_not_uploaded: false,
                word_count_min: String::new(),
                word_count_max: String::new(),
                group_by_topic: true,
                sort_mode: crate::domain::LibrarySortMode::Newest,
                filters_expanded: true,
                dense_mode: false,
                page_index: 0,
                page_cache: None,
                article_detail: None,
            },
            lingq: LingqState {
                api_key,
                auth_mode: LingqAuthMode::Account,
                username: String::new(),
                password: String::new(),
                connected,
                collections: Vec::new(),
                selected_collection,
                selected_articles: Vec::new(),
                word_count_min: String::new(),
                word_count_max: String::new(),
                select_only_not_uploaded: true,
                show_settings: false,
                loading_collections: false,
                uploading: false,
                upload_progress: None,
            },
            jobs: JobQueue {
                next_job_id: 0,
                paused: false,
                active_job: None,
                queued: Vec::new(),
                completed: Vec::new(),
                last_failed_uploads: Vec::new(),
                recent_task_failures: Vec::new(),
                diagnostics_selected_job_id: None,
            },
        };
        let ghost fresh = app;
        assert(is_fresh_app(fresh, settings_v, key_v, ctx_v));
        let ghost persisted_v = persisted;
        match persisted {
            Some((snapshot, history)) => app.load_persisted_queue_state(snapshot, history),
            None => {},
        }
        let ghost restored = app;
        let notice: Option<String> = match settings_notice {
            Some(m) => Some(m),
            None => match key_notice {
                Some(m) => Some(m),
                None => context_notice,
            },
        };
        let ghost notice_v = notice;
        match notice {
            Some(m) => app.set_notice(m, NoticeKind::Info),
            None => {},
        }
        let ghost noticed = app;
        let mut fx = app.spawn_browse_refresh();
        let ghost browsing = app;
        let ghost n1: int = fx@.len() as int;
        let mut more = app.spawn_content_refresh("app startup");
        let ghost refreshing = app;
        let ghost f1 = fx@;
        let ghost m1 = more@;
        fx.append(&mut more);
        let ghost n2: int = fx@.len() as int;
        let ghost mut m2: Seq<Effect> = Seq::empty();
        if app.lingq.connected {
            let mut more2 = app.spawn_load_collections();
            proof {
                m2 = more2@;
            }
            fx.append(&mut more2);
        }
        let ghost connecting = app;
        let ghost f2 = fx@;
        let ghost n3: int = fx@.len() as int;
        let mut more3 = app.try_start_next_queued_job();
        let ghost m3 = more3@;
        fx.append(&mut more3);
        proof {
            assert(fx@.take(n1) =~= f1);
            assert(fx@.subrange(n1, n2) =~= m1);
            assert(fx@.subrange(n3, fx@.len() as int) =~= m3);
            if refreshing.lingq.connected {
                assert(fx@.subrange(n2, n3) =~= m2);
            }
            assert(restored_from(fresh, persisted_v, restored));
            assert(browse_refresh_started(noticed, browsing, fx@.take(n1)));
            assert(content_refresh_started(browsing, refreshing, "app startup"@, fx@.subrange(n1, n2)));
            assert(next_job_tried(connecting, app, fx@.subrange(n3, fx@.len() as int)));
            if refreshing.lingq.connected {
                assert(collections_requested(refreshing, connecting, fx@.subrange(n2, n3)));
            }
            assert(restored_and_noticed(fresh, persisted_v, notice_v, noticed));
            assert(started_up(fresh, persisted_v, notice_v, app, fx@));
        }
        (app, fx)
    }
}


// ───────────────────────────── laws of the queue ─────────────────────────────

/// The finished-job history never holds more than its limit, keeps the job
/// just recorded at its head, and keeps the older jobs in order after it.
pub proof fn law_history_is_capped(old: Seq<CompletedJob>, job: CompletedJob)
    ensures
        history_after(old, job).len() <= COMPLETED_JOB_HISTORY_LIMIT,
        history_after(old, job)[0] == job,
        history_after(old, job).drop_first() == old.take(history_after(old, job).len() - 1),
{
    let all = seq![job] + old;
    assert(all.drop_first() =~= old);
    if all.len() > COMPLETED_JOB_HISTORY_LIMIT {
        assert(all.take(COMPLETED_JOB_HISTORY_LIMIT as int).drop_first() =~= old.take(
            COMPLETED_JOB_HISTORY_LIMIT as int - 1,
        ));
    } else {
        assert(old.take(old.len() as int) =~= old);
    }
}

/// The recorded task failures never grow past their limit.
pub proof fn law_task_failures_are_capped(old: Seq<AppError>, error: AppError)
    requires
        old.len() <= TASK_FAILURE_LIMIT,
    ensures
        failures_after(old, error).len() <= TASK_FAILURE_LIMIT,
        failures_after(old, error)[0] == error,
{
}

/// While the queue is paused, trying the next job changes nothing and starts
/// nothing.
pub proof fn law_paused_queue_starts_nothing(old: App, new: App, fx: Seq<Effect>)
    requires
        next_job_tried(old, new, fx),
        old.jobs.paused,
    ensures
        new == old,
        fx.len() == 0,
{
}

/// While a job runs, trying the next job changes nothing; and a job handed to
/// the queue then waits at its end, leaving the running job as it was.
pub proof fn law_one_job_at_a_time(old: App, job: QueuedJob, new: App, fx: Seq<Effect>)
    requires
        old.jobs.active_job is Some,
        job_enqueued(old, job, new, fx),
    ensures
        new.jobs.active_job == old.jobs.active_job,
        new.jobs.queued@ == old.jobs.queued@.push(job),
        fx == seq![Effect::PersistQueue],
{
}

/// The queue runs first in, first out: when nothing runs, the queue is not
/// paused and its head may start (an import, or an upload with a token), the
/// head becomes the running job and the rest of the queue stays in order.
pub proof fn law_queue_is_first_in_first_out(old: App, new: App, fx: Seq<Effect>)
    requires
        next_job_tried(old, new, fx),
        old.jobs.active_job is None,
        !old.jobs.paused,
        old.jobs.queued@.len() > 0,
        old.jobs.queued@[0].request is Import || trim(old.lingq.api_key@).len() > 0,
    ensures
        new.jobs.active_job matches Some(a) && a.id == old.jobs.queued@[0].id && a.label
            == old.jobs.queued@[0].label,
        new.jobs.queued@ == old.jobs.queued@.drop_first(),
        fx[0] == Effect::PersistQueue,
{
}

/// A new job id is one more than the last one handed out (wrapping after
/// the largest `u64`), so ids never repeat before the counter wraps.
pub proof fn law_job_ids_increase(old: App, new: App, id: u64)
    requires
        job_id_taken(old, new, id),
        old.jobs.next_job_id < u64::MAX,
    ensures
        id == old.jobs.next_job_id + 1,
        new.jobs.next_job_id == id,
{
}

} // verus!
