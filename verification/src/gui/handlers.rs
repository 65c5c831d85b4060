//! The app's answer to each kind of message, one method each, with the
//! next state and the work asked of the shell stated in full.
use vstd::prelude::*;
use crate::app_error::AppError;
use crate::database::StoredArticle;
use crate::domain::{ArticleListItem, LibrarySortMode};
use crate::gui::helpers::{
    compute_local_library_stats, count_uploaded, counts_right, covers, format_import_result_summary,
    parse_optional_positive_usize, round_half_away, section_before, section_key,
    spec_article_matches_search, spec_card_topic, spec_effective_topic,
    spec_import_result_summary, spec_parse_optional_positive_usize,
    stored_article_to_preview_article, sum_words,
};
use crate::gui::message::{DetailTarget, Effect, KeyFollowUp, Message, SelectionRequest};
use crate::gui::state::{
    App, BrowseScope, BrowseState, JobQueue, LibraryState, LingqAuthMode, LingqState, Notice,
    NoticeKind, PreviewState, Screen, BROWSE_PAGE_STEP,
};
use crate::gui::tasks::{
    browse_all_refreshed, browse_refreshed, collections_requested, content_refresh_started,
    failure_recorded, job_enqueued, job_id_taken, job_recorded, job_started, login_requested,
    more_of_all_requested, more_of_section_requested, next_job_tried, next_u64, notice_is,
    only_notice_changed, settings_hold, settings_saved, task_error_shown,
};
use crate::jobs::{
    FailedFetchItem, ImportProgress, JobKind, QueuedJob, QueuedJobRequest, UploadFailure,
    UploadProgress, UploadSuccess,
};
use crate::text::{
    append_chars, chars_eq, chars_of, decimal, decimal_vec, lit, lowercase, lowercase_vec,
    string_of, trim, trim_vec,
};

verus! {

// ───────────────────────────── sets kept as vectors ─────────────────────────────

/// Some string of `v` reads `x`.
pub open spec fn has_text(v: Seq<String>, x: Seq<char>) -> bool {
    exists|i: int| 0 <= i < v.len() && (#[trigger] v[i])@ == x
}

/// `v` without the strings that read `x`.
pub open spec fn without_text(v: Seq<String>, x: Seq<char>) -> Seq<String>
    decreases v.len(),
{
    if v.len() == 0 {
        v
    } else {
        let rest = without_text(v.drop_last(), x);
        if v.last()@ == x {
            rest
        } else {
            rest.push(v.last())
        }
    }
}

/// `v` without the ids equal to `id`.
pub open spec fn without_id(v: Seq<i64>, id: i64) -> Seq<i64>
    decreases v.len(),
{
    if v.len() == 0 {
        v
    } else {
        let rest = without_id(v.drop_last(), id);
        if v.last() == id {
            rest
        } else {
            rest.push(v.last())
        }
    }
}

/// The selection after toggling `x`: removed when present, else added.
pub open spec fn toggled_text(v: Seq<String>, x: String) -> Seq<String> {
    if has_text(v, x@) {
        without_text(v, x@)
    } else {
        v.push(x)
    }
}

/// The id selection after toggling `id`: removed when present, else added.
pub open spec fn toggled_id(v: Seq<i64>, id: i64) -> Seq<i64> {
    if v.contains(id) {
        without_id(v, id)
    } else {
        v.push(id)
    }
}

/// `v` without the strings that read `x`.
pub fn remove_text(v: &Vec<String>, x: &Vec<char>) -> (res: Vec<String>)
    ensures
        res@ == without_text(v@, x@),
{
    let mut out: Vec<String> = Vec::new();
    let mut i: usize = 0;
    while i < v.len()
        invariant
            i <= v@.len(),
            out@ == without_text(v@.take(i as int), x@),
        decreases v@.len() - i,
    {
        assert(v@.take(i + 1).drop_last() =~= v@.take(i as int));
        if !chars_eq(&chars_of(v[i].as_str()), x) {
            out.push(v[i].clone());
        }
        i = i + 1;
    }
    assert(v@.take(v@.len() as int) =~= v@);
    out
}

/// `v` without the ids equal to `id`.
pub fn remove_id(v: &Vec<i64>, id: i64) -> (res: Vec<i64>)
    ensures
        res@ == without_id(v@, id),
{
    let mut out: Vec<i64> = Vec::new();
    let mut i: usize = 0;
    while i < v.len()
        invariant
            i <= v@.len(),
            out@ == without_id(v@.take(i as int), id),
        decreases v@.len() - i,
    {
        assert(v@.take(i + 1).drop_last() =~= v@.take(i as int));
        if v[i] != id {
            out.push(v[i]);
        }
        i = i + 1;
    }
    assert(v@.take(v@.len() as int) =~= v@);
    out
}

/// Whether some string of `v` reads `x`.
pub fn contains_text(v: &Vec<String>, x: &Vec<char>) -> (res: bool)
    ensures
        res == has_text(v@, x@),
{
    let mut i: usize = 0;
    while i < v.len()
        invariant
            i <= v@.len(),
            forall|k: int| 0 <= k < i ==> (#[trigger] v@[k])@ != x@,
        decreases v@.len() - i,
    {
        if chars_eq(&chars_of(v[i].as_str()), x) {
            return true;
        }
        i = i + 1;
    }
    false
}

/// Whether `v` holds `id`.
pub fn contains_id(v: &Vec<i64>, id: i64) -> (res: bool)
    ensures
        res == v@.contains(id),
{
    let mut i: usize = 0;
    while i < v.len()
        invariant
            i <= v@.len(),
            forall|k: int| 0 <= k < i ==> v@[k] != id,
        decreases v@.len() - i,
    {
        if v[i] == id {
            assert(v@[i as int] == id);
            return true;
        }
        i = i + 1;
    }
    false
}

/// Toggles `x` in a selection of strings.
pub fn toggle_text(v: &Vec<String>, x: String) -> (res: Vec<String>)
    ensures
        res@ == toggled_text(v@, x),
{
    let xs = chars_of(x.as_str());
    if contains_text(v, &xs) {
        remove_text(v, &xs)
    } else {
        let mut out: Vec<String> = crate::soziopolis::browse::copy_strings(v);
        out.push(x);
        out
    }
}

/// Toggles `id` in a selection of ids.
pub fn toggle_id(v: &Vec<i64>, id: i64) -> (res: Vec<i64>)
    ensures
        res@ == toggled_id(v@, id),
{
    if contains_id(v, id) {
        remove_id(v, id)
    } else {
        let mut out: Vec<i64> = crate::jobs::copy_ids(v);
        out.push(id);
        out
    }
}

// ───────────────────────────── what each message does ─────────────────────────────

/// `new` is `old` with the library views' cached page dropped.
pub open spec fn library_changed(old: LibraryState, new: LibraryState) -> bool {
    new.page_cache is None
}

/// The URLs of the listed articles that are not imported yet and match the
/// lower-cased `search` (any when it is empty), in listing order.
pub open spec fn visible_new_urls(articles: Seq<crate::soziopolis::types::ArticleSummary>, imported: Seq<String>, search: Seq<char>) -> Seq<String>
    decreases articles.len(),
{
    if articles.len() == 0 {
        Seq::<String>::empty()
    } else {
        let rest = visible_new_urls(articles.drop_last(), imported, search);
        let a = articles.last();
        if !has_text(imported, a.url@) && (search.len() == 0 || spec_article_matches_search(a, search)) {
            rest.push(a.url)
        } else {
            rest
        }
    }
}

/// A summary that knows only its URL (and title): what is queued for URLs
/// that are no longer listed.
pub open spec fn is_bare_summary(a: crate::soziopolis::types::ArticleSummary, url: String, title: Seq<char>) -> bool {
    &&& a.url == url
    &&& a.title@ == title
    &&& a.teaser@.len() == 0
    &&& a.author@.len() == 0
    &&& a.date@.len() == 0
    &&& a.section@.len() == 0
    &&& a.source_kind == crate::soziopolis::types::DiscoverySourceKind::Section
    &&& a.source_label@.len() == 0
}

/// The listed articles whose URL is selected, in listing order.
pub open spec fn selected_listed(articles: Seq<crate::soziopolis::types::ArticleSummary>, selected: Seq<String>) -> Seq<crate::soziopolis::types::ArticleSummary>
    decreases articles.len(),
{
    if articles.len() == 0 {
        articles
    } else {
        let rest = selected_listed(articles.drop_last(), selected);
        if has_text(selected, articles.last().url@) {
            rest.push(articles.last())
        } else {
            rest
        }
    }
}

/// The selected URLs, in selection order, that are neither among `listed`
/// nor repeated.
pub open spec fn unlisted_selected(listed: Seq<Seq<char>>, selected: Seq<String>) -> Seq<String>
    decreases selected.len(),
{
    if selected.len() == 0 {
        selected
    } else {
        let rest = unlisted_selected(listed, selected.drop_last());
        let u = selected.last();
        if listed.contains(u@) || has_text(rest, u@) {
            rest
        } else {
            rest.push(u)
        }
    }
}

/// What "fetch selected" queues: the selected listed articles, then a bare
/// summary for each selected URL that is not listed.
pub open spec fn fetch_selection_is(
    articles: Seq<crate::soziopolis::types::ArticleSummary>,
    selected: Seq<String>,
    queued: Seq<crate::soziopolis::types::ArticleSummary>,
) -> bool {
    let listed = selected_listed(articles, selected);
    let extra = unlisted_selected(listed.map_values(|a: crate::soziopolis::types::ArticleSummary| a.url@), selected);
    &&& queued.len() == listed.len() + extra.len()
    &&& queued.take(listed.len() as int) == listed
    &&& forall|k: int| 0 <= k < extra.len() ==> is_bare_summary(#[trigger] queued[listed.len() + k], extra[k], Seq::<char>::empty())
}

/// `new` is `old` after a new job was made with id `id`, label `label`, the
/// given kind, request and size, and handed to the queue.
pub open spec fn new_job_enqueued(
    old: App,
    kind: JobKind,
    label: Seq<char>,
    total: usize,
    request_is: spec_fn(QueuedJobRequest) -> bool,
    new: App,
    fx: Seq<Effect>,
) -> bool {
    exists|mid: App, job: QueuedJob|
        {
            &&& job_id_taken(old, mid, job.id)
            &&& job.kind == kind
            &&& job.label@ == label
            &&& job.total == total
            &&& request_is(job.request)
            &&& job_enqueued(mid, job, new, fx)
        }
}



/// `new` is `old` after `toggle_lingq_settings`.
pub open spec fn after_toggle_lingq_settings(old: App, new: App) -> bool {
    new == App { lingq: LingqState { show_settings: !old.lingq.show_settings, ..old.lingq }, ..old }
}

/// `new` is `old` after `close_preview`.
pub open spec fn after_close_preview(old: App, new: App) -> bool {
    new == App { preview: PreviewState { show: false, ..old.preview }, ..old }
}

/// `new` is `old` after `set_browse_search`.
pub open spec fn after_set_browse_search(old: App, v: String, new: App) -> bool {
    new == App { browse: BrowseState { search: v, ..old.browse }, ..old }
}

/// `new` is `old` after `clear_browse_selection`.
pub open spec fn after_clear_browse_selection(old: App, new: App) -> bool {
    new == App { browse: BrowseState { selected: new.browse.selected, ..old.browse }, ..old } && new.browse.selected@.len() == 0
}

/// `new` is `old` after `set_library_search`.
pub open spec fn after_set_library_search(old: App, v: String, new: App) -> bool {
    new == App { library: LibraryState { search: v, page_cache: None, ..old.library }, ..old }
}

/// `new` is `old` after `set_library_topic`.
pub open spec fn after_set_library_topic(old: App, v: String, new: App) -> bool {
    new == App { library: LibraryState { topic: v, page_cache: None, ..old.library }, ..old }
}

/// `new` is `old` after `set_library_only_not_uploaded`.
pub open spec fn after_set_library_only_not_uploaded(old: App, v: bool, new: App) -> bool {
    new == App { library: LibraryState { only_not_uploaded: v, page_cache: None, ..old.library }, ..old }
}

/// `new` is `old` after `set_library_min_words`.
pub open spec fn after_set_library_min_words(old: App, v: String, new: App) -> bool {
    new == App { library: LibraryState { word_count_min: v, page_cache: None, ..old.library }, ..old }
}

/// `new` is `old` after `set_library_max_words`.
pub open spec fn after_set_library_max_words(old: App, v: String, new: App) -> bool {
    new == App { library: LibraryState { word_count_max: v, page_cache: None, ..old.library }, ..old }
}

/// `new` is `old` after `set_library_sort`.
pub open spec fn after_set_library_sort(old: App, v: LibrarySortMode, new: App) -> bool {
    new == App { library: LibraryState { sort_mode: v, page_cache: None, ..old.library }, ..old }
}

/// `new` is `old` after `set_library_dense`.
pub open spec fn after_set_library_dense(old: App, v: bool, new: App) -> bool {
    new == App { library: LibraryState { dense_mode: v, ..old.library }, ..old }
}

/// `new` is `old` after `set_library_group_by_topic`.
pub open spec fn after_set_library_group_by_topic(old: App, v: bool, new: App) -> bool {
    new == App { library: LibraryState { group_by_topic: v, page_cache: None, ..old.library }, ..old }
}

/// `new` is `old` after `toggle_library_filters`.
pub open spec fn after_toggle_library_filters(old: App, new: App) -> bool {
    new == App { library: LibraryState { filters_expanded: !old.library.filters_expanded, ..old.library }, ..old }
}

/// `new` is `old` after `clear_upload_selection`.
pub open spec fn after_clear_upload_selection(old: App, new: App) -> bool {
    new == App { lingq: LingqState { selected_articles: new.lingq.selected_articles, ..old.lingq }, ..old } && new.lingq.selected_articles@.len() == 0
}

/// `new` is `old` after `toggle_library_article`.
pub open spec fn after_toggle_library_article(old: App, id: i64, new: App) -> bool {
    new == App { lingq: LingqState { selected_articles: new.lingq.selected_articles, ..old.lingq }, ..old } && new.lingq.selected_articles@ == toggled_id(old.lingq.selected_articles@, id)
}

/// `new` is `old` after `toggle_browse_article`.
pub open spec fn after_toggle_browse_article(old: App, url: String, new: App) -> bool {
    new == App { browse: BrowseState { selected: new.browse.selected, ..old.browse }, ..old } && new.browse.selected@ == toggled_text(old.browse.selected@, url)
}

/// `new` is `old` after `next_library_page`.
pub open spec fn after_next_library_page(old: App, new: App) -> bool {
    new == App { library: LibraryState { page_index: (old.library.page_index + 1) as usize, page_cache: None, ..old.library }, ..old }
}

/// `new` is `old` after `previous_library_page`.
pub open spec fn after_previous_library_page(old: App, new: App) -> bool {
    new == App { library: LibraryState { page_index: if old.library.page_index > 0 { (old.library.page_index - 1) as usize } else { 0 }, page_cache: None, ..old.library }, ..old }
}

/// `new` is `old` after `set_lingq_auth_mode`.
pub open spec fn after_set_lingq_auth_mode(old: App, v: LingqAuthMode, new: App) -> bool {
    new == App { lingq: LingqState { auth_mode: v, ..old.lingq }, ..old }
}

/// `new` is `old` after `set_lingq_username`.
pub open spec fn after_set_lingq_username(old: App, v: String, new: App) -> bool {
    new == App { lingq: LingqState { username: v, ..old.lingq }, ..old }
}

/// `new` is `old` after `set_lingq_password`.
pub open spec fn after_set_lingq_password(old: App, v: String, new: App) -> bool {
    new == App { lingq: LingqState { password: v, ..old.lingq }, ..old }
}

/// `new` is `old` after `set_lingq_api_key`.
pub open spec fn after_set_lingq_api_key(old: App, v: String, new: App) -> bool {
    new == App { lingq: LingqState { api_key: v, ..old.lingq }, ..old }
}

/// `new` is `old` after `select_diagnostics_job`.
pub open spec fn after_select_diagnostics_job(old: App, id: u64, new: App) -> bool {
    new == App { jobs: JobQueue { diagnostics_selected_job_id: Some(id), ..old.jobs }, ..old }
}

/// `new` is `old` after `expire_notice`.
pub open spec fn after_expire_notice(old: App, new: App) -> bool {
    new == App { notice: None, ..old }
}

impl App {
    /// Answers the message of the same name: see `after_toggle_lingq_settings`.
    pub fn toggle_lingq_settings(&mut self)
        ensures
            after_toggle_lingq_settings(*old(self), *final(self)),
    {
        self.lingq.show_settings = !self.lingq.show_settings;
    }

    /// Answers the message of the same name: see `after_close_preview`.
    pub fn close_preview(&mut self)
        ensures
            after_close_preview(*old(self), *final(self)),
    {
        self.preview.show = false;
    }

    /// Answers the message of the same name: see `after_set_browse_search`.
    pub fn set_browse_search(&mut self, v: String)
        ensures
            after_set_browse_search(*old(self), v, *final(self)),
    {
        self.browse.search = v;
    }

    /// Answers the message of the same name: see `after_clear_browse_selection`.
    pub fn clear_browse_selection(&mut self)
        ensures
            after_clear_browse_selection(*old(self), *final(self)),
    {
        self.browse.selected.clear();
    }

    /// Answers the message of the same name: see `after_set_library_search`.
    pub fn set_library_search(&mut self, v: String)
        ensures
            after_set_library_search(*old(self), v, *final(self)),
    {
        self.library.search = v;
        self.library.page_cache = None;
    }

    /// Answers the message of the same name: see `after_set_library_topic`.
    pub fn set_library_topic(&mut self, v: String)
        ensures
            after_set_library_topic(*old(self), v, *final(self)),
    {
        self.library.topic = v;
        self.library.page_cache = None;
    }

    /// Answers the message of the same name: see `after_set_library_only_not_uploaded`.
    pub fn set_library_only_not_uploaded(&mut self, v: bool)
        ensures
            after_set_library_only_not_uploaded(*old(self), v, *final(self)),
    {
        self.library.only_not_uploaded = v;
        self.library.page_cache = None;
    }

    /// Answers the message of the same name: see `after_set_library_min_words`.
    pub fn set_library_min_words(&mut self, v: String)
        ensures
            after_set_library_min_words(*old(self), v, *final(self)),
    {
        self.library.word_count_min = v;
        self.library.page_cache = None;
    }

    /// Answers the message of the same name: see `after_set_library_max_words`.
    pub fn set_library_max_words(&mut self, v: String)
        ensures
            after_set_library_max_words(*old(self), v, *final(self)),
    {
        self.library.word_count_max = v;
        self.library.page_cache = None;
    }

    /// Answers the message of the same name: see `after_set_library_sort`.
    pub fn set_library_sort(&mut self, v: LibrarySortMode)
        ensures
            after_set_library_sort(*old(self), v, *final(self)),
    {
        self.library.sort_mode = v;
        self.library.page_cache = None;
    }

    /// Answers the message of the same name: see `after_set_library_dense`.
    pub fn set_library_dense(&mut self, v: bool)
        ensures
            after_set_library_dense(*old(self), v, *final(self)),
    {
        self.library.dense_mode = v;
    }

    /// Answers the message of the same name: see `after_set_library_group_by_topic`.
    pub fn set_library_group_by_topic(&mut self, v: bool)
        ensures
            after_set_library_group_by_topic(*old(self), v, *final(self)),
    {
        self.library.group_by_topic = v;
        self.library.page_cache = None;
    }

    /// Answers the message of the same name: see `after_toggle_library_filters`.
    pub fn toggle_library_filters(&mut self)
        ensures
            after_toggle_library_filters(*old(self), *final(self)),
    {
        self.library.filters_expanded = !self.library.filters_expanded;
    }

    /// Answers the message of the same name: see `after_clear_upload_selection`.
    pub fn clear_upload_selection(&mut self)
        ensures
            after_clear_upload_selection(*old(self), *final(self)),
    {
        self.lingq.selected_articles.clear();
    }

    /// Answers the message of the same name: see `after_toggle_library_article`.
    pub fn toggle_library_article(&mut self, id: i64)
        ensures
            after_toggle_library_article(*old(self), id, *final(self)),
    {
        self.lingq.selected_articles = toggle_id(&self.lingq.selected_articles, id);
    }

    /// Answers the message of the same name: see `after_toggle_browse_article`.
    pub fn toggle_browse_article(&mut self, url: String)
        ensures
            after_toggle_browse_article(*old(self), url, *final(self)),
    {
        self.browse.selected = toggle_text(&self.browse.selected, url);
    }

    /// Answers the message of the same name: see `after_next_library_page`.
    pub fn next_library_page(&mut self)
        requires
            old(self).library.page_index < usize::MAX,
        ensures
            after_next_library_page(*old(self), *final(self)),
    {
        self.library.page_index = self.library.page_index + 1;
        self.library.page_cache = None;
    }

    /// Answers the message of the same name: see `after_previous_library_page`.
    pub fn previous_library_page(&mut self)
        ensures
            after_previous_library_page(*old(self), *final(self)),
    {
        self.library.page_index = if self.library.page_index > 0 { self.library.page_index - 1 } else { 0 };
        self.library.page_cache = None;
    }

    /// Answers the message of the same name: see `after_set_lingq_auth_mode`.
    pub fn set_lingq_auth_mode(&mut self, v: LingqAuthMode)
        ensures
            after_set_lingq_auth_mode(*old(self), v, *final(self)),
    {
        self.lingq.auth_mode = v;
    }

    /// Answers the message of the same name: see `after_set_lingq_username`.
    pub fn set_lingq_username(&mut self, v: String)
        ensures
            after_set_lingq_username(*old(self), v, *final(self)),
    {
        self.lingq.username = v;
    }

    /// Answers the message of the same name: see `after_set_lingq_password`.
    pub fn set_lingq_password(&mut self, v: String)
        ensures
            after_set_lingq_password(*old(self), v, *final(self)),
    {
        self.lingq.password = v;
    }

    /// Answers the message of the same name: see `after_set_lingq_api_key`.
    pub fn set_lingq_api_key(&mut self, v: String)
        ensures
            after_set_lingq_api_key(*old(self), v, *final(self)),
    {
        self.lingq.api_key = v;
    }

    /// Answers the message of the same name: see `after_select_diagnostics_job`.
    pub fn select_diagnostics_job(&mut self, id: u64)
        ensures
            after_select_diagnostics_job(*old(self), id, *final(self)),
    {
        self.jobs.diagnostics_selected_job_id = Some(id);
    }

    /// Answers the message of the same name: see `after_expire_notice`.
    pub fn expire_notice(&mut self)
        ensures
            after_expire_notice(*old(self), *final(self)),
    {
        self.notice = None;
    }
}


/// `new` is `old` with only the notice `message` of kind `kind` shown.
pub open spec fn notice_shown(old: App, new: App, message: Seq<char>, kind: NoticeKind) -> bool {
    only_notice_changed(old, new) && notice_is(new, message, kind)
}

/// The notice for a result the shell reports: `ok_text` on success, the
/// error's own text as an error otherwise.
pub open spec fn outcome_noticed(old: App, new: App, outcome: Result<Seq<char>, Seq<char>>, kind: NoticeKind) -> bool {
    match outcome {
        Ok(text) => notice_shown(old, new, text, kind),
        Err(e) => notice_shown(old, new, e, NoticeKind::Error),
    }
}

/// `new` is `old` after switching to `view` (and saving the settings).
pub open spec fn after_switch_view(old: App, view: Screen, new: App, fx: Seq<Effect>) -> bool {
    let mid = App { current_view: view, ..old };
    &&& new == App { settings: new.settings, ..mid }
    &&& settings_hold(mid, new.settings)
    &&& fx == seq![Effect::SaveSettings]
}

/// `new` is `old` after choosing another section: the section set, the
/// limit reset, the settings saved and the section loaded afresh.
pub open spec fn after_section_changed(old: App, section: String, new: App, fx: Seq<Effect>) -> bool {
    let mid = App { browse: BrowseState { section, limit: BROWSE_PAGE_STEP, ..old.browse }, ..old };
    &&& new == App { settings: new.settings, browse: new.browse, ..old }
    &&& settings_hold(mid, new.settings)
    &&& fx.len() >= 1 && fx[0] == Effect::SaveSettings
    &&& browse_refreshed(mid.browse, new.browse, fx.drop_first())
}

/// `new` is `old` with the "only new" filter set to `only_new` and the
/// settings saved.
pub open spec fn after_only_new(old: App, only_new: bool, new: App, fx: Seq<Effect>) -> bool {
    let mid = App { browse: BrowseState { only_new, ..old.browse }, ..old };
    &&& new == App { settings: new.settings, ..mid }
    &&& settings_hold(mid, new.settings)
    &&& fx == seq![Effect::SaveSettings]
}

/// `new` is `old` after a refresh: the settings saved and the current scope
/// loaded afresh.
pub open spec fn after_browse_refresh(old: App, new: App, fx: Seq<Effect>) -> bool {
    &&& new == App { settings: new.settings, browse: new.browse, ..old }
    &&& settings_hold(old, new.settings)
    &&& fx.len() >= 1 && fx[0] == Effect::SaveSettings
    &&& if old.browse.scope == BrowseScope::CurrentSection {
        browse_refreshed(old.browse, new.browse, fx.drop_first())
    } else {
        browse_all_refreshed(old.browse, new.browse, fx.drop_first())
    }
}

/// `new` is `old` after loading all sections with the "only new" filter set
/// to `only_new`: the settings saved and all sections loaded afresh.
pub open spec fn after_all_sections(old: App, only_new: bool, new: App, fx: Seq<Effect>) -> bool {
    let mid = App { browse: BrowseState { only_new, ..old.browse }, ..old };
    &&& new == App { settings: new.settings, browse: new.browse, ..old }
    &&& settings_hold(mid, new.settings)
    &&& fx.len() >= 1 && fx[0] == Effect::SaveSettings
    &&& browse_all_refreshed(mid.browse, new.browse, fx.drop_first())
}

/// `new` is `old` after "load more": the limit raised by a page, then more of
/// the current scope asked for.
pub open spec fn after_load_more(old: App, new: App, fx: Seq<Effect>) -> bool {
    let mid = App {
        browse: BrowseState { limit: (old.browse.limit + BROWSE_PAGE_STEP) as usize, ..old.browse },
        ..old
    };
    if old.browse.scope == BrowseScope::CurrentSection {
        more_of_section_requested(mid, new, fx)
    } else {
        more_of_all_requested(mid, new, fx)
    }
}

/// `new` is `old` with the listed articles that are new and match the browse
/// search selected.
pub open spec fn after_select_visible_new(old: App, new: App) -> bool {
    &&& new == App { browse: BrowseState { selected: new.browse.selected, ..old.browse }, ..old }
    &&& new.browse.selected@ == visible_new_urls(
        old.browse.articles@,
        old.browse.imported_urls@,
        lowercase(trim(old.browse.search@)),
    )
}

/// `new` is `old` after a browse load answered: stale answers (another load
/// was started since) are dropped; otherwise loading stops and the listing,
/// report and walk are taken, or the error is recorded and shown.
pub open spec fn after_browse_loaded(
    old: App,
    request_id: u64,
    result: Result<crate::services::BrowseResponse, AppError>,
    new: App,
) -> bool {
    if request_id != old.browse.request_id {
        new == old
    } else {
        let mid = App { browse: BrowseState { loading: false, ..old.browse }, ..old };
        match result {
            Ok(resp) => new == App {
                browse: BrowseState {
                    report: Some(resp.report),
                    articles: resp.articles,
                    end_reached: resp.exhausted,
                    session_state: resp.session_state,
                    ..mid.browse
                },
                ..mid
            },
            Err(e) => task_error_shown(mid, new, e),
        }
    }
}

/// `new` is `old` after a stored article was read for `target`.
pub open spec fn after_detail_loaded(
    old: App,
    target: DetailTarget,
    result: Result<Option<StoredArticle>, String>,
    new: App,
    fx: Seq<Effect>,
) -> bool {
    match result {
        Ok(Some(a)) => match target {
            DetailTarget::Preview => {
                &&& new == App {
                    preview: PreviewState {
                        loading: false,
                        show: true,
                        article: new.preview.article,
                        stored_article: Some(a),
                    },
                    ..old
                }
                &&& new.preview.article matches Some(p) && p.url@ == a.url@ && p.title@ == a.title@
                    && p.subtitle@ == a.subtitle@ && p.teaser@ == a.teaser@ && p.author@ == a.author@
                    && p.date@ == a.date@ && p.published_at@ == a.published_at@ && p.section@
                    == a.section@ && p.source_kind@ == a.source_kind@ && p.source_label@
                    == a.source_label@ && p.body_text@ == a.body_text@ && p.clean_text@
                    == a.clean_text@ && p.word_count == a.word_count as usize && p.fetched_at@
                    == a.fetched_at@
                &&& fx.len() == 0
            },
            DetailTarget::Page => {
                let mid = App { library: LibraryState { article_detail: Some(a), ..old.library }, current_view: Screen::Article, ..old };
                &&& new == App { settings: new.settings, ..mid }
                &&& settings_hold(mid, new.settings)
                &&& fx == seq![Effect::SaveSettings]
            },
        },
        Ok(None) => notice_shown(old, new, "Article not found."@, NoticeKind::Error) && fx.len() == 0,
        Err(e) => notice_shown(old, new, e@, NoticeKind::Error) && fx.len() == 0,
    }
}

/// `new` is `old` after a preview answered: loading stops; the article (and
/// its stored copy) is shown, or the drawer closes and the error is recorded.
pub open spec fn after_preview_loaded(
    old: App,
    result: Result<(crate::soziopolis::types::Article, Option<StoredArticle>), AppError>,
    new: App,
) -> bool {
    let mid = App { preview: PreviewState { loading: false, ..old.preview }, ..old };
    match result {
        Ok((a, stored)) => new == App {
            preview: PreviewState { article: Some(a), stored_article: stored, ..mid.preview },
            ..mid
        },
        Err(e) => task_error_shown(App { preview: PreviewState { show: false, ..mid.preview }, ..mid }, new, e),
    }
}

impl App {
    /// Shows a notice whose text is `text`.
    fn notice_text(&mut self, text: Vec<char>, kind: NoticeKind)
        ensures
            notice_shown(*old(self), *final(self), text@, kind),
    {
        self.set_notice(string_of(&text), kind);
    }

    /// Switches to `view` and saves the settings.
    pub fn switch_view(&mut self, view: Screen) -> (fx: Vec<Effect>)
        ensures
            after_switch_view(*old(self), view, *final(self), fx@),
    {
        self.current_view = view;
        self.save_settings()
    }

    /// Chooses another section and loads it.
    pub fn browse_section_changed(&mut self, section: String) -> (fx: Vec<Effect>)
        ensures
            after_section_changed(*old(self), section, *final(self), fx@),
    {
        self.browse.section = section;
        self.browse.limit = BROWSE_PAGE_STEP;
        let mut fx = self.save_settings();
        let mut more = self.spawn_browse_refresh();
        let ghost m = more@;
        fx.append(&mut more);
        assert(fx@.drop_first() =~= m);
        fx
    }

    /// Sets the "only new" filter and saves the settings.
    pub fn browse_toggle_only_new(&mut self, only_new: bool) -> (fx: Vec<Effect>)
        ensures
            after_only_new(*old(self), only_new, *final(self), fx@),
    {
        self.browse.only_new = only_new;
        self.save_settings()
    }

    /// Saves the settings and loads the current scope afresh.
    pub fn browse_refresh(&mut self) -> (fx: Vec<Effect>)
        ensures
            after_browse_refresh(*old(self), *final(self), fx@),
    {
        let mut fx = self.save_settings();
        let mut more = match self.browse.scope {
            BrowseScope::CurrentSection => self.spawn_browse_refresh(),
            BrowseScope::AllSections => self.spawn_browse_all_sections(),
        };
        let ghost m = more@;
        fx.append(&mut more);
        assert(fx@.drop_first() =~= m);
        fx
    }

    /// Loads all sections with the "only new" filter set to `only_new`.
    pub fn browse_all_with_filter(&mut self, only_new: bool) -> (fx: Vec<Effect>)
        ensures
            after_all_sections(*old(self), only_new, *final(self), fx@),
    {
        self.browse.only_new = only_new;
        let mut fx = self.save_settings();
        let mut more = self.spawn_browse_all_sections();
        let ghost m = more@;
        fx.append(&mut more);
        assert(fx@.drop_first() =~= m);
        fx
    }

    /// Raises the limit by a page and loads more of the current scope.
    pub fn browse_load_more(&mut self) -> (fx: Vec<Effect>)
        requires
            old(self).browse.limit + BROWSE_PAGE_STEP <= usize::MAX,
        ensures
            after_load_more(*old(self), *final(self), fx@),
    {
        self.browse.limit = self.browse.limit + BROWSE_PAGE_STEP;
        match self.browse.scope {
            BrowseScope::CurrentSection => self.spawn_load_more_current_section(),
            BrowseScope::AllSections => self.spawn_load_more_all_sections(),
        }
    }

    /// Selects the listed articles that are new and match the search.
    pub fn browse_select_visible_new(&mut self)
        ensures
            after_select_visible_new(*old(self), *final(self)),
    {
        let search = lowercase_vec(&trim_vec(&chars_of(self.browse.search.as_str())));
        let search_text = string_of(&search);
        let mut picked: Vec<String> = Vec::new();
        let n: usize = self.browse.articles.len();
        let mut i: usize = 0;
        while i < n
            invariant
                i <= n,
                n == self.browse.articles@.len(),
                search@ == lowercase(trim(self.browse.search@)),
                search_text@ == search@,
                picked@ == visible_new_urls(
                    self.browse.articles@.take(i as int),
                    self.browse.imported_urls@,
                    search@,
                ),
            decreases n - i,
        {
            let a = &self.browse.articles[i];
            assert(self.browse.articles@.take(i + 1).drop_last() =~= self.browse.articles@.take(i as int));
            if !contains_text(&self.browse.imported_urls, &chars_of(a.url.as_str())) && (search.len()
                == 0 || crate::gui::helpers::article_matches_search(a, search_text.as_str())) {
                picked.push(a.url.clone());
            }
            i = i + 1;
        }
        assert(self.browse.articles@.take(n as int) =~= self.browse.articles@);
        self.browse.selected = picked;
    }

    /// Takes the answer to a browse load, unless another load was started since.
    pub fn browse_loaded(&mut self, request_id: u64, result: Result<crate::services::BrowseResponse, AppError>)
        ensures
            after_browse_loaded(*old(self), request_id, result, *final(self)),
    {
        if request_id != self.browse.request_id {
            return;
        }
        self.browse.loading = false;
        match result {
            Ok(resp) => {
                self.browse.report = Some(resp.report);
                self.browse.articles = resp.articles;
                self.browse.end_reached = resp.exhausted;
                self.browse.session_state = resp.session_state;
            },
            Err(e) => {
                self.set_task_error_notice(e);
            },
        }
    }

    /// Takes a stored article read for the preview or the article page.
    pub fn article_detail_loaded(
        &mut self,
        target: DetailTarget,
        result: Result<Option<StoredArticle>, String>,
    ) -> (fx: Vec<Effect>)
        ensures
            after_detail_loaded(*old(self), target, result, *final(self), fx@),
    {
        match result {
            Ok(Some(article)) => match target {
                DetailTarget::Preview => {
                    self.preview.loading = false;
                    self.preview.show = true;
                    self.preview.article = Some(stored_article_to_preview_article(&article));
                    self.preview.stored_article = Some(article);
                    Vec::new()
                },
                DetailTarget::Page => {
                    self.library.article_detail = Some(article);
                    self.current_view = Screen::Article;
                    self.save_settings()
                },
            },
            Ok(None) => {
                self.set_notice(String::from_str("Article not found."), NoticeKind::Error);
                Vec::new()
            },
            Err(e) => {
                self.set_notice(e, NoticeKind::Error);
                Vec::new()
            },
        }
    }

    /// Takes a fetched preview.
    pub fn preview_loaded(
        &mut self,
        result: Result<(crate::soziopolis::types::Article, Option<StoredArticle>), AppError>,
    )
        ensures
            after_preview_loaded(*old(self), result, *final(self)),
    {
        self.preview.loading = false;
        match result {
            Ok((article, stored)) => {
                self.preview.article = Some(article);
                self.preview.stored_article = stored;
            },
            Err(e) => {
                self.preview.show = false;
                self.set_task_error_notice(e);
            },
        }
    }
}


/// `new` is `old` after pausing the queue.
pub open spec fn after_pause(old: App, new: App, fx: Seq<Effect>) -> bool {
    let mid = App { jobs: JobQueue { paused: true, ..old.jobs }, ..old };
    notice_shown(mid, new, "Queue paused."@, NoticeKind::Info) && fx == seq![Effect::PersistQueue]
}

/// `new` is `old` after resuming the queue: unpaused, written down, noticed,
/// and the next waiting job tried.
pub open spec fn after_resume(old: App, new: App, fx: Seq<Effect>) -> bool {
    let unpaused = App { jobs: JobQueue { paused: false, ..old.jobs }, ..old };
    exists|mid: App|
        {
            &&& notice_shown(unpaused, mid, "Queue resumed."@, NoticeKind::Success)
            &&& fx.len() >= 1 && fx[0] == Effect::PersistQueue
            &&& next_job_tried(mid, new, fx.drop_first())
        }
}

/// `new` is `old` with the waiting jobs dropped.
pub open spec fn after_clear_queue(old: App, new: App, fx: Seq<Effect>) -> bool {
    &&& new == App {
        jobs: JobQueue { queued: new.jobs.queued, ..old.jobs },
        notice: new.notice,
        notice_serial: next_u64(old.notice_serial),
        ..old
    }
    &&& new.jobs.queued@.len() == 0
    &&& notice_is(new, "Cleared queued jobs."@, NoticeKind::Info)
    &&& fx == seq![Effect::PersistQueue]
}

/// `new` is `old` after asking to cancel the running job (if any).
pub open spec fn after_cancel(old: App, new: App, fx: Seq<Effect>) -> bool {
    match old.jobs.active_job {
        Some(job) => {
            &&& notice_shown(old, new, "Cancel requested for "@ + job.label@ + "."@, NoticeKind::Info)
            &&& fx == seq![Effect::CancelJob { job_id: job.id }]
        },
        None => new == old && fx.len() == 0,
    }
}

/// `new` is `old` with the recorded task failures dropped.
pub open spec fn after_clear_failures(old: App, new: App) -> bool {
    &&& new == App {
        jobs: JobQueue { recent_task_failures: new.jobs.recent_task_failures, ..old.jobs },
        notice: new.notice,
        notice_serial: next_u64(old.notice_serial),
        ..old
    }
    &&& new.jobs.recent_task_failures@.len() == 0
    &&& notice_is(new, "Cleared task failures."@, NoticeKind::Info)
}

/// `new` is `old` after copying the article page's text (when one is open).
pub open spec fn after_copy_text(old: App, new: App, fx: Seq<Effect>) -> bool {
    match old.library.article_detail {
        Some(a) => {
            &&& notice_shown(old, new, "Article copied to clipboard."@, NoticeKind::Success)
            &&& fx == seq![Effect::CopyToClipboard(a.clean_text)]
        },
        None => new == old && fx.len() == 0,
    }
}

/// `new` is `old` with the LingQ course set to `id` and the settings saved.
pub open spec fn after_collection_changed(old: App, id: Option<i64>, new: App, fx: Seq<Effect>) -> bool {
    let mid = App { lingq: LingqState { selected_collection: id, ..old.lingq }, ..old };
    &&& new == App { settings: new.settings, ..mid }
    &&& settings_hold(mid, new.settings)
    &&& fx == seq![Effect::SaveSettings]
}

/// `new` is `old` after the end of the log was read: copied with a notice,
/// or the error shown.
pub open spec fn after_log_read(old: App, result: Result<String, String>, new: App, fx: Seq<Effect>) -> bool {
    match result {
        Ok(text) => notice_shown(old, new, "Copied recent log lines."@, NoticeKind::Success) && fx == seq![Effect::CopyToClipboard(text)],
        Err(e) => notice_shown(old, new, e@, NoticeKind::Error) && fx.len() == 0,
    }
}

impl App {
    /// Pauses the queue.
    pub fn pause_queue(&mut self) -> (fx: Vec<Effect>)
        ensures
            after_pause(*old(self), *final(self), fx@),
    {
        self.jobs.paused = true;
        self.set_notice(String::from_str("Queue paused."), NoticeKind::Info);
        let mut fx: Vec<Effect> = Vec::new();
        fx.push(Effect::PersistQueue);
        fx
    }

    /// Resumes the queue and starts the next waiting job.
    pub fn resume_queue(&mut self) -> (fx: Vec<Effect>)
        ensures
            after_resume(*old(self), *final(self), fx@),
    {
        self.jobs.paused = false;
        let ghost unpaused = *self;
        self.set_notice(String::from_str("Queue resumed."), NoticeKind::Success);
        let ghost mid = *self;
        let mut fx: Vec<Effect> = Vec::new();
        fx.push(Effect::PersistQueue);
        let mut more = self.try_start_next_queued_job();
        let ghost m = more@;
        fx.append(&mut more);
        assert(fx@.drop_first() =~= m);
        assert(notice_shown(unpaused, mid, "Queue resumed."@, NoticeKind::Success));
        fx
    }

    /// Drops the waiting jobs.
    pub fn clear_queued_jobs(&mut self) -> (fx: Vec<Effect>)
        ensures
            after_clear_queue(*old(self), *final(self), fx@),
    {
        self.jobs.queued.clear();
        self.set_notice(String::from_str("Cleared queued jobs."), NoticeKind::Info);
        let mut fx: Vec<Effect> = Vec::new();
        fx.push(Effect::PersistQueue);
        fx
    }

    /// Asks the running job to stop.
    pub fn cancel_active_job(&mut self) -> (fx: Vec<Effect>)
        ensures
            after_cancel(*old(self), *final(self), fx@),
    {
        let found: Option<(u64, Vec<char>)> = match &self.jobs.active_job {
            Some(job) => Some((job.id, chars_of(job.label.as_str()))),
            None => None,
        };
        match found {
            Some((id, label)) => {
                let mut text = lit("Cancel requested for ");
                append_chars(&mut text, &label);
                append_chars(&mut text, &lit("."));
                self.notice_text(text, NoticeKind::Info);
                let mut fx: Vec<Effect> = Vec::new();
                fx.push(Effect::CancelJob { job_id: id });
                fx
            },
            None => Vec::new(),
        }
    }

    /// Drops the recorded task failures.
    pub fn clear_task_failures(&mut self)
        ensures
            after_clear_failures(*old(self), *final(self)),
    {
        self.jobs.recent_task_failures.clear();
        self.set_notice(String::from_str("Cleared task failures."), NoticeKind::Info);
    }

    /// Copies the open article's text.
    pub fn article_copy_text(&mut self) -> (fx: Vec<Effect>)
        ensures
            after_copy_text(*old(self), *final(self), fx@),
    {
        let text: Option<String> = match &self.library.article_detail {
            Some(a) => Some(a.clean_text.clone()),
            None => None,
        };
        match text {
            Some(t) => {
                self.set_notice(String::from_str("Article copied to clipboard."), NoticeKind::Success);
                let mut fx: Vec<Effect> = Vec::new();
                fx.push(Effect::CopyToClipboard(t));
                fx
            },
            None => Vec::new(),
        }
    }

    /// Chooses the LingQ course and saves the settings.
    pub fn lingq_collection_changed(&mut self, id: Option<i64>) -> (fx: Vec<Effect>)
        ensures
            after_collection_changed(*old(self), id, *final(self), fx@),
    {
        self.lingq.selected_collection = id;
        self.save_settings()
    }

    /// Takes the end of the log to copy.
    pub fn recent_log_read(&mut self, result: Result<String, String>) -> (fx: Vec<Effect>)
        ensures
            after_log_read(*old(self), result, *final(self), fx@),
    {
        match result {
            Ok(text) => {
                self.set_notice(String::from_str("Copied recent log lines."), NoticeKind::Success);
                let mut fx: Vec<Effect> = Vec::new();
                fx.push(Effect::CopyToClipboard(text));
                fx
            },
            Err(e) => {
                self.set_notice(e, NoticeKind::Error);
                Vec::new()
            },
        }
    }

    /// Notices what a finished maintenance or diagnostics action reported:
    /// `ok_text` (of kind `kind`) when it worked, else the error.
    pub fn outcome_notice(&mut self, ok_text: Result<Vec<char>, String>, kind: NoticeKind)
        ensures
            outcome_noticed(
                *old(self),
                *final(self),
                match ok_text {
                    Ok(t) => Ok(t@),
                    Err(e) => Err(e@),
                },
                kind,
            ),
    {
        match ok_text {
            Ok(text) => self.notice_text(text, kind),
            Err(e) => self.set_notice(e, NoticeKind::Error),
        }
    }
}


/// `new` is `old` after asking to store the typed or returned LingQ token:
/// with a blank token, an error notice (and, after a login, loading stops);
/// otherwise the trimmed token goes to the token store.
pub open spec fn key_store_requested(old: App, follow_up: KeyFollowUp, new: App, fx: Seq<Effect>) -> bool {
    if trim(old.lingq.api_key@).len() == 0 {
        let mid = if follow_up == KeyFollowUp::Login {
            App { lingq: LingqState { loading_collections: false, ..old.lingq }, ..old }
        } else {
            old
        };
        notice_shown(mid, new, "Enter a LingQ token first."@, NoticeKind::Error) && fx.len() == 0
    } else {
        &&& new == old
        &&& fx.len() == 1
        &&& fx[0] matches Effect::StoreApiKey { api_key, follow_up: f } && f == follow_up && api_key@
            == trim(old.lingq.api_key@)
    }
}

/// `new` is `old` after a login answered: the token taken, the password
/// cleared and the token stored; or loading stops and the error is recorded.
pub open spec fn after_logged_in(old: App, result: Result<String, AppError>, new: App, fx: Seq<Effect>) -> bool {
    match result {
        Ok(token) => exists|mid: App|
            {
                &&& mid == App { lingq: LingqState { api_key: token, password: mid.lingq.password, ..old.lingq }, ..old }
                &&& mid.lingq.password@.len() == 0
                &&& key_store_requested(mid, KeyFollowUp::Login, new, fx)
            },
        Err(e) => {
            &&& task_error_shown(App { lingq: LingqState { loading_collections: false, ..old.lingq }, ..old }, new, e)
            &&& fx.len() == 0
        },
    }
}

/// `new` is `old` after the token store answered: the token taken, the
/// settings saved and the courses requested; or the error noticed (and,
/// after a login, loading stops).
pub open spec fn after_key_stored(
    old: App,
    api_key: String,
    follow_up: KeyFollowUp,
    result: Result<(), String>,
    new: App,
    fx: Seq<Effect>,
) -> bool {
    match result {
        Ok(()) => {
            let keyed = App { lingq: LingqState { api_key, ..old.lingq }, ..old };
            exists|mid: App|
                {
                    &&& settings_saved(keyed, mid)
                    &&& fx.len() >= 1 && fx[0] == Effect::SaveSettings
                    &&& collections_requested(mid, new, fx.drop_first())
                }
        },
        Err(e) => {
            let mid = if follow_up == KeyFollowUp::Login {
                App { lingq: LingqState { loading_collections: false, ..old.lingq }, ..old }
            } else {
                old
            };
            notice_shown(mid, new, "Could not save token: "@ + e@, NoticeKind::Error) && fx.len() == 0
        },
    }
}

/// `new` is `old` after the token store was cleared: the token dropped, the
/// settings saved, disconnected and the courses forgotten; or the error
/// noticed.
pub open spec fn after_key_cleared(old: App, result: Result<(), String>, new: App, fx: Seq<Effect>) -> bool {
    match result {
        Ok(()) => exists|keyless: App, mid: App|
            {
                &&& keyless == App { lingq: LingqState { api_key: keyless.lingq.api_key, ..old.lingq }, ..old }
                &&& keyless.lingq.api_key@.len() == 0
                &&& settings_saved(keyless, mid)
                &&& new == App {
                    lingq: LingqState { connected: false, collections: new.lingq.collections, ..mid.lingq },
                    ..mid
                }
                &&& new.lingq.collections@.len() == 0
                &&& fx == seq![Effect::SaveSettings]
            },
        Err(e) => notice_shown(old, new, "Could not remove token: "@ + e@, NoticeKind::Error) && fx.len() == 0,
    }
}

/// `new` is `old` after the courses answered: loading stops; the courses are
/// taken, LingQ counts as connected, the settings are saved, the next waiting
/// job is tried and the count noticed; or disconnected and the error recorded.
pub open spec fn after_collections_loaded(
    old: App,
    result: Result<Vec<crate::lingq::Collection>, AppError>,
    new: App,
    fx: Seq<Effect>,
) -> bool {
    let stopped = App { lingq: LingqState { loading_collections: false, ..old.lingq }, ..old };
    match result {
        Ok(courses) => {
            let taken = App { lingq: LingqState { collections: courses, connected: true, ..stopped.lingq }, ..stopped };
            exists|saved: App, tried: App|
                {
                    &&& settings_saved(taken, saved)
                    &&& fx.len() >= 1 && fx[0] == Effect::SaveSettings
                    &&& next_job_tried(saved, tried, fx.drop_first())
                    &&& notice_shown(
                        tried,
                        new,
                        "Connected to LingQ. "@ + decimal(courses@.len()) + " course(s) loaded."@,
                        NoticeKind::Success,
                    )
                }
        },
        Err(e) => task_error_shown(App { lingq: LingqState { connected: false, ..stopped.lingq }, ..stopped }, new, e) && fx.len() == 0,
    }
}

impl App {
    /// Asks for the current token to be stored, trimmed.
    fn request_key_store(&mut self, follow_up: KeyFollowUp) -> (fx: Vec<Effect>)
        ensures
            key_store_requested(*old(self), follow_up, *final(self), fx@),
    {
        let trimmed = trim_vec(&chars_of(self.lingq.api_key.as_str()));
        if trimmed.len() == 0 {
            if follow_up == KeyFollowUp::Login {
                self.lingq.loading_collections = false;
            }
            self.set_notice(String::from_str("Enter a LingQ token first."), NoticeKind::Error);
            return Vec::new();
        }
        let mut fx: Vec<Effect> = Vec::new();
        fx.push(Effect::StoreApiKey { api_key: string_of(&trimmed), follow_up });
        fx
    }

    /// Connects with the typed token.
    pub fn lingq_connect(&mut self) -> (fx: Vec<Effect>)
        ensures
            key_store_requested(*old(self), KeyFollowUp::Connect, *final(self), fx@),
    {
        self.request_key_store(KeyFollowUp::Connect)
    }

    /// Takes the answer to a login.
    pub fn lingq_logged_in(&mut self, result: Result<String, AppError>) -> (fx: Vec<Effect>)
        ensures
            after_logged_in(*old(self), result, *final(self), fx@),
    {
        match result {
            Ok(token) => {
                self.lingq.api_key = token;
                self.lingq.password = String::new();
                let ghost mid = *self;
                let fx = self.request_key_store(KeyFollowUp::Login);
                assert(key_store_requested(mid, KeyFollowUp::Login, *self, fx@));
                fx
            },
            Err(e) => {
                self.lingq.loading_collections = false;
                self.set_task_error_notice(e);
                Vec::new()
            },
        }
    }

    /// Takes the token store's answer.
    pub fn api_key_stored(
        &mut self,
        api_key: String,
        follow_up: KeyFollowUp,
        result: Result<(), String>,
    ) -> (fx: Vec<Effect>)
        ensures
            after_key_stored(*old(self), api_key, follow_up, result, *final(self), fx@),
    {
        match result {
            Ok(()) => {
                self.lingq.api_key = api_key;
                let mut fx = self.save_settings();
                let ghost mid = *self;
                let mut more = self.spawn_load_collections();
                let ghost m = more@;
                fx.append(&mut more);
                assert(fx@.drop_first() =~= m);
                assert(collections_requested(mid, *self, fx@.drop_first()));
                fx
            },
            Err(e) => {
                if follow_up == KeyFollowUp::Login {
                    self.lingq.loading_collections = false;
                }
                let mut text = lit("Could not save token: ");
                append_chars(&mut text, &chars_of(e.as_str()));
                self.notice_text(text, NoticeKind::Error);
                Vec::new()
            },
        }
    }

    /// Takes the token store's answer to a disconnect.
    pub fn api_key_cleared(&mut self, result: Result<(), String>) -> (fx: Vec<Effect>)
        ensures
            after_key_cleared(*old(self), result, *final(self), fx@),
    {
        match result {
            Ok(()) => {
                self.lingq.api_key = String::new();
                let ghost keyless = *self;
                let fx = self.save_settings();
                let ghost mid = *self;
                self.lingq.connected = false;
                self.lingq.collections.clear();
                assert(settings_saved(keyless, mid));
                fx
            },
            Err(e) => {
                let mut text = lit("Could not remove token: ");
                append_chars(&mut text, &chars_of(e.as_str()));
                self.notice_text(text, NoticeKind::Error);
                Vec::new()
            },
        }
    }

    /// Takes the LingQ courses.
    pub fn collections_loaded(&mut self, result: Result<Vec<crate::lingq::Collection>, AppError>) -> (fx: Vec<Effect>)
        ensures
            after_collections_loaded(*old(self), result, *final(self), fx@),
    {
        self.lingq.loading_collections = false;
        match result {
            Ok(courses) => {
                let count: usize = courses.len();
                self.lingq.collections = courses;
                self.lingq.connected = true;
                let mut fx = self.save_settings();
                let ghost saved = *self;
                let mut more = self.try_start_next_queued_job();
                let ghost tried = *self;
                let ghost m = more@;
                fx.append(&mut more);
                assert(fx@.drop_first() =~= m);
                let mut text = lit("Connected to LingQ. ");
                append_chars(&mut text, &decimal_vec(count));
                append_chars(&mut text, &lit(" course(s) loaded."));
                self.notice_text(text, NoticeKind::Success);
                assert(next_job_tried(saved, tried, fx@.drop_first()));
                fx
            },
            Err(e) => {
                self.lingq.connected = false;
                self.set_task_error_notice(e);
                Vec::new()
            },
        }
    }
}


/// The failed fetches that can be retried: those with a URL.
pub open spec fn retryable_fetches(items: Seq<FailedFetchItem>) -> Seq<FailedFetchItem>
    decreases items.len(),
{
    if items.len() == 0 {
        items
    } else {
        let rest = retryable_fetches(items.drop_last());
        if trim(items.last().url@).len() > 0 {
            rest.push(items.last())
        } else {
            rest
        }
    }
}

/// The ids of the failed uploads that can be retried: those of a real article.
pub open spec fn retryable_upload_ids(items: Seq<UploadFailure>) -> Seq<i64>
    decreases items.len(),
{
    if items.len() == 0 {
        Seq::<i64>::empty()
    } else {
        let rest = retryable_upload_ids(items.drop_last());
        if items.last().article_id > 0 {
            rest.push(items.last().article_id)
        } else {
            rest
        }
    }
}

/// `new` is `old` after a job was made for `request_is` (of `kind`, with the
/// label `prefix` + size + `suffix`) and handed to the queue.
pub open spec fn job_made(
    old: App,
    kind: JobKind,
    prefix: Seq<char>,
    suffix: Seq<char>,
    request_is: spec_fn(QueuedJobRequest) -> bool,
    new: App,
    fx: Seq<Effect>,
) -> bool {
    exists|numbered: App, job: QueuedJob|
        {
            &&& job_id_taken(old, numbered, job.id)
            &&& job.kind == kind
            &&& job.label@ == prefix + decimal(job.total as nat) + suffix
            &&& request_is(job.request)
            &&& job_enqueued(numbered, job, new, fx)
        }
}

/// As `job_made`, with the settings saved before the job is queued.
pub open spec fn job_made_saved(
    old: App,
    kind: JobKind,
    prefix: Seq<char>,
    suffix: Seq<char>,
    request_is: spec_fn(QueuedJobRequest) -> bool,
    new: App,
    fx: Seq<Effect>,
) -> bool {
    exists|numbered: App, saved: App, job: QueuedJob|
        {
            &&& job_id_taken(old, numbered, job.id)
            &&& job.kind == kind
            &&& job.label@ == prefix + decimal(job.total as nat) + suffix
            &&& request_is(job.request)
            &&& settings_saved(numbered, saved)
            &&& fx.len() >= 1 && fx[0] == Effect::SaveSettings
            &&& job_enqueued(saved, job, new, fx.drop_first())
        }
}

/// An import request for the selected articles.
pub open spec fn fetch_request_is(old: App) -> spec_fn(QueuedJobRequest) -> bool {
    |r: QueuedJobRequest|
        r matches QueuedJobRequest::Import { articles } && fetch_selection_is(
            old.browse.articles@,
            old.browse.selected@,
            articles@,
        )
}

/// `new` is `old` after "fetch selected": with nothing to fetch, an error
/// notice; else an import job of the selected articles is queued.
pub open spec fn after_fetch_selected(old: App, new: App, fx: Seq<Effect>) -> bool {
    let listed = selected_listed(old.browse.articles@, old.browse.selected@);
    let extra = unlisted_selected(listed.map_values(|a: crate::soziopolis::types::ArticleSummary| a.url@), old.browse.selected@);
    if listed.len() + extra.len() == 0 {
        notice_shown(old, new, "Select at least one article."@, NoticeKind::Error) && fx.len() == 0
    } else {
        job_made(old, JobKind::Import, "Import "@, " article(s)"@, fetch_request_is(old), new, fx)
    }
}

/// An upload request for the selected cards to the chosen course.
pub open spec fn upload_request_is(old: App) -> spec_fn(QueuedJobRequest) -> bool {
    |r: QueuedJobRequest|
        r matches QueuedJobRequest::Upload { ids, collection_id } && ids@
            == old.lingq.selected_articles@ && collection_id == old.lingq.selected_collection
}

/// `new` is `old` after "upload selected": without a token or a selection,
/// an error notice; else the settings are saved and an upload job of the
/// selected cards is queued.
pub open spec fn after_upload_selected(old: App, new: App, fx: Seq<Effect>) -> bool {
    if trim(old.lingq.api_key@).len() == 0 {
        notice_shown(old, new, "Connect to LingQ first."@, NoticeKind::Error) && fx.len() == 0
    } else if old.lingq.selected_articles@.len() == 0 {
        notice_shown(old, new, "Select articles to upload."@, NoticeKind::Error) && fx.len() == 0
    } else {
        job_made_saved(old, JobKind::Upload, "Upload "@, " article(s) to LingQ"@, upload_request_is(old), new, fx)
    }
}

/// An import request that retries the failed fetches with a URL.
pub open spec fn retry_imports_request_is(old: App) -> spec_fn(QueuedJobRequest) -> bool {
    |r: QueuedJobRequest|
        r matches QueuedJobRequest::Import { articles } && articles@.len() == retryable_fetches(
            old.browse.failed_fetches@,
        ).len() && forall|k: int|
            0 <= k < articles@.len() ==> is_bare_summary(
                #[trigger] articles@[k],
                retryable_fetches(old.browse.failed_fetches@)[k].url,
                retryable_fetches(old.browse.failed_fetches@)[k].title@,
            )
}

/// `new` is `old` after "retry failed imports".
pub open spec fn after_retry_imports(old: App, new: App, fx: Seq<Effect>) -> bool {
    if old.browse.failed_fetches@.len() == 0 {
        notice_shown(old, new, "No failed items to retry."@, NoticeKind::Info) && fx.len() == 0
    } else if retryable_fetches(old.browse.failed_fetches@).len() == 0 {
        notice_shown(
            old,
            new,
            "No retryable import URLs are available. Check Diagnostics for the internal task failure."@,
            NoticeKind::Error,
        ) && fx.len() == 0
    } else {
        job_made(old, JobKind::Import, "Retry "@, " failed import(s)"@, retry_imports_request_is(old), new, fx)
    }
}

/// An upload request that retries the failed uploads of real articles.
pub open spec fn retry_uploads_request_is(old: App) -> spec_fn(QueuedJobRequest) -> bool {
    |r: QueuedJobRequest|
        r matches QueuedJobRequest::Upload { ids, collection_id } && ids@ == retryable_upload_ids(
            old.jobs.last_failed_uploads@,
        ) && collection_id == old.lingq.selected_collection
}

/// `new` is `old` after "retry failed uploads".
pub open spec fn after_retry_uploads(old: App, new: App, fx: Seq<Effect>) -> bool {
    if old.jobs.last_failed_uploads@.len() == 0 {
        notice_shown(old, new, "No failed uploads to retry."@, NoticeKind::Info) && fx.len() == 0
    } else if retryable_upload_ids(old.jobs.last_failed_uploads@).len() == 0 {
        notice_shown(
            old,
            new,
            "No retryable uploads are available. Check Diagnostics for the internal task failure."@,
            NoticeKind::Error,
        ) && fx.len() == 0
    } else {
        job_made(old, JobKind::Upload, "Retry "@, " failed upload(s)"@, retry_uploads_request_is(old), new, fx)
    }
}

/// `new` is `old` after "run queued upload now": refused while a job runs;
/// else the first waiting upload leaves the queue and starts; with none, a
/// notice.
pub open spec fn after_run_upload_now(old: App, new: App, fx: Seq<Effect>) -> bool {
    let q = old.jobs.queued@;
    if old.jobs.active_job is Some {
        notice_shown(old, new, "A job is already running."@, NoticeKind::Info) && fx.len() == 0
    } else if exists|k: int| 0 <= k < q.len() && (#[trigger] q[k]).request is Upload {
        exists|k: int|
            {
                &&& 0 <= k < q.len()
                &&& (#[trigger] q[k]).request is Upload
                &&& forall|j: int| 0 <= j < k ==> !((#[trigger] q[j]).request is Upload)
                &&& fx.len() >= 1 && fx[0] == Effect::PersistQueue
                &&& job_started(old, q[k], q.remove(k), new, fx.drop_first())
            }
    } else {
        notice_shown(old, new, "No queued upload to run."@, NoticeKind::Info) && fx.len() == 0
    }
}

/// A summary that knows only `url` and `title`.
pub fn bare_summary(url: String, title: String) -> (res: crate::soziopolis::types::ArticleSummary)
    ensures
        is_bare_summary(res, url, title@),
{
    crate::soziopolis::types::ArticleSummary {
        url,
        title,
        teaser: String::new(),
        author: String::new(),
        date: String::new(),
        section: String::new(),
        source_kind: crate::soziopolis::types::DiscoverySourceKind::Section,
        source_label: String::new(),
    }
}

/// What "fetch selected" queues.
pub fn fetch_selection(
    articles: &Vec<crate::soziopolis::types::ArticleSummary>,
    selected: &Vec<String>,
) -> (res: Vec<crate::soziopolis::types::ArticleSummary>)
    ensures
        fetch_selection_is(articles@, selected@, res@),
{
    let mut listed: Vec<crate::soziopolis::types::ArticleSummary> = Vec::new();
    let mut urls: Vec<String> = Vec::new();
    let mut i: usize = 0;
    while i < articles.len()
        invariant
            i <= articles@.len(),
            listed@ == selected_listed(articles@.take(i as int), selected@),
            urls@.len() == listed@.len(),
            forall|k: int| 0 <= k < urls@.len() ==> (#[trigger] urls@[k])@ == listed@[k].url@,
        decreases articles@.len() - i,
    {
        assert(articles@.take(i + 1).drop_last() =~= articles@.take(i as int));
        if contains_text(selected, &chars_of(articles[i].url.as_str())) {
            listed.push(articles[i].duplicate());
            urls.push(articles[i].url.clone());
        }
        i = i + 1;
    }
    assert(articles@.take(articles@.len() as int) =~= articles@);
    let ghost listed_urls = listed@.map_values(|a: crate::soziopolis::types::ArticleSummary| a.url@);
    let ghost base = listed@;
    let mut extra: Vec<String> = Vec::new();
    let mut out = listed;
    let mut j: usize = 0;
    while j < selected.len()
        invariant
            j <= selected@.len(),
            extra@ == unlisted_selected(listed_urls, selected@.take(j as int)),
            out@.len() == base.len() + extra@.len(),
            out@.take(base.len() as int) == base,
            forall|k: int| 0 <= k < extra@.len() ==> is_bare_summary(#[trigger] out@[base.len() + k], extra@[k], Seq::<char>::empty()),
            urls@.len() == base.len(),
            forall|k: int| 0 <= k < urls@.len() ==> (#[trigger] urls@[k])@ == listed_urls[k],
            listed_urls.len() == base.len(),
        decreases selected@.len() - j,
    {
        assert(selected@.take(j + 1).drop_last() =~= selected@.take(j as int));
        let u = chars_of(selected[j].as_str());
        proof {
            assert(listed_urls.contains(u@) == has_text(urls@, u@)) by {
                if listed_urls.contains(u@) {
                    let k = choose|k: int| 0 <= k < listed_urls.len() && listed_urls[k] == u@;
                    assert(urls@[k]@ == u@);
                }
                if has_text(urls@, u@) {
                    let k = choose|k: int| 0 <= k < urls@.len() && (#[trigger] urls@[k])@ == u@;
                    assert(listed_urls[k] == u@);
                }
            }
        }
        if !contains_text(&urls, &u) && !contains_text(&extra, &u) {
            let ghost before = out@;
            extra.push(selected[j].clone());
            out.push(bare_summary(selected[j].clone(), String::new()));
            proof {
                assert(out@.take(base.len() as int) =~= before.take(base.len() as int));
                assert forall|k: int| 0 <= k < extra@.len() implies is_bare_summary(#[trigger] out@[base.len() + k], extra@[k], Seq::<char>::empty()) by {
                    if k < extra@.len() - 1 {
                        assert(out@[base.len() + k] == before[base.len() + k]);
                    }
                }
            }
        }
        j = j + 1;
    }
    assert(selected@.take(selected@.len() as int) =~= selected@);
    out
}

impl App {
    /// Queues an import of the selected articles.
    pub fn browse_fetch_selected(&mut self) -> (fx: Vec<Effect>)
        ensures
            after_fetch_selected(*old(self), *final(self), fx@),
    {
        let articles = fetch_selection(&self.browse.articles, &self.browse.selected);
        if articles.len() == 0 {
            self.set_notice(String::from_str("Select at least one article."), NoticeKind::Error);
            return Vec::new();
        }
        let ghost start = *self;
        let total: usize = articles.len();
        let id = self.next_job_id();
        let ghost numbered = *self;
        let mut label = lit("Import ");
        append_chars(&mut label, &decimal_vec(total));
        append_chars(&mut label, &lit(" article(s)"));
        let job = QueuedJob {
            id,
            kind: JobKind::Import,
            label: string_of(&label),
            total,
            request: QueuedJobRequest::Import { articles },
        };
        let ghost j = job;
        let fx = self.enqueue_job(job);
        assert(job_made(start, JobKind::Import, "Import "@, " article(s)"@, fetch_request_is(start), *self, fx@)) by {
            assert(job_id_taken(start, numbered, j.id));
            assert(fetch_request_is(start)(j.request));
        }
        fx
    }

    /// Queues an upload of the selected cards.
    pub fn lingq_upload_selected(&mut self) -> (fx: Vec<Effect>)
        ensures
            after_upload_selected(*old(self), *final(self), fx@),
    {
        if trim_vec(&chars_of(self.lingq.api_key.as_str())).len() == 0 {
            self.set_notice(String::from_str("Connect to LingQ first."), NoticeKind::Error);
            return Vec::new();
        }
        let ids = crate::jobs::copy_ids(&self.lingq.selected_articles);
        if ids.len() == 0 {
            self.set_notice(String::from_str("Select articles to upload."), NoticeKind::Error);
            return Vec::new();
        }
        let ghost start = *self;
        let collection_id = self.lingq.selected_collection;
        let total: usize = ids.len();
        let id = self.next_job_id();
        let ghost numbered = *self;
        let mut label = lit("Upload ");
        append_chars(&mut label, &decimal_vec(total));
        append_chars(&mut label, &lit(" article(s) to LingQ"));
        let job = QueuedJob {
            id,
            kind: JobKind::Upload,
            label: string_of(&label),
            total,
            request: QueuedJobRequest::Upload { ids, collection_id },
        };
        let ghost j = job;
        let mut fx = self.save_settings();
        let ghost saved = *self;
        let mut more = self.enqueue_job(job);
        let ghost m = more@;
        fx.append(&mut more);
        assert(fx@.drop_first() =~= m);
        assert(job_made_saved(start, JobKind::Upload, "Upload "@, " article(s) to LingQ"@, upload_request_is(start), *self, fx@)) by {
            assert(job_id_taken(start, numbered, j.id));
            assert(upload_request_is(start)(j.request));
            assert(settings_saved(numbered, saved));
        }
        fx
    }

    /// Queues an import that retries the failed fetches with a URL.
    pub fn retry_failed_imports(&mut self) -> (fx: Vec<Effect>)
        ensures
            after_retry_imports(*old(self), *final(self), fx@),
    {
        if self.browse.failed_fetches.len() == 0 {
            self.set_notice(String::from_str("No failed items to retry."), NoticeKind::Info);
            return Vec::new();
        }
        let mut articles: Vec<crate::soziopolis::types::ArticleSummary> = Vec::new();
        let ghost items = self.browse.failed_fetches@;
        let mut i: usize = 0;
        while i < self.browse.failed_fetches.len()
            invariant
                i <= items.len(),
                items == self.browse.failed_fetches@,
                articles@.len() == retryable_fetches(items.take(i as int)).len(),
                forall|k: int|
                    0 <= k < articles@.len() ==> is_bare_summary(
                        #[trigger] articles@[k],
                        retryable_fetches(items.take(i as int))[k].url,
                        retryable_fetches(items.take(i as int))[k].title@,
                    ),
            decreases items.len() - i,
        {
            assert(items.take(i + 1).drop_last() =~= items.take(i as int));
            let item = &self.browse.failed_fetches[i];
            if trim_vec(&chars_of(item.url.as_str())).len() > 0 {
                articles.push(bare_summary(item.url.clone(), item.title.clone()));
            }
            i = i + 1;
        }
        assert(items.take(items.len() as int) =~= items);
        if articles.len() == 0 {
            self.set_notice(
                String::from_str(
                    "No retryable import URLs are available. Check Diagnostics for the internal task failure.",
                ),
                NoticeKind::Error,
            );
            return Vec::new();
        }
        let ghost start = *self;
        let total: usize = articles.len();
        let id = self.next_job_id();
        let ghost numbered = *self;
        let mut label = lit("Retry ");
        append_chars(&mut label, &decimal_vec(total));
        append_chars(&mut label, &lit(" failed import(s)"));
        let job = QueuedJob {
            id,
            kind: JobKind::Import,
            label: string_of(&label),
            total,
            request: QueuedJobRequest::Import { articles },
        };
        let ghost j = job;
        let fx = self.enqueue_job(job);
        assert(job_made(start, JobKind::Import, "Retry "@, " failed import(s)"@, retry_imports_request_is(start), *self, fx@)) by {
            assert(job_id_taken(start, numbered, j.id));
            assert(retry_imports_request_is(start)(j.request));
        }
        fx
    }

    /// Queues an upload that retries the failed uploads of real articles.
    pub fn retry_failed_uploads(&mut self) -> (fx: Vec<Effect>)
        ensures
            after_retry_uploads(*old(self), *final(self), fx@),
    {
        if self.jobs.last_failed_uploads.len() == 0 {
            self.set_notice(String::from_str("No failed uploads to retry."), NoticeKind::Info);
            return Vec::new();
        }
        let mut ids: Vec<i64> = Vec::new();
        let ghost items = self.jobs.last_failed_uploads@;
        let mut i: usize = 0;
        while i < self.jobs.last_failed_uploads.len()
            invariant
                i <= items.len(),
                items == self.jobs.last_failed_uploads@,
                ids@ == retryable_upload_ids(items.take(i as int)),
            decreases items.len() - i,
        {
            assert(items.take(i + 1).drop_last() =~= items.take(i as int));
            if self.jobs.last_failed_uploads[i].article_id > 0 {
                ids.push(self.jobs.last_failed_uploads[i].article_id);
            }
            i = i + 1;
        }
        assert(items.take(items.len() as int) =~= items);
        if ids.len() == 0 {
            self.set_notice(
                String::from_str(
                    "No retryable uploads are available. Check Diagnostics for the internal task failure.",
                ),
                NoticeKind::Error,
            );
            return Vec::new();
        }
        let ghost start = *self;
        let collection_id = self.lingq.selected_collection;
        let total: usize = ids.len();
        let id = self.next_job_id();
        let ghost numbered = *self;
        let mut label = lit("Retry ");
        append_chars(&mut label, &decimal_vec(total));
        append_chars(&mut label, &lit(" failed upload(s)"));
        let job = QueuedJob {
            id,
            kind: JobKind::Upload,
            label: string_of(&label),
            total,
            request: QueuedJobRequest::Upload { ids, collection_id },
        };
        let ghost j = job;
        let fx = self.enqueue_job(job);
        assert(job_made(start, JobKind::Upload, "Retry "@, " failed upload(s)"@, retry_uploads_request_is(start), *self, fx@)) by {
            assert(job_id_taken(start, numbered, j.id));
            assert(retry_uploads_request_is(start)(j.request));
        }
        fx
    }

    /// Starts the first waiting upload at once.
    pub fn run_queued_upload_now(&mut self) -> (fx: Vec<Effect>)
        ensures
            after_run_upload_now(*old(self), *final(self), fx@),
    {
        if self.jobs.active_job.is_some() {
            self.set_notice(String::from_str("A job is already running."), NoticeKind::Info);
            return Vec::new();
        }
        let ghost q = self.jobs.queued@;
        let n: usize = self.jobs.queued.len();
        let mut k: usize = 0;
        while k < n && !self.jobs.queued[k].request.is_upload()
            invariant
                k <= n,
                n == q.len(),
                q == self.jobs.queued@,
                forall|j: int| 0 <= j < k ==> !((#[trigger] q[j]).request is Upload),
            decreases n - k,
        {
            k = k + 1;
        }
        if k < n {
            let ghost start = *self;
            let job = self.jobs.queued.remove(k);
            let mut fx: Vec<Effect> = Vec::new();
            fx.push(Effect::PersistQueue);
            let mut more = self.start_job(job);
            let ghost m = more@;
            fx.append(&mut more);
            assert(fx@.drop_first() =~= m);
            return fx;
        }
        self.set_notice(String::from_str("No queued upload to run."), NoticeKind::Info);
        Vec::new()
    }
}


/// The ids of `cards`.
pub open spec fn card_ids(cards: Seq<ArticleListItem>) -> Seq<i64> {
    cards.map_values(|a: ArticleListItem| a.id)
}

/// The cards of `cards` whose id is not among `ids`.
pub open spec fn cards_without_ids(cards: Seq<ArticleListItem>, ids: Seq<i64>) -> Seq<ArticleListItem>
    decreases cards.len(),
{
    if cards.len() == 0 {
        cards
    } else {
        let rest = cards_without_ids(cards.drop_last(), ids);
        if ids.contains(cards.last().id) {
            rest
        } else {
            rest.push(cards.last())
        }
    }
}

/// The URLs of the cards with id `id`, in order.
pub open spec fn urls_of_id(cards: Seq<ArticleListItem>, id: i64) -> Seq<String>
    decreases cards.len(),
{
    if cards.len() == 0 {
        Seq::<String>::empty()
    } else {
        let rest = urls_of_id(cards.drop_last(), id);
        if cards.last().id == id {
            rest.push(cards.last().url)
        } else {
            rest
        }
    }
}

/// `v` with each string of `xs` added unless one reading the same is there.
pub open spec fn with_texts(v: Seq<String>, xs: Seq<String>) -> Seq<String>
    decreases xs.len(),
{
    if xs.len() == 0 {
        v
    } else {
        let rest = with_texts(v, xs.drop_last());
        if has_text(rest, xs.last()@) {
            rest
        } else {
            rest.push(xs.last())
        }
    }
}

/// `v` without the strings that read one of `xs`.
pub open spec fn without_texts(v: Seq<String>, xs: Seq<String>) -> Seq<String>
    decreases xs.len(),
{
    if xs.len() == 0 {
        v
    } else {
        without_text(without_texts(v, xs.drop_last()), xs.last()@)
    }
}

/// The index of the first card with id `id`, if any.
pub open spec fn first_with_id(cards: Seq<ArticleListItem>, id: i64) -> Option<int>
    decreases cards.len(),
{
    if cards.len() == 0 {
        None
    } else {
        match first_with_id(cards.drop_last(), id) {
            Some(k) => Some(k),
            None => if cards.last().id == id {
                Some(cards.len() - 1)
            } else {
                None
            },
        }
    }
}

/// The cards after the uploads in `successes`, one after another, each
/// marking the first card with its article id as uploaded to its lesson.
pub open spec fn cards_after_uploads(cards: Seq<ArticleListItem>, successes: Seq<UploadSuccess>) -> Seq<ArticleListItem>
    decreases successes.len(),
{
    if successes.len() == 0 {
        cards
    } else {
        let before = cards_after_uploads(cards, successes.drop_last());
        let s = successes.last();
        match first_with_id(before, s.article_id) {
            Some(k) => before.update(
                k,
                ArticleListItem {
                    uploaded_to_lingq: true,
                    lingq_lesson_id: Some(s.lesson_id),
                    lingq_lesson_url: s.lesson_url,
                    ..before[k]
                },
            ),
            None => before,
        }
    }
}

/// The totals held for `cards`: computed afresh while their number fits an
/// `i64`.
#[verifier::opaque]
pub open spec fn stats_fresh(cards: Seq<ArticleListItem>, stats: Option<crate::database::LibraryStats>, before: Option<crate::database::LibraryStats>) -> bool {
    if cards.len() <= i64::MAX {
        stats matches Some(st) && st.total_articles == cards.len() && st.uploaded_articles
            == count_uploaded(cards) && st.average_word_count == (if cards.len() == 0 {
            0
        } else {
            round_half_away(sum_words(cards), cards.len() as int)
        }) && (forall|a: int| 0 <= a < st.sections@.len() ==> counts_right(cards, #[trigger] st.sections@[a]))
            && (forall|a: int, b: int|
            0 <= a < b < st.sections@.len() ==> section_before(
                #[trigger] st.sections@[a],
                #[trigger] st.sections@[b],
            )) && (forall|k: int|
            0 <= k < cards.len() ==> covers(st.sections@, section_key((#[trigger] cards[k]).section@)))
    } else {
        stats == before
    }
}

/// `new` is the library state `old` with its cards replaced: the search
/// results dropped, the page cache dropped and the totals recomputed.
pub open spec fn library_reloaded(old: LibraryState, new: LibraryState) -> bool {
    &&& new == LibraryState {
        search_query: new.search_query,
        search_results: new.search_results,
        page_cache: None,
        stats: new.stats,
        articles: new.articles,
        ..old
    }
    &&& new.search_query@.len() == 0
    &&& new.search_results@.len() == 0
    &&& stats_fresh(new.articles@, new.stats, old.stats)
}

/// `new` is `old` after taking newly imported cards: their URLs count as
/// imported, they replace any cards with the same ids at the end of the
/// library, and the totals are recomputed.
pub open spec fn imported_applied(old: App, saved: Seq<ArticleListItem>, new: App) -> bool {
    &&& new == App {
        browse: BrowseState { imported_urls: new.browse.imported_urls, ..old.browse },
        library: new.library,
        ..old
    }
    &&& new.browse.imported_urls@ == with_texts(old.browse.imported_urls@, saved.map_values(|a: ArticleListItem| a.url))
    &&& new.library.articles@ == cards_without_ids(old.library.articles@, card_ids(saved)) + saved
    &&& library_reloaded(old.library, new.library)
}

/// `new` is `old` after taking finished uploads: the cards marked, the
/// totals recomputed.
pub open spec fn uploads_applied(old: App, successes: Seq<UploadSuccess>, new: App) -> bool {
    &&& new == App { library: new.library, ..old }
    &&& new.library.articles@ == cards_after_uploads(old.library.articles@, successes)
    &&& library_reloaded(old.library, new.library)
}

/// `new` is `old` after the article `id` was deleted: its cards, URLs,
/// selection and open page dropped, the totals recomputed.
pub open spec fn article_removed(old: App, id: i64, new: App) -> bool {
    &&& new == App {
        browse: BrowseState { imported_urls: new.browse.imported_urls, ..old.browse },
        library: new.library,
        lingq: LingqState { selected_articles: new.lingq.selected_articles, ..old.lingq },
        ..old
    }
    &&& new.browse.imported_urls@ == without_texts(old.browse.imported_urls@, urls_of_id(old.library.articles@, id))
    &&& new.lingq.selected_articles@ == without_id(old.lingq.selected_articles@, id)
    &&& library_dropped(old.library, id, new.library)
}

impl App {
    /// Drops the cached search and page, and recomputes the totals.
    fn reload_library_views(&mut self)
        ensures
            *final(self) == (App { library: final(self).library, ..*old(self) }),
            final(self).library.articles == old(self).library.articles,
            library_reloaded(old(self).library, final(self).library),
    {
        self.library.reload_views();
    }

    /// Takes newly imported cards.
    pub fn apply_imported_articles(&mut self, saved: Vec<ArticleListItem>)
        ensures
            imported_applied(*old(self), saved@, *final(self)),
    {
        let ghost urls = saved@.map_values(|a: ArticleListItem| a.url);
        let mut i: usize = 0;
        while i < saved.len()
            invariant
                i <= saved@.len(),
                urls == saved@.map_values(|a: ArticleListItem| a.url),
                *self == (App { browse: BrowseState { imported_urls: self.browse.imported_urls, ..old(self).browse }, ..*old(self) }),
                self.browse.imported_urls@ == with_texts(old(self).browse.imported_urls@, urls.take(i as int)),
            decreases saved@.len() - i,
        {
            assert(urls.take(i + 1).drop_last() =~= urls.take(i as int));
            let u = chars_of(saved[i].url.as_str());
            if !contains_text(&self.browse.imported_urls, &u) {
                self.browse.imported_urls.push(saved[i].url.clone());
            }
            i = i + 1;
        }
        assert(urls.take(saved@.len() as int) =~= urls);
        let ids: Vec<i64> = saved_ids(&saved);
        let mut kept: Vec<ArticleListItem> = Vec::new();
        let mut j: usize = 0;
        while j < self.library.articles.len()
            invariant
                j <= self.library.articles@.len(),
                self.library.articles == old(self).library.articles,
                ids@ == card_ids(saved@),
                kept@ == cards_without_ids(self.library.articles@.take(j as int), ids@),
            decreases self.library.articles@.len() - j,
        {
            assert(self.library.articles@.take(j + 1).drop_last() =~= self.library.articles@.take(j as int));
            if !contains_id(&ids, self.library.articles[j].id) {
                kept.push(self.library.articles[j].duplicate());
            }
            j = j + 1;
        }
        assert(self.library.articles@.take(self.library.articles@.len() as int) =~= self.library.articles@);
        let ghost before_saved = saved@;
        let mut saved = saved;
        kept.append(&mut saved);
        let ghost mid = *self;
        self.library.articles = kept;
        let ghost replaced = *self;
        self.reload_library_views();
        assert(library_reloaded(replaced.library, self.library));
    }

    /// Takes finished uploads.
    pub fn apply_uploaded_articles(&mut self, successes: &Vec<UploadSuccess>)
        ensures
            uploads_applied(*old(self), successes@, *final(self)),
    {
        let mut cards: Vec<ArticleListItem> = Vec::new();
        std::mem::swap(&mut cards, &mut self.library.articles);
        let mut i: usize = 0;
        while i < successes.len()
            invariant
                i <= successes@.len(),
                cards@ == cards_after_uploads(old(self).library.articles@, successes@.take(i as int)),
            decreases successes@.len() - i,
        {
            assert(successes@.take(i + 1).drop_last() =~= successes@.take(i as int));
            let s = &successes[i];
            match first_card_with_id(&cards, s.article_id) {
                Some(k) => {
                    let card = cards[k].duplicate();
                    let marked = ArticleListItem {
                        uploaded_to_lingq: true,
                        lingq_lesson_id: Some(s.lesson_id),
                        lingq_lesson_url: s.lesson_url.clone(),
                        ..card
                    };
                    cards.set(k, marked);
                },
                None => {},
            }
            i = i + 1;
        }
        assert(successes@.take(successes@.len() as int) =~= successes@);
        self.library.articles = cards;
        let ghost replaced = *self;
        self.reload_library_views();
        assert(library_reloaded(replaced.library, self.library));
    }

    /// Drops a deleted article from everything held in memory.
    pub fn remove_article_from_local_state(&mut self, article_id: i64)
        ensures
            article_removed(*old(self), article_id, *final(self)),
    {
        let removed = self.library.drop_article(article_id);
        self.browse.imported_urls = remove_texts(&self.browse.imported_urls, &removed);
        self.lingq.selected_articles = remove_id(&self.lingq.selected_articles, article_id);
    }
}

/// `new` is the library `old` without the article `id`: its cards and open
/// page dropped, the views reloaded.
pub open spec fn library_dropped(old: LibraryState, id: i64, new: LibraryState) -> bool {
    &&& new.articles@ == cards_without_ids(old.articles@, seq![id])
    &&& new.article_detail == (match old.article_detail {
        Some(a) => if a.id == id {
            None
        } else {
            Some(a)
        },
        None => None,
    })
    &&& library_reloaded(LibraryState { article_detail: new.article_detail, ..old }, new)
}

impl LibraryState {
    /// Drops the cached search and page, and recomputes the totals.
    pub fn reload_views(&mut self)
        ensures
            final(self).articles == old(self).articles,
            library_reloaded(*old(self), *final(self)),
    {
        self.search_query = String::new();
        self.search_results.clear();
        self.page_cache = None;
        if (self.articles.len() as u64) <= 9223372036854775807u64 {
            self.stats = Some(compute_local_library_stats(&self.articles));
        }
        proof {
            reveal(stats_fresh);
        }
    }

    /// Drops the cards and open page of the article `id`; returns the URLs
    /// of the dropped cards.
    pub fn drop_article(&mut self, id: i64) -> (removed: Vec<String>)
        ensures
            removed@ == urls_of_id(old(self).articles@, id),
            library_dropped(*old(self), id, *final(self)),
    {
        let (removed, kept) = split_cards_by_id(&self.articles, id);
        self.articles = kept;
        let drop_detail: bool = match &self.article_detail {
            Some(a) => a.id == id,
            None => false,
        };
        if drop_detail {
            self.article_detail = None;
        }
        let ghost replaced = *self;
        self.reload_views();
        assert(library_reloaded(replaced, *self));
        removed
    }
}

/// The URLs of the cards with id `id`, and the other cards.
pub fn split_cards_by_id(cards: &Vec<ArticleListItem>, id: i64) -> (res: (Vec<String>, Vec<ArticleListItem>))
    ensures
        res.0@ == urls_of_id(cards@, id),
        res.1@ == cards_without_ids(cards@, seq![id]),
{
    let mut removed: Vec<String> = Vec::new();
    let mut kept: Vec<ArticleListItem> = Vec::new();
    let mut j: usize = 0;
    while j < cards.len()
        invariant
            j <= cards@.len(),
            removed@ == urls_of_id(cards@.take(j as int), id),
            kept@ == cards_without_ids(cards@.take(j as int), seq![id]),
        decreases cards@.len() - j,
    {
        assert(cards@.take(j + 1).drop_last() =~= cards@.take(j as int));
        proof {
            if cards@[j as int].id == id {
                assert(seq![id][0] == id);
            }
        }
        if cards[j].id == id {
            removed.push(cards[j].url.clone());
        } else {
            kept.push(cards[j].duplicate());
        }
        j = j + 1;
    }
    assert(cards@.take(cards@.len() as int) =~= cards@);
    (removed, kept)
}

/// `v` without the strings that read one of `xs`.
pub fn remove_texts(v: &Vec<String>, xs: &Vec<String>) -> (res: Vec<String>)
    ensures
        res@ == without_texts(v@, xs@),
{
    let mut urls: Vec<String> = crate::soziopolis::browse::copy_strings(v);
    let mut k: usize = 0;
    while k < xs.len()
        invariant
            k <= xs@.len(),
            urls@ == without_texts(v@, xs@.take(k as int)),
        decreases xs@.len() - k,
    {
        assert(xs@.take(k + 1).drop_last() =~= xs@.take(k as int));
        urls = remove_text(&urls, &chars_of(xs[k].as_str()));
        k = k + 1;
    }
    assert(xs@.take(xs@.len() as int) =~= xs@);
    urls
}

/// The ids of `cards`.
pub fn saved_ids(cards: &Vec<ArticleListItem>) -> (res: Vec<i64>)
    ensures
        res@ == card_ids(cards@),
{
    let mut out: Vec<i64> = Vec::new();
    let mut i: usize = 0;
    while i < cards.len()
        invariant
            i <= cards@.len(),
            out@ =~= card_ids(cards@.take(i as int)),
        decreases cards@.len() - i,
    {
        out.push(cards[i].id);
        i = i + 1;
    }
    assert(cards@.take(cards@.len() as int) =~= cards@);
    out
}

/// The index of the first card with id `id`.
pub fn first_card_with_id(cards: &Vec<ArticleListItem>, id: i64) -> (res: Option<usize>)
    ensures
        match res {
            Some(k) => first_with_id(cards@, id) == Some(k as int) && k < cards@.len(),
            None => first_with_id(cards@, id) is None,
        },
{
    let mut i: usize = 0;
    while i < cards.len()
        invariant
            i <= cards@.len(),
            first_with_id(cards@.take(i as int), id) is None,
        decreases cards@.len() - i,
    {
        assert(cards@.take(i + 1).drop_last() =~= cards@.take(i as int));
        if cards[i].id == id {
            proof {
                lemma_first_with_id_prefix(cards@, i as int + 1, id);
            }
            return Some(i);
        }
        i = i + 1;
    }
    assert(cards@.take(cards@.len() as int) =~= cards@);
    None
}

/// A first match in a prefix is the first match in the whole.
pub proof fn lemma_first_with_id_prefix(cards: Seq<ArticleListItem>, i: int, id: i64)
    requires
        0 <= i <= cards.len(),
        first_with_id(cards.take(i), id) is Some,
    ensures
        first_with_id(cards, id) == first_with_id(cards.take(i), id),
    decreases cards.len(),
{
    if i < cards.len() {
        assert(cards.drop_last().take(i) =~= cards.take(i));
        lemma_first_with_id_prefix(cards.drop_last(), i, id);
    } else {
        assert(cards.take(i) =~= cards);
    }
}


/// The errors among a refresh's three results, in order.
pub open spec fn refresh_failures(result: crate::services::ContentRefreshResult) -> Seq<Seq<char>> {
    let a = match result.imported_urls {
        Ok(_) => Seq::<Seq<char>>::empty(),
        Err(e) => seq![e@],
    };
    let b = match result.library_articles {
        Ok(_) => a,
        Err(e) => a.push(e@),
    };
    match result.library_stats {
        Ok(_) => b,
        Err(e) => b.push(e@),
    }
}

/// `new` is `old` after a library reload answered: stale answers are
/// dropped; otherwise loading stops, each part that loaded is taken (new
/// cards drop the cached search and page), and a failure is noticed (as an
/// error when all three failed).
pub open spec fn after_content_refreshed(
    old: App,
    request_id: u64,
    reason: Seq<char>,
    result: crate::services::ContentRefreshResult,
    new: App,
) -> bool {
    if request_id != old.library.content_refresh_request_id {
        new == old
    } else {
        let browse = match result.imported_urls {
            Ok(urls) => BrowseState { imported_urls: urls, ..old.browse },
            Err(_) => old.browse,
        };
        let fails = refresh_failures(result);
        let cards_loaded = result.library_articles is Ok;
        &&& new.library == LibraryState {
            loading: false,
            articles: match result.library_articles {
                Ok(cards) => cards,
                Err(_) => old.library.articles,
            },
            stats: match result.library_stats {
                Ok(st) => Some(st),
                Err(_) => old.library.stats,
            },
            search_query: new.library.search_query,
            search_results: new.library.search_results,
            page_cache: if cards_loaded {
                None
            } else {
                old.library.page_cache
            },
            ..old.library
        }
        &&& if cards_loaded {
            new.library.search_query@.len() == 0 && new.library.search_results@.len() == 0
        } else {
            new.library.search_query == old.library.search_query && new.library.search_results
                == old.library.search_results
        }
        &&& {
            let mid = App { browse, library: new.library, ..old };
            if fails.len() == 0 {
                new == mid
            } else {
                notice_shown(
                    mid,
                    new,
                    "Refresh after "@ + reason + ": "@ + fails[0],
                    if fails.len() == 3 {
                        NoticeKind::Error
                    } else {
                        NoticeKind::Info
                    },
                )
            }
        }
    }
}

/// `new` is `old` after a library reload failed outright.
pub open spec fn after_content_refresh_failed(old: App, request_id: u64, reason: Seq<char>, error: AppError, new: App) -> bool {
    if request_id != old.library.content_refresh_request_id {
        new == old
    } else {
        let mid = App { library: LibraryState { loading: false, ..old.library }, ..old };
        exists|e: AppError|
            {
                &&& e.kind == error.kind && e.operation == error.operation && e.message == error.message
                    && e.recorded_at == error.recorded_at
                &&& e.details matches Some(d) && d@ == "Refresh trigger: "@ + reason
                &&& task_error_shown(mid, new, e)
            }
    }
}

/// `new` is `old` with import progress taken: the running import's counts
/// follow it, and it is kept for the progress bar.
pub open spec fn after_import_progress(old: App, progress: ImportProgress, new: App) -> bool {
    let jobs = match old.jobs.active_job {
        Some(j) => if j.kind == JobKind::Import {
            JobQueue {
                active_job: Some(
                    crate::gui::state::ActiveJob {
                        processed: progress.processed,
                        succeeded: progress.saved_count,
                        failed: progress.failed_count,
                        current_item: progress.current_item,
                        ..j
                    },
                ),
                ..old.jobs
            }
        } else {
            old.jobs
        },
        None => old.jobs,
    };
    new == App { jobs, browse: BrowseState { import_progress: Some(progress), ..old.browse }, ..old }
}

/// `new` is `old` with upload progress for job `job_id` taken.
pub open spec fn after_upload_progress(old: App, job_id: u64, progress: UploadProgress, new: App) -> bool {
    let jobs = match old.jobs.active_job {
        Some(j) => if j.id == job_id && j.kind == JobKind::Upload {
            JobQueue {
                active_job: Some(
                    crate::gui::state::ActiveJob {
                        processed: progress.processed,
                        total: progress.total,
                        succeeded: progress.uploaded,
                        failed: progress.failed_count,
                        current_item: progress.current_item,
                        ..j
                    },
                ),
                ..old.jobs
            }
        } else {
            old.jobs
        },
        None => old.jobs,
    };
    new == App { jobs, lingq: LingqState { upload_progress: Some(progress), ..old.lingq }, ..old }
}

/// `new` is `old` after the shell deleted (or failed to delete) article `id`.
pub open spec fn after_article_deleted(old: App, id: i64, result: Result<(), String>, new: App) -> bool {
    match result {
        Ok(()) => exists|mid: App|
            article_removed(old, id, mid) && notice_shown(mid, new, "Article deleted."@, NoticeKind::Info),
        Err(e) => notice_shown(old, new, e@, NoticeKind::Error),
    }
}

impl App {
    /// Takes the answer to a library reload, unless another was started since.
    #[verifier::rlimit(100)]
    pub fn content_refresh_completed(&mut self, request_id: u64, reason: String, result: crate::services::ContentRefreshResult)
        ensures
            after_content_refreshed(*old(self), request_id, reason@, result, *final(self)),
    {
        if request_id != self.library.content_refresh_request_id {
            return;
        }
        let ghost res = result;
        let crate::services::ContentRefreshResult { imported_urls, library_articles, library_stats } = result;
        let mut failures: Vec<String> = Vec::new();
        match imported_urls {
            Ok(urls) => {
                self.browse.imported_urls = urls;
            },
            Err(e) => {
                failures.push(e);
            },
        }
        let more = self.library.take_refresh(library_articles, library_stats);
        proof {
            assert(crate::text::str_views(failures@ + more@) =~= crate::text::str_views(failures@) + crate::text::str_views(more@));
        }
        let all = concat_strings(failures, more);
        assert(crate::text::str_views(all@) =~= refresh_failures(res));
        self.notice_refresh_failures(reason.as_str(), &all);
    }

    /// Notices the first failure of a reload for `reason`, if any: as an
    /// error when all three parts failed.
    fn notice_refresh_failures(&mut self, reason: &str, failures: &Vec<String>)
        ensures
            failures@.len() == 0 ==> *final(self) == *old(self),
            failures@.len() > 0 ==> notice_shown(
                *old(self),
                *final(self),
                "Refresh after "@ + reason@ + ": "@ + failures@[0]@,
                if failures@.len() == 3 {
                    NoticeKind::Error
                } else {
                    NoticeKind::Info
                },
            ),
    {
        if failures.len() > 0 {
            let kind = if failures.len() == 3 {
                NoticeKind::Error
            } else {
                NoticeKind::Info
            };
            let mut text = lit("Refresh after ");
            append_chars(&mut text, &chars_of(reason));
            append_chars(&mut text, &lit(": "));
            append_chars(&mut text, &chars_of(failures[0].as_str()));
            self.notice_text(text, kind);
        }
    }

    /// Takes a library reload that failed outright.
    pub fn content_refresh_failed(&mut self, request_id: u64, reason: String, error: AppError)
        ensures
            after_content_refresh_failed(*old(self), request_id, reason@, error, *final(self)),
    {
        if request_id != self.library.content_refresh_request_id {
            return;
        }
        self.library.loading = false;
        let mut details = lit("Refresh trigger: ");
        append_chars(&mut details, &chars_of(reason.as_str()));
        let d = string_of(&details);
        let e = error.with_details(d.as_str());
        let ghost ee = e;
        self.set_task_error_notice(e);
        assert(ee.details matches Some(x) && x@ == "Refresh trigger: "@ + reason@);
    }

    /// Takes import progress.
    pub fn import_progress(&mut self, progress: ImportProgress)
        ensures
            after_import_progress(*old(self), progress, *final(self)),
    {
        let is_import: bool = match &self.jobs.active_job {
            Some(j) => j.kind == JobKind::Import,
            None => false,
        };
        if is_import {
            let mut job: Option<crate::gui::state::ActiveJob> = None;
            std::mem::swap(&mut job, &mut self.jobs.active_job);
            match job {
                Some(j) => {
                    self.jobs.active_job = Some(
                        crate::gui::state::ActiveJob {
                            processed: progress.processed,
                            succeeded: progress.saved_count,
                            failed: progress.failed_count,
                            current_item: progress.current_item.clone(),
                            ..j
                        },
                    );
                },
                None => {},
            }
        }
        self.browse.import_progress = Some(progress);
    }

    /// Takes upload progress for job `job_id`.
    pub fn upload_progress(&mut self, job_id: u64, progress: UploadProgress)
        ensures
            after_upload_progress(*old(self), job_id, progress, *final(self)),
    {
        let matches_job: bool = match &self.jobs.active_job {
            Some(j) => j.id == job_id && j.kind == JobKind::Upload,
            None => false,
        };
        if matches_job {
            let mut job: Option<crate::gui::state::ActiveJob> = None;
            std::mem::swap(&mut job, &mut self.jobs.active_job);
            match job {
                Some(j) => {
                    self.jobs.active_job = Some(
                        crate::gui::state::ActiveJob {
                            processed: progress.processed,
                            total: progress.total,
                            succeeded: progress.uploaded,
                            failed: progress.failed_count,
                            current_item: progress.current_item.clone(),
                            ..j
                        },
                    );
                },
                None => {},
            }
        }
        self.lingq.upload_progress = Some(progress);
    }

    /// Takes the shell's answer to deleting article `id`.
    pub fn article_deleted(&mut self, id: i64, result: Result<(), String>)
        ensures
            after_article_deleted(*old(self), id, result, *final(self)),
    {
        match result {
            Ok(()) => {
                self.remove_article_from_local_state(id);
                let ghost mid = *self;
                self.set_notice(String::from_str("Article deleted."), NoticeKind::Info);
                assert(notice_shown(mid, *self, "Article deleted."@, NoticeKind::Info));
            },
            Err(e) => {
                self.set_notice(e, NoticeKind::Error);
            },
        }
    }
}


impl LibraryState {
    /// Takes the cards and totals of a reload; returns the errors, in order.
    pub fn take_refresh(
        &mut self,
        cards: Result<Vec<ArticleListItem>, String>,
        stats: Result<crate::database::LibraryStats, String>,
    ) -> (errors: Vec<String>)
        ensures
            *final(self) == (LibraryState {
                loading: false,
                articles: match cards {
                    Ok(c) => c,
                    Err(_) => old(self).articles,
                },
                stats: match stats {
                    Ok(st) => Some(st),
                    Err(_) => old(self).stats,
                },
                search_query: final(self).search_query,
                search_results: final(self).search_results,
                page_cache: if cards is Ok {
                    None
                } else {
                    old(self).page_cache
                },
                ..*old(self)
            }),
            cards is Ok ==> final(self).search_query@.len() == 0 && final(self).search_results@.len() == 0,
            cards is Err ==> final(self).search_query == old(self).search_query && final(self).search_results == old(self).search_results,
            crate::text::str_views(errors@) == (match cards {
                Ok(_) => Seq::<Seq<char>>::empty(),
                Err(e) => seq![e@],
            }) + (match stats {
                Ok(_) => Seq::<Seq<char>>::empty(),
                Err(e) => seq![e@],
            }),
    {
        self.loading = false;
        let mut errors: Vec<String> = Vec::new();
        match cards {
            Ok(c) => {
                self.articles = c;
                self.search_query = String::new();
                self.search_results.clear();
                self.page_cache = None;
            },
            Err(e) => {
                errors.push(e);
            },
        }
        match stats {
            Ok(st) => {
                self.stats = Some(st);
            },
            Err(e) => {
                errors.push(e);
            },
        }
        assert(crate::text::str_views(errors@) =~= (match cards {
            Ok(_) => Seq::<Seq<char>>::empty(),
            Err(e) => seq![e@],
        }) + (match stats {
            Ok(_) => Seq::<Seq<char>>::empty(),
            Err(e) => seq![e@],
        }));
        errors
    }
}


/// `a` followed by `b`.
pub fn concat_strings(a: Vec<String>, b: Vec<String>) -> (res: Vec<String>)
    ensures
        res@ == a@ + b@,
{
    let mut a = a;
    let mut b = b;
    a.append(&mut b);
    a
}


/// `new` is `old` after selecting, among `cards`, those the library filters
/// show (and, for `AllNotUploaded`, that are not uploaded): when a
/// word-count bound does not parse, nothing is selected and, for
/// `AllNotUploaded`, the (first) error is noticed.
pub open spec fn selection_made(old: App, request: SelectionRequest, cards: Seq<ArticleListItem>, new: App) -> bool {
    let min = spec_parse_optional_positive_usize(old.library.word_count_min@, "Min words"@);
    let max = spec_parse_optional_positive_usize(old.library.word_count_max@, "Max words"@);
    match min {
        Ok(lo) => match max {
            Ok(hi) => {
                &&& new == App { lingq: LingqState { selected_articles: new.lingq.selected_articles, ..old.lingq }, ..old }
                &&& new.lingq.selected_articles@ == crate::gui::helpers::passing_ids(
                    cards,
                    old.library.topic@,
                    old.library.only_not_uploaded,
                    lo,
                    hi,
                    request == SelectionRequest::AllNotUploaded,
                )
            },
            Err(e) => if request == SelectionRequest::AllVisible {
                new == old
            } else {
                notice_shown(old, new, e, NoticeKind::Error)
            },
        },
        Err(e) => if request == SelectionRequest::AllVisible {
            new == old
        } else {
            notice_shown(old, new, e, NoticeKind::Error)
        },
    }
}

/// Whether both word-count bounds parse.
pub open spec fn bounds_parse(old: App) -> bool {
    spec_parse_optional_positive_usize(old.library.word_count_min@, "Min words"@) is Ok
        && spec_parse_optional_positive_usize(old.library.word_count_max@, "Max words"@) is Ok
}

/// `new` is `old` after "select all" (visible, or not uploaded): the cards
/// filtered are the library's, or those of the current full-text search; a
/// search not loaded yet is asked for first.
pub open spec fn after_select_all(old: App, request: SelectionRequest, new: App, fx: Seq<Effect>) -> bool {
    let query = trim(old.library.search@);
    if !bounds_parse(old) || query.len() == 0 {
        selection_made(old, request, old.library.articles@, new) && fx.len() == 0
    } else if old.library.search_query@ == query {
        selection_made(old, request, old.library.search_results@, new) && fx.len() == 0
    } else {
        &&& new == old
        &&& fx.len() == 1
        &&& fx[0] matches Effect::SearchLibrary { query: q, request: r } && q@ == query && r == request
    }
}

/// `new` is `old` after a full-text search for a selection answered.
pub open spec fn after_search_loaded(
    old: App,
    query: String,
    request: SelectionRequest,
    result: Result<Vec<ArticleListItem>, String>,
    new: App,
) -> bool {
    match result {
        Ok(cards) => selection_made(
            App { library: LibraryState { search_query: query, search_results: cards, ..old.library }, ..old },
            request,
            cards@,
            new,
        ),
        Err(e) => if request == SelectionRequest::AllVisible {
            new == old
        } else {
            notice_shown(old, new, e@, NoticeKind::Error)
        },
    }
}

impl App {
    /// Selects among `cards` those the filters show.
    fn select_among(&mut self, request: SelectionRequest, cards: &Vec<ArticleListItem>)
        ensures
            selection_made(*old(self), request, cards@, *final(self)),
    {
        let min = parse_optional_positive_usize(self.library.word_count_min.as_str(), "Min words");
        let max = parse_optional_positive_usize(self.library.word_count_max.as_str(), "Max words");
        proof {
            reveal_strlit("Min words");
            reveal_strlit("Max words");
        }
        match min {
            Ok(lo) => match max {
                Ok(hi) => {
                    self.lingq.selected_articles = crate::gui::helpers::matching_card_ids(
                        cards,
                        self.library.topic.as_str(),
                        self.library.only_not_uploaded,
                        lo,
                        hi,
                        request == SelectionRequest::AllNotUploaded,
                    );
                },
                Err(e) => {
                    if request == SelectionRequest::AllNotUploaded {
                        self.set_notice(e, NoticeKind::Error);
                    }
                },
            },
            Err(e) => {
                if request == SelectionRequest::AllNotUploaded {
                    self.set_notice(e, NoticeKind::Error);
                }
            },
        }
    }

    /// Selects every card the filters show (or those not uploaded yet).
    pub fn select_all(&mut self, request: SelectionRequest) -> (fx: Vec<Effect>)
        ensures
            after_select_all(*old(self), request, *final(self), fx@),
    {
        let query = trim_vec(&chars_of(self.library.search.as_str()));
        let ok_min = parse_optional_positive_usize(self.library.word_count_min.as_str(), "Min words").is_ok();
        let ok_max = parse_optional_positive_usize(self.library.word_count_max.as_str(), "Max words").is_ok();
        proof {
            reveal_strlit("Min words");
            reveal_strlit("Max words");
        }
        if !(ok_min && ok_max) || query.len() == 0 {
            let cards = copy_cards(&self.library.articles);
            self.select_among(request, &cards);
            return Vec::new();
        }
        if chars_eq(&chars_of(self.library.search_query.as_str()), &query) {
            let cards = copy_cards(&self.library.search_results);
            self.select_among(request, &cards);
            return Vec::new();
        }
        let mut fx: Vec<Effect> = Vec::new();
        fx.push(Effect::SearchLibrary { query: string_of(&query), request });
        fx
    }

    /// Takes a full-text search loaded for a selection, and makes it.
    pub fn library_search_loaded(
        &mut self,
        query: String,
        request: SelectionRequest,
        result: Result<Vec<ArticleListItem>, String>,
    )
        ensures
            after_search_loaded(*old(self), query, request, result, *final(self)),
    {
        match result {
            Ok(cards) => {
                let copy = copy_cards(&cards);
                self.library.search_query = query;
                self.library.search_results = cards;
                self.select_among(request, &copy);
            },
            Err(e) => {
                if request == SelectionRequest::AllNotUploaded {
                    self.set_notice(e, NoticeKind::Error);
                }
            },
        }
    }
}

/// A copy of a sequence of cards.
pub fn copy_cards(v: &Vec<ArticleListItem>) -> (res: Vec<ArticleListItem>)
    ensures
        res@ == v@,
{
    let mut out: Vec<ArticleListItem> = Vec::new();
    let mut i: usize = 0;
    while i < v.len()
        invariant
            i <= v@.len(),
            out@ =~= v@.take(i as int),
        decreases v@.len() - i,
    {
        out.push(v[i].duplicate());
        i = i + 1;
    }
    assert(v@.take(v@.len() as int) =~= v@);
    out
}


/// `e` is the internal failure of a `task_kind` job labelled `label`.
pub open spec fn is_internal_failure(e: AppError, task_kind: Seq<char>, label: Seq<char>, message: Seq<char>) -> bool {
    &&& e.kind == crate::app_error::AppErrorKind::Internal
    &&& e.operation@ == task_kind + " task"@
    &&& e.message@ == message
    &&& e.details matches Some(d) && d@ == "Task label: "@ + label
}

/// The label of the running job, or `fallback` when none runs.
pub open spec fn running_label(app: App, fallback: Seq<char>) -> Seq<char> {
    match app.jobs.active_job {
        Some(j) => j.label@,
        None => fallback,
    }
}

/// The end of a finished job, shared by imports and uploads: from `recorded`
/// (the job already recorded), the running job is cleared, the next waiting
/// job is tried, the queue is written down and the final notice shown.
pub open spec fn job_wrapped_up(
    recorded: App,
    rec_fx: Seq<Effect>,
    notice: Seq<char>,
    kind: NoticeKind,
    new: App,
    fx: Seq<Effect>,
) -> bool {
    let cleared = App { jobs: JobQueue { active_job: None, ..recorded.jobs }, ..recorded };
    exists|tried: App|
        {
            &&& fx.len() >= rec_fx.len() + 1
            &&& fx.take(rec_fx.len() as int) == rec_fx
            &&& fx.last() == Effect::PersistQueue
            &&& next_job_tried(cleared, tried, fx.subrange(rec_fx.len() as int, fx.len() - 1))
            &&& notice_shown(tried, new, notice, kind)
        }
}

/// The notice after an import.
pub open spec fn import_notice(
    saved_count: usize,
    skipped_existing: usize,
    skipped_out_of_range: usize,
    failed: Seq<FailedFetchItem>,
    canceled: bool,
) -> (Seq<char>, NoticeKind) {
    if failed.len() == 0 {
        (
            spec_import_result_summary(saved_count, skipped_existing, skipped_out_of_range, 0, canceled, None),
            if canceled {
                NoticeKind::Info
            } else {
                NoticeKind::Success
            },
        )
    } else {
        (
            spec_import_result_summary(
                saved_count,
                skipped_existing,
                skipped_out_of_range,
                failed.len() as usize,
                canceled,
                Some(failed[0].message@),
            ),
            if saved_count > 0 {
                NoticeKind::Info
            } else {
                NoticeKind::Error
            },
        )
    }
}

/// `new` is `old` after an import finished: an internal failure is
/// recorded; the import flags drop; the failures are kept for retrying; the
/// saved cards are taken; the job is recorded (a success when nothing failed
/// and it was not canceled); then the next job is tried and the outcome
/// noticed.
pub open spec fn after_batch_fetched(
    old: App,
    job_id: u64,
    saved_count: usize,
    saved_articles: Seq<ArticleListItem>,
    skipped_existing: usize,
    skipped_out_of_range: usize,
    failed: Seq<FailedFetchItem>,
    canceled: bool,
    new: App,
    fx: Seq<Effect>,
) -> bool {
    let label = running_label(old, "Import job"@);
    exists|noted: App, flagged: App, applied: App, recorded: App|
        {
            &&& if failed.len() > 0 && failed[0].category@ == "internal"@ {
                exists|e: AppError|
                    is_internal_failure(e, "import"@, label, failed[0].message@) && failure_recorded(old, noted, e)
            } else {
                noted == old
            }
            &&& flagged == App {
                browse: BrowseState {
                    batch_fetching: false,
                    import_progress: None,
                    failed_fetches: flagged.browse.failed_fetches,
                    ..noted.browse
                },
                ..noted
            }
            &&& flagged.browse.failed_fetches@ == failed
            &&& imported_applied(flagged, saved_articles, applied)
            &&& fx.len() >= 2
            &&& job_recorded(
                applied,
                recorded,
                job_id,
                JobKind::Import,
                label,
                spec_import_result_summary(saved_count, skipped_existing, skipped_out_of_range, failed.len() as usize, canceled, None),
                failed.len() == 0 && !canceled,
                fx.take(2),
            )
            &&& job_wrapped_up(
                recorded,
                fx.take(2),
                import_notice(saved_count, skipped_existing, skipped_out_of_range, failed, canceled).0,
                import_notice(saved_count, skipped_existing, skipped_out_of_range, failed, canceled).1,
                new,
                fx,
            )
        }
}

/// The history line of an upload.
pub open spec fn upload_summary(uploaded: usize, failed: nat, canceled: bool) -> Seq<char> {
    "Uploaded "@ + decimal(uploaded as nat) + ", failed "@ + decimal(failed) + ", canceled "@ + (if canceled {
        "yes"@
    } else {
        "no"@
    })
}

/// The notice after an upload.
pub open spec fn upload_notice(uploaded: usize, failed: Seq<UploadFailure>, canceled: bool) -> (Seq<char>, NoticeKind) {
    if failed.len() == 0 {
        if canceled {
            ("Upload canceled after "@ + decimal(uploaded as nat) + " article(s)."@, NoticeKind::Info)
        } else {
            ("Uploaded "@ + decimal(uploaded as nat) + " article(s)."@, NoticeKind::Success)
        }
    } else {
        (
            "Uploaded "@ + decimal(uploaded as nat) + ", "@ + decimal(failed.len()) + " failed. "@ + failed[0].message@,
            if uploaded > 0 {
                NoticeKind::Info
            } else {
                NoticeKind::Error
            },
        )
    }
}

/// `new` is `old` after an upload finished: an internal failure is
/// recorded; the upload flags drop; the uploaded cards are marked; the
/// selection is cleared; the failures are kept for retrying; the job is
/// recorded; then the next job is tried and the outcome noticed.
pub open spec fn after_batch_uploaded(
    old: App,
    job_id: u64,
    uploaded: usize,
    successes: Seq<UploadSuccess>,
    failed: Seq<UploadFailure>,
    canceled: bool,
    new: App,
    fx: Seq<Effect>,
) -> bool {
    let label = running_label(old, "Upload job"@);
    exists|noted: App, applied: App, cleared: App, recorded: App|
        {
            &&& if failed.len() > 0 && failed[0].article_id == 0 && failed[0].title@ == "Internal task"@ {
                exists|e: AppError|
                    is_internal_failure(e, "upload"@, label, failed[0].message@) && failure_recorded(old, noted, e)
            } else {
                noted == old
            }
            &&& uploads_applied(
                App { lingq: LingqState { uploading: false, upload_progress: None, ..noted.lingq }, ..noted },
                successes,
                applied,
            )
            &&& cleared == App {
                lingq: LingqState { selected_articles: cleared.lingq.selected_articles, ..applied.lingq },
                jobs: JobQueue { last_failed_uploads: cleared.jobs.last_failed_uploads, ..applied.jobs },
                ..applied
            }
            &&& cleared.lingq.selected_articles@.len() == 0
            &&& cleared.jobs.last_failed_uploads@ == failed
            &&& fx.len() >= 2
            &&& job_recorded(
                cleared,
                recorded,
                job_id,
                JobKind::Upload,
                label,
                upload_summary(uploaded, failed.len(), canceled),
                failed.len() == 0 && !canceled,
                fx.take(2),
            )
            &&& job_wrapped_up(
                recorded,
                fx.take(2),
                upload_notice(uploaded, failed, canceled).0,
                upload_notice(uploaded, failed, canceled).1,
                new,
                fx,
            )
        }
}

impl App {
    /// The running job's label, or `fallback`.
    fn running_label_text(&self, fallback: &str) -> (res: String)
        ensures
            res@ == running_label(*self, fallback@),
    {
        match &self.jobs.active_job {
            Some(j) => j.label.clone(),
            None => string_of(&chars_of(fallback)),
        }
    }

    /// Clears the running job, tries the next one, writes the queue down and
    /// shows the final notice; `fx` already holds the recording effects.
    fn wrap_up_job(&mut self, fx: Vec<Effect>, notice: Vec<char>, kind: NoticeKind) -> (res: Vec<Effect>)
        ensures
            job_wrapped_up(*old(self), fx@, notice@, kind, *final(self), res@),
    {
        let ghost rec = fx@;
        let mut fx = fx;
        self.jobs.active_job = None;
        let mut more = self.try_start_next_queued_job();
        let ghost tried = *self;
        let ghost m = more@;
        fx.append(&mut more);
        fx.push(Effect::PersistQueue);
        self.notice_text(notice, kind);
        assert(fx@.take(rec.len() as int) =~= rec);
        assert(fx@.subrange(rec.len() as int, fx@.len() - 1) =~= m);
        assert(notice_shown(tried, *self, notice@, kind));
        fx
    }

    /// Takes a finished import.
    #[verifier::rlimit(60)]
    pub fn batch_fetched(
        &mut self,
        job_id: u64,
        saved_count: usize,
        saved_articles: Vec<ArticleListItem>,
        skipped_existing: usize,
        skipped_out_of_range: usize,
        failed: Vec<FailedFetchItem>,
        canceled: bool,
    ) -> (fx: Vec<Effect>)
        ensures
            after_batch_fetched(
                *old(self),
                job_id,
                saved_count,
                saved_articles@,
                skipped_existing,
                skipped_out_of_range,
                failed@,
                canceled,
                *final(self),
                fx@,
            ),
    {
        let label = self.running_label_text("Import job");
        proof {
            reveal_strlit("Import job");
            reveal_strlit("internal");
        }
        let ghost mut err: AppError = arbitrary();
        if failed.len() > 0 && str_is(failed[0].category.as_str(), "internal") {
            let e = AppError::internal_task("import", label.as_str(), failed[0].message.as_str());
            proof {
                err = e;
            }
            self.record_task_failure(e);
        }
        let ghost noted = *self;
        self.browse.batch_fetching = false;
        self.browse.import_progress = None;
        self.browse.failed_fetches = crate::jobs::copy_failed_fetches(&failed);
        let ghost flagged = *self;
        self.apply_imported_articles(saved_articles);
        let ghost applied = *self;
        let summary = format_import_result_summary(
            saved_count,
            skipped_existing,
            skipped_out_of_range,
            failed.len(),
            canceled,
            None,
        );
        let rec = self.record_completed_job(
            job_id,
            JobKind::Import,
            label,
            summary,
            failed.len() == 0 && !canceled,
        );
        let ghost recorded = *self;
        let (text, kind) = if failed.len() == 0 {
            (
                format_import_result_summary(saved_count, skipped_existing, skipped_out_of_range, 0, canceled, None),
                if canceled {
                    NoticeKind::Info
                } else {
                    NoticeKind::Success
                },
            )
        } else {
            (
                format_import_result_summary(
                    saved_count,
                    skipped_existing,
                    skipped_out_of_range,
                    failed.len(),
                    canceled,
                    Some(failed[0].message.as_str()),
                ),
                if saved_count > 0 {
                    NoticeKind::Info
                } else {
                    NoticeKind::Error
                },
            )
        };
        let ghost rec_fx = rec@;
        let fx = self.wrap_up_job(rec, chars_of(text.as_str()), kind);
        assert(fx@.take(2) == rec_fx);
        proof {
            let old_app = *old(self);
            let lab = running_label(old_app, "Import job"@);
            if failed@.len() > 0 && failed@[0].category@ == "internal"@ {
                assert(is_internal_failure(err, "import"@, lab, failed@[0].message@) && failure_recorded(old_app, noted, err));
            }
            assert(import_notice(saved_count, skipped_existing, skipped_out_of_range, failed@, canceled).0 == text@);
            assert(import_notice(saved_count, skipped_existing, skipped_out_of_range, failed@, canceled).1 == kind);
        }
        fx
    }

    /// Takes a finished upload.
    #[verifier::rlimit(60)]
    pub fn batch_uploaded(
        &mut self,
        job_id: u64,
        uploaded: usize,
        successes: Vec<UploadSuccess>,
        failed: Vec<UploadFailure>,
        canceled: bool,
    ) -> (fx: Vec<Effect>)
        ensures
            after_batch_uploaded(*old(self), job_id, uploaded, successes@, failed@, canceled, *final(self), fx@),
    {
        let label = self.running_label_text("Upload job");
        proof {
            reveal_strlit("Upload job");
            reveal_strlit("Internal task");
        }
        let ghost mut err: AppError = arbitrary();
        if failed.len() > 0 && failed[0].article_id == 0 && str_is(failed[0].title.as_str(), "Internal task") {
            let e = AppError::internal_task("upload", label.as_str(), failed[0].message.as_str());
            proof {
                err = e;
            }
            self.record_task_failure(e);
        }
        let ghost noted = *self;
        self.lingq.uploading = false;
        self.lingq.upload_progress = None;
        self.apply_uploaded_articles(&successes);
        let ghost applied = *self;
        self.lingq.selected_articles.clear();
        self.jobs.last_failed_uploads = crate::jobs::copy_upload_failures(&failed);
        let ghost cleared = *self;
        let mut summary = lit("Uploaded ");
        append_chars(&mut summary, &decimal_vec(uploaded));
        append_chars(&mut summary, &lit(", failed "));
        append_chars(&mut summary, &decimal_vec(failed.len()));
        append_chars(&mut summary, &lit(", canceled "));
        append_chars(&mut summary, &(if canceled { lit("yes") } else { lit("no") }));
        let rec = self.record_completed_job(
            job_id,
            JobKind::Upload,
            label,
            string_of(&summary),
            failed.len() == 0 && !canceled,
        );
        let ghost recorded = *self;
        let mut text: Vec<char>;
        let kind: NoticeKind;
        if failed.len() == 0 {
            if canceled {
                text = lit("Upload canceled after ");
                append_chars(&mut text, &decimal_vec(uploaded));
                append_chars(&mut text, &lit(" article(s)."));
                kind = NoticeKind::Info;
            } else {
                text = lit("Uploaded ");
                append_chars(&mut text, &decimal_vec(uploaded));
                append_chars(&mut text, &lit(" article(s)."));
                kind = NoticeKind::Success;
            }
        } else {
            text = lit("Uploaded ");
            append_chars(&mut text, &decimal_vec(uploaded));
            append_chars(&mut text, &lit(", "));
            append_chars(&mut text, &decimal_vec(failed.len()));
            append_chars(&mut text, &lit(" failed. "));
            append_chars(&mut text, &chars_of(failed[0].message.as_str()));
            kind = if uploaded > 0 {
                NoticeKind::Info
            } else {
                NoticeKind::Error
            };
        }
        let ghost rec_fx = rec@;
        let ghost text_v = text@;
        let fx = self.wrap_up_job(rec, text, kind);
        assert(fx@.take(2) == rec_fx);
        proof {
            let old_app = *old(self);
            let lab = running_label(old_app, "Upload job"@);
            if failed@.len() > 0 && failed@[0].article_id == 0 && failed@[0].title@ == "Internal task"@ {
                assert(is_internal_failure(err, "upload"@, lab, failed@[0].message@) && failure_recorded(old_app, noted, err));
            }
            assert(upload_notice(uploaded, failed@, canceled).0 == text_v);
            assert(upload_notice(uploaded, failed@, canceled).1 == kind);
            assert(summary@ == upload_summary(uploaded, failed@.len(), canceled));
            assert(uploads_applied(
                App { lingq: LingqState { uploading: false, upload_progress: None, ..noted.lingq }, ..noted },
                successes@,
                applied,
            ));
            assert(cleared == App {
                lingq: LingqState { selected_articles: cleared.lingq.selected_articles, ..applied.lingq },
                jobs: JobQueue { last_failed_uploads: cleared.jobs.last_failed_uploads, ..applied.jobs },
                ..applied
            });
            assert(job_recorded(
                cleared,
                recorded,
                job_id,
                JobKind::Upload,
                lab,
                upload_summary(uploaded, failed@.len(), canceled),
                failed@.len() == 0 && !canceled,
                fx@.take(2),
            ));
        }
        fx
    }
}

/// Whether `s` reads `t`.
fn str_is(s: &str, t: &str) -> (res: bool)
    ensures
        res == (s@ == t@),
{
    crate::text::str_eq(s, t)
}

/// `new` is `old` after choosing for upload the library articles within the
/// LingQ word bounds (only those not uploaded yet, when asked), with a
/// notice saying how many; a bound that does not read leaves the choice as
/// it was and says why.
pub open spec fn word_count_selection_made(old: App, new: App) -> bool {
    let min = spec_parse_optional_positive_usize(old.lingq.word_count_min@, "Min words"@);
    let max = spec_parse_optional_positive_usize(old.lingq.word_count_max@, "Max words"@);
    match min {
        Err(e) => notice_shown(old, new, e, NoticeKind::Error),
        Ok(lo) => match max {
            Err(e) => notice_shown(old, new, e, NoticeKind::Error),
            Ok(hi) => {
                let ids = crate::gui::helpers::passing_ids(
                    old.library.articles@,
                    ""@,
                    old.lingq.select_only_not_uploaded,
                    lo,
                    hi,
                    false,
                );
                let mid = App { lingq: LingqState { selected_articles: new.lingq.selected_articles, ..old.lingq }, ..old };
                &&& new.lingq.selected_articles@ == ids
                &&& notice_shown(
                    mid,
                    new,
                    "Selected "@ + decimal(ids.len()) + " article(s) for upload."@,
                    NoticeKind::Info,
                )
            },
        },
    }
}

impl App {
    /// Chooses for upload the library articles within the LingQ word bounds
    /// (only those not uploaded yet, when asked), saying how many.
    pub fn select_lingq_articles_by_word_count(&mut self)
        ensures
            word_count_selection_made(*old(self), *final(self)),
    {
        let min = parse_optional_positive_usize(self.lingq.word_count_min.as_str(), "Min words");
        let max = parse_optional_positive_usize(self.lingq.word_count_max.as_str(), "Max words");
        proof {
            reveal_strlit("Min words");
            reveal_strlit("Max words");
        }
        let lo = match min {
            Ok(lo) => lo,
            Err(e) => {
                self.set_notice(e, NoticeKind::Error);
                return;
            },
        };
        let hi = match max {
            Ok(hi) => hi,
            Err(e) => {
                self.set_notice(e, NoticeKind::Error);
                return;
            },
        };
        let cards = copy_cards(&self.library.articles);
        let ids = crate::gui::helpers::matching_card_ids(&cards, "", self.lingq.select_only_not_uploaded, lo, hi, false);
        let n: usize = ids.len();
        self.lingq.selected_articles = ids;
        let mut message = lit("Selected ");
        append_chars(&mut message, &decimal_vec(n));
        append_chars(&mut message, &lit(" article(s) for upload."));
        self.set_notice(string_of(&message), NoticeKind::Info);
    }
}

} // verus!
