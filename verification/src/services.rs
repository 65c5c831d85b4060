//! Work sizing and article assembly for the import and upload services.
use vstd::prelude::*;
use crate::text::{chars_of, parse_usize};
use crate::database::{build_article_fingerprint, default_hash_hex, fingerprint_seed, LibraryStats, StoredArticle};
use crate::text::str_eq;
use crate::domain::card_of;
use crate::soziopolis::dates::{normalize_article_date, spec_normalize_article_date};
use crate::soziopolis::types::{Article, Section, section_by_id, section_list};
use crate::soziopolis::browse::{all_exhausted, merge_all_sections_states, merge_sections};
use crate::lingq::{sort_collections, sorted_by_title, stable_by_title, Collection};
use crate::text::{trim, trim_vec};
use crate::domain::ArticleListItem;
use crate::jobs::{FailedFetchItem, UploadFailure, UploadSuccess};
use crate::soziopolis::types::{
    AllSectionsBrowseState, ArticleSummary, DiscoveryReport, SectionBrowseState,
};

verus! {

/// What a library refresh read back: the imported URLs, the library cards and
/// the totals, each with the error that stopped it.
pub struct ContentRefreshResult {
    pub imported_urls: Result<Vec<String>, String>,
    pub library_articles: Result<Vec<ArticleListItem>, String>,
    pub library_stats: Result<LibraryStats, String>,
}

/// How an import ended.
pub struct ImportOutcome {
    pub saved_count: usize,
    pub saved_articles: Vec<ArticleListItem>,
    pub skipped_existing: usize,
    pub skipped_out_of_range: usize,
    pub failed: Vec<FailedFetchItem>,
    pub canceled: bool,
}

/// How an upload ended.
pub struct UploadOutcome {
    pub uploaded: usize,
    pub successes: Vec<UploadSuccess>,
    pub failed: Vec<UploadFailure>,
    pub canceled: bool,
}

/// The articles a browse pass found, its report, whether the listing is
/// exhausted, and the state to continue from.
pub struct BrowseResponse {
    pub articles: Vec<ArticleSummary>,
    pub report: DiscoveryReport,
    pub exhausted: bool,
    pub session_state: Option<BrowseSessionState>,
}

/// A browse walk that can be continued.
pub enum BrowseSessionState {
    CurrentSection(SectionBrowseState),
    AllSections(AllSectionsBrowseState),
}

/// At most this many articles are fetched at the same time during an import.
pub const MAX_IMPORT_WORKERS: usize = 4;

/// The upload worker cap when none is configured.
pub const DEFAULT_MAX_UPLOAD_WORKERS: usize = 2;

/// The largest upload worker cap that LingQ was tested with.
pub const TESTED_MAX_UPLOAD_WORKERS: usize = 3;

/// `value` clamped to `lo..=hi` (`usize::clamp` with `lo <= hi`).
pub open spec fn clamp(value: usize, lo: usize, hi: usize) -> usize {
    if value < lo {
        lo
    } else if value > hi {
        hi
    } else {
        value
    }
}

/// How many import workers to run for `pending_items` articles: 1..=4.
pub fn import_worker_count(pending_items: usize) -> (res: usize)
    ensures
        res == clamp(pending_items, 1, MAX_IMPORT_WORKERS),
{
    if pending_items < 1 {
        1
    } else if pending_items > MAX_IMPORT_WORKERS {
        MAX_IMPORT_WORKERS
    } else {
        pending_items
    }
}

/// The upload worker cap configured by the value of the
/// `SOZIOPOLIS_LINGQ_UPLOAD_WORKERS` setting: its number if it parses, else
/// the default, clamped to 1..=3.
pub open spec fn spec_upload_worker_cap(value: Option<Seq<char>>) -> usize {
    let configured = match value {
        Some(v) => match parse_usize(v) {
            Some(n) => n,
            None => DEFAULT_MAX_UPLOAD_WORKERS,
        },
        None => DEFAULT_MAX_UPLOAD_WORKERS,
    };
    clamp(configured, 1, TESTED_MAX_UPLOAD_WORKERS)
}

/// The upload worker cap configured by `value`, the setting's text if set.
pub fn configured_upload_worker_cap_from_env(value: Option<&str>) -> (res: usize)
    ensures
        res == spec_upload_worker_cap(
            match value {
                Some(v) => Some(v@),
                None => None,
            },
        ),
{
    let configured: usize = match value {
        Some(v) => match crate::text::parse_usize_vec(&chars_of(v)) {
            Some(n) => n,
            None => DEFAULT_MAX_UPLOAD_WORKERS,
        },
        None => DEFAULT_MAX_UPLOAD_WORKERS,
    };
    if configured < 1 {
        1
    } else if configured > TESTED_MAX_UPLOAD_WORKERS {
        TESTED_MAX_UPLOAD_WORKERS
    } else {
        configured
    }
}

/// How many upload workers to run for `pending_items` articles, given the
/// text of the worker-cap setting if it is set.
pub fn upload_worker_count(pending_items: usize, configured_value: Option<&str>) -> (res: usize)
    ensures
        res == clamp(
            pending_items,
            1,
            spec_upload_worker_cap(
                match configured_value {
                    Some(v) => Some(v@),
                    None => None,
                },
            ),
        ),
{
    let cap = configured_upload_worker_cap_from_env(configured_value);
    if pending_items < 1 {
        1
    } else if pending_items > cap {
        cap
    } else {
        pending_items
    }
}


// ───────────────────────────── imports ─────────────────────────────

/// How an item is named in progress reports: its title, or its URL when it
/// has none.
pub open spec fn spec_item_label(summary: ArticleSummary) -> Seq<char> {
    if summary.title@.len() == 0 {
        summary.url@
    } else {
        summary.title@
    }
}

/// The name of an import item in progress reports.
pub fn import_item_label(summary: &ArticleSummary) -> (res: String)
    ensures
        res@ == spec_item_label(*summary),
{
    if chars_of(summary.title.as_str()).len() == 0 {
        summary.url.clone()
    } else {
        summary.title.clone()
    }
}

/// Some URL of `known` reads `url`.
pub open spec fn is_known(known: Seq<String>, url: Seq<char>) -> bool {
    exists|i: int| 0 <= i < known.len() && (#[trigger] known[i])@ == url
}

/// Some article of `s` has the URL `url`.
pub open spec fn has_url(s: Seq<ArticleSummary>, url: Seq<char>) -> bool {
    exists|i: int| 0 <= i < s.len() && (#[trigger] s[i]).url@ == url
}

/// Whether an article is left out of the fetch: its URL is already in the
/// library, or an earlier article of the batch has it.
pub open spec fn skipped_in_batch(rest: Seq<ArticleSummary>, known: Seq<String>, a: ArticleSummary) -> bool {
    is_known(known, a.url@) || has_url(rest, a.url@)
}

/// The articles to fetch: in order, each whose URL is neither in the
/// library nor taken by an earlier article of the batch.
pub open spec fn unknown_articles(articles: Seq<ArticleSummary>, known: Seq<String>) -> Seq<ArticleSummary>
    decreases articles.len(),
{
    if articles.len() == 0 {
        articles
    } else {
        let rest = unknown_articles(articles.drop_last(), known);
        if skipped_in_batch(rest, known, articles.last()) {
            rest
        } else {
            rest.push(articles.last())
        }
    }
}

/// How many of `articles` are left out of the fetch: already in the library,
/// or repeating the URL of an earlier article of the batch.
pub open spec fn known_count(articles: Seq<ArticleSummary>, known: Seq<String>) -> nat
    decreases articles.len(),
{
    if articles.len() == 0 {
        0
    } else {
        known_count(articles.drop_last(), known) + (if skipped_in_batch(
            unknown_articles(articles.drop_last(), known),
            known,
            articles.last(),
        ) {
            1nat
        } else {
            0nat
        })
    }
}

/// An import never fetches an article whose URL is already in the library,
/// never fetches a URL twice, and accounts for every chosen article: each is
/// either fetched or counted as skipped; every URL neither in the library
/// nor fetched before is fetched once.
pub proof fn law_import_skips_known_urls(articles: Seq<ArticleSummary>, known: Seq<String>)
    ensures
        forall|k: int|
            0 <= k < unknown_articles(articles, known).len() ==> !is_known(
                known,
                (#[trigger] unknown_articles(articles, known)[k]).url@,
            ),
        forall|a: int, b: int|
            0 <= a < b < unknown_articles(articles, known).len() ==> (#[trigger] unknown_articles(
                articles,
                known,
            )[a]).url@ != (#[trigger] unknown_articles(articles, known)[b]).url@,
        unknown_articles(articles, known).len() + known_count(articles, known) == articles.len(),
        forall|k: int|
            0 <= k < articles.len() && !is_known(known, (#[trigger] articles[k]).url@) ==> has_url(
                unknown_articles(articles, known),
                articles[k].url@,
            ),
    decreases articles.len(),
{
    if articles.len() > 0 {
        let init = articles.drop_last();
        law_import_skips_known_urls(init, known);
        let rest = unknown_articles(init, known);
        let now = unknown_articles(articles, known);
        assert forall|a: int, b: int| 0 <= a < b < now.len() implies (#[trigger] now[a]).url@ != (
        #[trigger] now[b]).url@ by {
            if b < rest.len() {
                assert(now[a] == rest[a] && now[b] == rest[b]);
            } else {
                assert(now[a] == rest[a]);
                assert(!has_url(rest, articles.last().url@));
            }
        }
        assert forall|k: int|
            0 <= k < articles.len() && !is_known(known, (#[trigger] articles[k]).url@) implies has_url(
                now,
                articles[k].url@,
            ) by {
            if k < articles.len() - 1 {
                assert(init[k] == articles[k]);
                let j = choose|j: int| 0 <= j < rest.len() && (#[trigger] rest[j]).url@ == init[k].url@;
                assert(now[j] == rest[j]);
            } else if has_url(rest, articles[k].url@) {
                let j = choose|j: int| 0 <= j < rest.len() && (#[trigger] rest[j]).url@ == articles[k].url@;
                assert(now[j] == rest[j]);
            } else {
                assert(now.last() == articles[k]);
            }
        }
    }
}

/// Splits the articles chosen for import into those to fetch and the number
/// left out: already in the library (whose URLs are `known_urls`), or
/// repeating the URL of an earlier article of the batch.
pub fn split_known_articles(articles: Vec<ArticleSummary>, known_urls: &Vec<String>) -> (res: (Vec<ArticleSummary>, usize))
    ensures
        res.0@ == unknown_articles(articles@, known_urls@),
        res.1 == known_count(articles@, known_urls@),
{
    let mut pending: Vec<ArticleSummary> = Vec::new();
    let mut skipped: usize = 0;
    let mut i: usize = 0;
    while i < articles.len()
        invariant
            i <= articles@.len(),
            pending@ == unknown_articles(articles@.take(i as int), known_urls@),
            skipped == known_count(articles@.take(i as int), known_urls@),
            skipped <= i,
        decreases articles@.len() - i,
    {
        assert(articles@.take(i + 1).drop_last() =~= articles@.take(i as int));
        let url = chars_of(articles[i].url.as_str());
        let mut known = false;
        let mut j: usize = 0;
        while j < known_urls.len() && !known
            invariant
                j <= known_urls@.len(),
                known == (exists|k: int| 0 <= k < j && (#[trigger] known_urls@[k])@ == url@),
            decreases known_urls@.len() - j + (if known { 0int } else { 1int }),
        {
            if crate::text::chars_eq(&chars_of(known_urls[j].as_str()), &url) {
                known = true;
            }
            j = j + 1;
        }
        assert(known == is_known(known_urls@, url@));
        let mut repeated = false;
        let mut k: usize = 0;
        while k < pending.len() && !repeated
            invariant
                k <= pending@.len(),
                repeated == (exists|m: int| 0 <= m < k && (#[trigger] pending@[m]).url@ == url@),
            decreases pending@.len() - k + (if repeated { 0int } else { 1int }),
        {
            if crate::text::chars_eq(&chars_of(pending[k].url.as_str()), &url) {
                repeated = true;
            }
            k = k + 1;
        }
        assert(repeated == has_url(pending@, url@));
        if known || repeated {
            skipped = skipped + 1;
        } else {
            pending.push(articles[i].duplicate());
        }
        i = i + 1;
    }
    assert(articles@.take(articles@.len() as int) =~= articles@);
    (pending, skipped)
}

/// An article fetched for import, completed from its listing summary: the
/// listing's teaser; its author, date and section where the page gave none;
/// the ISO date from its date or else the listing's; and the listing's source.
pub open spec fn merged_for_import(article: Article, summary: ArticleSummary, res: Article) -> bool {
    let date = if trim(article.date@).len() == 0 {
        summary.date@
    } else {
        article.date@
    };
    &&& res.url == article.url
    &&& res.title == article.title
    &&& res.subtitle == article.subtitle
    &&& res.teaser@ == summary.teaser@
    &&& res.author@ == (if trim(article.author@).len() == 0 {
        summary.author@
    } else {
        article.author@
    })
    &&& res.date@ == date
    &&& res.published_at@ == (match spec_normalize_article_date(date) {
        Some(d) => d,
        None => match spec_normalize_article_date(summary.date@) {
            Some(d) => d,
            None => Seq::<char>::empty(),
        },
    })
    &&& res.section@ == (if trim(article.section@).len() == 0 {
        summary.section@
    } else {
        article.section@
    })
    &&& res.source_kind@ == summary.source_kind.spec_name()
    &&& res.source_label@ == summary.source_label@
    &&& res.body_text == article.body_text
    &&& res.clean_text == article.clean_text
    &&& res.word_count == article.word_count
    &&& res.fetched_at == article.fetched_at
}

fn pick(own: String, fallback: &String) -> (res: String)
    ensures
        res@ == (if trim(own@).len() == 0 {
            fallback@
        } else {
            own@
        }),
{
    if trim_vec(&chars_of(own.as_str())).len() == 0 {
        fallback.clone()
    } else {
        own
    }
}

/// Completes an article fetched for import from its listing summary.
pub fn merge_summary_into_article(article: Article, summary: &ArticleSummary) -> (res: Article)
    ensures
        merged_for_import(article, *summary, res),
{
    let ghost a = article;
    let author = pick(article.author, &summary.author);
    let date = pick(article.date, &summary.date);
    let published_at = match normalize_article_date(date.as_str()) {
        Some(d) => d,
        None => match normalize_article_date(summary.date.as_str()) {
            Some(d) => d,
            None => String::new(),
        },
    };
    let section = pick(article.section, &summary.section);
    Article {
        url: article.url,
        title: article.title,
        subtitle: article.subtitle,
        teaser: summary.teaser.clone(),
        author,
        date,
        published_at,
        section,
        source_kind: String::from_str(summary.source_kind.as_str()),
        source_label: summary.source_label.clone(),
        body_text: article.body_text,
        clean_text: article.clean_text,
        word_count: article.word_count,
        fetched_at: article.fetched_at,
    }
}

/// What one fetch of an import gave: the article (and whether the library
/// already holds one with the same fingerprint), or the error.
pub enum FetchOutcome {
    Fetched { article: Article, duplicate: bool },
    Failed(String),
}

/// The duplicate-content fingerprint of an article.
pub open spec fn article_fingerprint(a: Article) -> Seq<char> {
    default_hash_hex(fingerprint_seed(a.title@, a.subtitle@, a.author@, a.date@, a.body_text@))
}

/// Whether an article already waiting in `fetched` has `a`'s URL or `a`'s
/// content fingerprint.
pub open spec fn repeats_fetched(fetched: Seq<Article>, a: Article) -> bool {
    exists|i: int|
        0 <= i < fetched.len() && ((#[trigger] fetched[i]).url@ == a.url@ || article_fingerprint(fetched[i])
            == article_fingerprint(a))
}

/// The articles waiting to be saved after `a` was fetched: `a` joins them
/// unless the library holds its content (`duplicate`) or one of them repeats it.
pub open spec fn fetched_after(fetched: Seq<Article>, a: Article, duplicate: bool) -> Seq<Article> {
    if duplicate || repeats_fetched(fetched, a) {
        fetched
    } else {
        fetched.push(a)
    }
}

/// The articles waiting to be saved after a whole run of fetches, each an
/// article and whether the library already held its content.
pub open spec fn fetched_after_all(outcomes: Seq<(Article, bool)>) -> Seq<Article>
    decreases outcomes.len(),
{
    if outcomes.len() == 0 {
        Seq::empty()
    } else {
        fetched_after(fetched_after_all(outcomes.drop_last()), outcomes.last().0, outcomes.last().1)
    }
}

/// No two of `s` share a URL or a content fingerprint.
pub open spec fn fetched_distinct(s: Seq<Article>) -> bool {
    forall|i: int, j: int|
        0 <= i < j < s.len() ==> (#[trigger] s[i]).url@ != (#[trigger] s[j]).url@ && article_fingerprint(s[i])
            != article_fingerprint(s[j])
}

/// An import saves no duplicates: after any run of fetches, the articles
/// waiting to be saved have pairwise distinct URLs and fingerprints, each was
/// fetched with content the library did not hold, and every fetched article
/// whose content the library did not hold is either among them or has its URL
/// or fingerprint there.
pub proof fn law_import_batch_has_no_duplicates(outcomes: Seq<(Article, bool)>)
    ensures
        fetched_distinct(fetched_after_all(outcomes)),
        forall|k: int|
            #![trigger fetched_after_all(outcomes)[k]]
            0 <= k < fetched_after_all(outcomes).len() ==> exists|i: int|
                0 <= i < outcomes.len() && (#[trigger] outcomes[i]).0 == fetched_after_all(outcomes)[k]
                    && !outcomes[i].1,
        forall|i: int|
            0 <= i < outcomes.len() && !(#[trigger] outcomes[i]).1 ==> repeats_fetched(
                fetched_after_all(outcomes),
                outcomes[i].0,
            ),
    decreases outcomes.len(),
{
    if outcomes.len() > 0 {
        let prev_outcomes = outcomes.drop_last();
        law_import_batch_has_no_duplicates(prev_outcomes);
        let prev = fetched_after_all(prev_outcomes);
        let res = fetched_after_all(outcomes);
        let a = outcomes.last().0;
        assert(forall|i: int| 0 <= i < prev_outcomes.len() ==> prev_outcomes[i] == outcomes[i]);
        assert(forall|k: int| 0 <= k < prev.len() ==> prev[k] == res[k]);
        assert forall|k: int| #![trigger res[k]] 0 <= k < res.len() implies exists|i: int|
            0 <= i < outcomes.len() && (#[trigger] outcomes[i]).0 == res[k] && !outcomes[i].1 by {
            if k < prev.len() {
                let i = choose|i: int|
                    0 <= i < prev_outcomes.len() && (#[trigger] prev_outcomes[i]).0 == prev[k] && !prev_outcomes[i].1;
                assert(outcomes[i] == prev_outcomes[i]);
            } else {
                assert(outcomes[outcomes.len() - 1] == outcomes.last());
            }
        }
        assert forall|i: int| 0 <= i < outcomes.len() && !(#[trigger] outcomes[i]).1 implies repeats_fetched(
            res,
            outcomes[i].0,
        ) by {
            if i < prev_outcomes.len() {
                assert(prev_outcomes[i] == outcomes[i]);
                assert(repeats_fetched(prev, outcomes[i].0));
                let j = choose|j: int|
                    0 <= j < prev.len() && ((#[trigger] prev[j]).url@ == outcomes[i].0.url@ || article_fingerprint(
                        prev[j],
                    ) == article_fingerprint(outcomes[i].0));
                assert(res[j] == prev[j]);
            } else {
                assert(outcomes[i] == outcomes.last());
                if !repeats_fetched(prev, a) {
                    assert(res[res.len() - 1] == a);
                }
            }
        }
    }
}

/// The running totals of an import.
pub struct ImportTally {
    pub processed: usize,
    pub saved_count: usize,
    pub saved_articles: Vec<ArticleListItem>,
    pub skipped_existing: usize,
    pub failed: Vec<FailedFetchItem>,
    /// Fetched articles waiting to be saved.
    pub fetched: Vec<Article>,
}

/// A failed fetch of `summary` in category `category` with `message`.
pub open spec fn is_failure(f: FailedFetchItem, url: Seq<char>, title: Seq<char>, category: Seq<char>, message: Seq<char>) -> bool {
    f.url@ == url && f.title@ == title && f.category@ == category && f.message@ == message
}

/// Whether an article in `fetched` has `article`'s URL or content fingerprint.
fn repeats_in(fetched: &Vec<Article>, article: &Article) -> (res: bool)
    ensures
        res == repeats_fetched(fetched@, *article),
{
    let fingerprint = build_article_fingerprint(article);
    let mut i: usize = 0;
    while i < fetched.len()
        invariant
            i <= fetched@.len(),
            fingerprint@ == article_fingerprint(*article),
            forall|k: int|
                0 <= k < i ==> (#[trigger] fetched@[k]).url@ != article.url@ && article_fingerprint(fetched@[k])
                    != article_fingerprint(*article),
        decreases fetched.len() - i,
    {
        let other = &fetched[i];
        if str_eq(other.url.as_str(), article.url.as_str()) {
            return true;
        }
        let other_fingerprint = build_article_fingerprint(other);
        if str_eq(other_fingerprint.as_str(), fingerprint.as_str()) {
            return true;
        }
        i = i + 1;
    }
    false
}

impl ImportTally {
    /// The saved count is the number of saved library cards, and no two
    /// articles waiting to be saved share a URL or a content fingerprint.
    pub open spec fn consistent(self) -> bool {
        self.saved_count == self.saved_articles@.len() && fetched_distinct(self.fetched@)
    }

    /// The totals before anything was fetched: `skipped` articles were
    /// already known and count as processed.
    pub fn new(skipped: usize) -> (res: ImportTally)
        ensures
            res.processed == skipped,
            res.saved_count == 0,
            res.saved_articles@.len() == 0,
            res.skipped_existing == skipped,
            res.failed@.len() == 0,
            res.fetched@.len() == 0,
            res.consistent(),
    {
        ImportTally {
            processed: skipped,
            saved_count: 0,
            saved_articles: Vec::new(),
            skipped_existing: skipped,
            failed: Vec::new(),
            fetched: Vec::new(),
        }
    }

    /// Counts the outcome of fetching `summary`: a new article waits to be
    /// saved; one whose content the library holds, or whose URL or content
    /// fingerprint repeats an article already waiting, is skipped; an error
    /// is kept as a fetch failure.
    pub fn record_fetch(&mut self, summary: &ArticleSummary, outcome: FetchOutcome)
        requires
            old(self).processed < usize::MAX,
            old(self).skipped_existing < usize::MAX,
        ensures
            old(self).consistent() ==> final(self).consistent(),
            final(self).processed == old(self).processed + 1,
            final(self).saved_count == old(self).saved_count,
            final(self).saved_articles == old(self).saved_articles,
            match outcome {
                FetchOutcome::Fetched { article, duplicate } => {
                    &&& final(self).failed == old(self).failed
                    &&& final(self).fetched@ == fetched_after(old(self).fetched@, article, duplicate)
                    &&& final(self).skipped_existing == if duplicate || repeats_fetched(old(self).fetched@, article) {
                        old(self).skipped_existing + 1
                    } else {
                        old(self).skipped_existing as int
                    }
                },
                FetchOutcome::Failed(message) => {
                    &&& final(self).skipped_existing == old(self).skipped_existing
                    &&& final(self).fetched == old(self).fetched
                    &&& final(self).failed@.len() == old(self).failed@.len() + 1
                    &&& final(self).failed@.drop_last() == old(self).failed@
                    &&& is_failure(final(self).failed@.last(), summary.url@, summary.title@, "fetch"@, message@)
                },
            },
    {
        self.processed = self.processed + 1;
        match outcome {
            FetchOutcome::Fetched { article, duplicate } => {
                if duplicate || repeats_in(&self.fetched, &article) {
                    self.skipped_existing = self.skipped_existing + 1;
                } else {
                    self.fetched.push(article);
                }
            },
            FetchOutcome::Failed(message) => {
                let ghost before = self.failed@;
                self.failed.push(
                    FailedFetchItem {
                        url: summary.url.clone(),
                        title: summary.title.clone(),
                        category: String::from_str("fetch"),
                        message,
                    },
                );
                assert(self.failed@.drop_last() =~= before);
            },
        }
    }

    /// Counts the articles a batch save stored, as library cards in order.
    pub fn record_saved(&mut self, stored: Vec<StoredArticle>)
        requires
            old(self).saved_count + stored@.len() <= usize::MAX,
        ensures
            old(self).consistent() ==> final(self).consistent(),
            final(self).saved_count == old(self).saved_count + stored@.len(),
            final(self).saved_articles@ == old(self).saved_articles@ + stored@.map_values(|a: StoredArticle| card_of(a)),
            final(self).processed == old(self).processed,
            final(self).skipped_existing == old(self).skipped_existing,
            final(self).failed == old(self).failed,
            final(self).fetched == old(self).fetched,
    {
        let ghost before = self.saved_articles@;
        let ghost all = stored@;
        let n: usize = stored.len();
        let mut rest = stored;
        let mut cards: Vec<ArticleListItem> = Vec::new();
        let mut k: usize = 0;
        while k < n
            invariant
                k <= n,
                n == all.len(),
                rest@ == all.skip(k as int),
                cards@ =~= all.take(k as int).map_values(|a: StoredArticle| card_of(a)),
            decreases n - k,
        {
            let a = rest.remove(0);
            assert(all.skip(k as int)[0] == all[k as int]);
            assert(rest@ =~= all.skip(k + 1));
            cards.push(ArticleListItem::from(a));
            assert(all.take(k + 1).map_values(|a: StoredArticle| card_of(a)) =~= all.take(k as int).map_values(|a: StoredArticle| card_of(a)).push(card_of(all[k as int])));
            k = k + 1;
        }
        assert(all.take(n as int) =~= all);
        self.saved_count = self.saved_count + n;
        self.saved_articles.append(&mut cards);
    }

    /// Counts an article whose fetch stopped inside the worker itself (not
    /// an error of the page): an internal failure with `message`, put
    /// first among the failures so that the app records it as a failed task.
    pub fn record_worker_stop(&mut self, message: String)
        requires
            old(self).processed < usize::MAX,
        ensures
            old(self).consistent() ==> final(self).consistent(),
            final(self).processed == old(self).processed + 1,
            final(self).saved_count == old(self).saved_count,
            final(self).saved_articles == old(self).saved_articles,
            final(self).skipped_existing == old(self).skipped_existing,
            final(self).fetched == old(self).fetched,
            final(self).failed@.len() == old(self).failed@.len() + 1,
            final(self).failed@.drop_first() == old(self).failed@,
            is_failure(final(self).failed@[0], Seq::empty(), Seq::empty(), "internal"@, message@),
    {
        self.processed = self.processed + 1;
        let ghost before = self.failed@;
        self.failed.insert(
            0,
            FailedFetchItem { url: String::new(), title: String::new(), category: String::from_str("internal"), message },
        );
        assert(self.failed@.drop_first() =~= before);
    }

    /// Counts what saving the fetched articles in one batch gave, and says
    /// whether they are to be saved one by one instead: when the batch
    /// failed. A stored batch too large for the saved counter is not counted.
    pub fn record_batch_save(&mut self, batch: Result<Vec<StoredArticle>, String>) -> (retry_singly: bool)
        ensures
            old(self).consistent() ==> final(self).consistent(),
            match batch {
                Ok(stored) => {
                    &&& !retry_singly
                    &&& if old(self).saved_count + stored@.len() <= usize::MAX {
                        &&& final(self).saved_count == old(self).saved_count + stored@.len()
                        &&& final(self).saved_articles@ == old(self).saved_articles@ + stored@.map_values(
                            |a: StoredArticle| card_of(a),
                        )
                        &&& final(self).processed == old(self).processed
                        &&& final(self).skipped_existing == old(self).skipped_existing
                        &&& final(self).failed == old(self).failed
                        &&& final(self).fetched == old(self).fetched
                    } else {
                        *final(self) == *old(self)
                    }
                },
                Err(_) => retry_singly && *final(self) == *old(self),
            },
    {
        match batch {
            Ok(stored) => {
                if self.saved_count <= usize::MAX - stored.len() {
                    self.record_saved(stored);
                }
                false
            },
            Err(_) => true,
        }
    }

    /// Counts one article saved on its own after a failed batch save: the
    /// stored card, or a database failure with what went wrong.
    pub fn record_single_save(&mut self, article: &Article, result: Result<StoredArticle, String>)
        requires
            old(self).saved_count < usize::MAX,
        ensures
            old(self).consistent() ==> final(self).consistent(),
            final(self).processed == old(self).processed,
            final(self).skipped_existing == old(self).skipped_existing,
            final(self).fetched == old(self).fetched,
            match result {
                Ok(stored) => final(self).saved_count == old(self).saved_count + 1
                    && final(self).saved_articles@ == old(self).saved_articles@.push(card_of(stored))
                    && final(self).failed == old(self).failed,
                Err(message) => {
                    &&& final(self).saved_count == old(self).saved_count
                    &&& final(self).saved_articles == old(self).saved_articles
                    &&& final(self).failed@.drop_last() == old(self).failed@
                    &&& final(self).failed@.len() == old(self).failed@.len() + 1
                    &&& is_failure(final(self).failed@.last(), article.url@, article.title@, "database"@, message@)
                },
            },
    {
        match result {
            Ok(stored) => {
                self.saved_count = self.saved_count + 1;
                self.saved_articles.push(ArticleListItem::from(stored));
            },
            Err(message) => {
                let ghost before = self.failed@;
                self.failed.push(
                    FailedFetchItem {
                        url: article.url.clone(),
                        title: article.title.clone(),
                        category: String::from_str("database"),
                        message,
                    },
                );
                assert(self.failed@.drop_last() =~= before);
            },
        }
    }

    /// The progress report for the current phase.
    pub fn progress(&self, phase: &str, processed: usize, total: Option<usize>, current_item: String) -> (res: crate::jobs::ImportProgress)
        ensures
            res.phase@ == phase@,
            res.processed == processed,
            res.total == total,
            res.saved_count == self.saved_count,
            res.skipped_existing == self.skipped_existing,
            res.skipped_out_of_range == 0,
            res.failed_count == self.failed@.len(),
            res.current_item == current_item,
    {
        crate::jobs::ImportProgress {
            phase: String::from_str(phase),
            processed,
            total,
            saved_count: self.saved_count,
            skipped_existing: self.skipped_existing,
            skipped_out_of_range: 0,
            failed_count: self.failed.len(),
            current_item,
        }
    }

    /// How the import ended.
    pub fn finish(self, canceled: bool) -> (res: ImportOutcome)
        ensures
            res.saved_count == self.saved_count,
            res.saved_articles == self.saved_articles,
            res.skipped_existing == self.skipped_existing,
            res.skipped_out_of_range == 0,
            res.failed == self.failed,
            res.canceled == canceled,
    {
        ImportOutcome {
            saved_count: self.saved_count,
            saved_articles: self.saved_articles,
            skipped_existing: self.skipped_existing,
            skipped_out_of_range: 0,
            failed: self.failed,
            canceled,
        }
    }
}

/// The message of a save that reported no local article id.
pub open spec fn no_id_message() -> Seq<char> {
    "Article saved but no local article id was returned."@
}

/// The message of a save whose article could not be read back.
pub open spec fn not_reloaded_message() -> Seq<char> {
    "Article saved but could not be reloaded from the local library."@
}

/// What saving one article gave, from the three steps that make it up (the
/// write, reading back its id, reading back the article): the stored article,
/// or the first error.
pub fn single_save_result(
    saved: Result<(), String>,
    id: Result<Option<i64>, String>,
    stored: Result<Option<StoredArticle>, String>,
) -> (res: Result<StoredArticle, String>)
    ensures
        match saved {
            Err(e) => res == Err::<StoredArticle, String>(e),
            Ok(()) => match id {
                Err(e) => res == Err::<StoredArticle, String>(e),
                Ok(None) => res matches Err(m) && m@ == no_id_message(),
                Ok(Some(_)) => match stored {
                    Err(e) => res == Err::<StoredArticle, String>(e),
                    Ok(None) => res matches Err(m) && m@ == not_reloaded_message(),
                    Ok(Some(a)) => res == Ok::<StoredArticle, String>(a),
                },
            },
        },
{
    match saved {
        Err(e) => Err(e),
        Ok(()) => match id {
            Err(e) => Err(e),
            Ok(None) => Err(String::from_str("Article saved but no local article id was returned.")),
            Ok(Some(_)) => match stored {
                Err(e) => Err(e),
                Ok(None) => Err(
                    String::from_str("Article saved but could not be reloaded from the local library."),
                ),
                Ok(Some(a)) => Ok(a),
            },
        },
    }
}

/// How an import ended that could not run at all: nothing saved or
/// skipped, one failure of category `error` with `message`.
pub fn import_job_failed(message: String) -> (res: ImportOutcome)
    ensures
        res.saved_count == 0,
        res.saved_articles@.len() == 0,
        res.skipped_existing == 0,
        res.skipped_out_of_range == 0,
        res.failed@.len() == 1,
        is_failure(res.failed@[0], Seq::empty(), Seq::empty(), "error"@, message@),
        !res.canceled,
{
    let mut failed: Vec<FailedFetchItem> = Vec::new();
    failed.push(FailedFetchItem { url: String::new(), title: String::new(), category: String::from_str("error"), message });
    ImportOutcome {
        saved_count: 0,
        saved_articles: Vec::new(),
        skipped_existing: 0,
        skipped_out_of_range: 0,
        failed,
        canceled: false,
    }
}

// ───────────────────────────── uploads ─────────────────────────────

/// The last stored article with id `id` among `found`, as a map of them by
/// id would hold it.
pub open spec fn last_with_id(found: Seq<StoredArticle>, id: i64) -> Option<StoredArticle>
    decreases found.len(),
{
    if found.len() == 0 {
        None
    } else if found.last().id == id {
        Some(found.last())
    } else {
        last_with_id(found.drop_last(), id)
    }
}

/// The articles to upload, in the order of `ids`, and a failure for each id
/// the library does not hold.
pub open spec fn upload_plan(ids: Seq<i64>, found: Seq<StoredArticle>) -> (Seq<StoredArticle>, Seq<i64>)
    decreases ids.len(),
{
    if ids.len() == 0 {
        (Seq::<StoredArticle>::empty(), Seq::<i64>::empty())
    } else {
        let (queue, missing) = upload_plan(ids.drop_last(), found);
        match last_with_id(found, ids.last()) {
            Some(a) => (queue.push(a), missing),
            None => (queue, missing.push(ids.last())),
        }
    }
}

/// The failure for an id the library does not hold.
pub open spec fn is_missing_failure(f: UploadFailure, id: i64) -> bool {
    f.article_id == id && f.title@ == "Article #"@ + crate::text::spec_i64_text(id) && f.message@
        == "Article not found in the local library."@
}

/// The article with id `id` among `found` (the last one, if several).
pub fn find_stored(found: &Vec<StoredArticle>, id: i64) -> (res: Option<usize>)
    ensures
        match res {
            Some(k) => k < found@.len() && last_with_id(found@, id) == Some(found@[k as int]),
            None => last_with_id(found@, id) is None,
        },
{
    let mut i: usize = found.len();
    assert(found@.take(i as int) =~= found@);
    while i > 0
        invariant
            i <= found@.len(),
            last_with_id(found@, id) == last_with_id(found@.take(i as int), id),
        decreases i,
    {
        assert(found@.take(i as int).drop_last() =~= found@.take(i - 1));
        if found[i - 1].id == id {
            return Some(i - 1);
        }
        i = i - 1;
    }
    None
}

/// Orders the articles to upload by `ids` from those the library returned,
/// and makes a failure for each id it does not hold.
pub fn plan_upload(ids: &Vec<i64>, found: &Vec<StoredArticle>) -> (res: (Vec<StoredArticle>, Vec<UploadFailure>))
    ensures
        res.0@ == upload_plan(ids@, found@).0,
        res.1@.len() == upload_plan(ids@, found@).1.len(),
        forall|k: int| 0 <= k < res.1@.len() ==> is_missing_failure(#[trigger] res.1@[k], upload_plan(ids@, found@).1[k]),
{
    let mut queue: Vec<StoredArticle> = Vec::new();
    let mut failed: Vec<UploadFailure> = Vec::new();
    let mut i: usize = 0;
    while i < ids.len()
        invariant
            i <= ids@.len(),
            queue@ == upload_plan(ids@.take(i as int), found@).0,
            failed@.len() == upload_plan(ids@.take(i as int), found@).1.len(),
            forall|k: int| 0 <= k < failed@.len() ==> is_missing_failure(#[trigger] failed@[k], upload_plan(ids@.take(i as int), found@).1[k]),
        decreases ids@.len() - i,
    {
        assert(ids@.take(i + 1).drop_last() =~= ids@.take(i as int));
        let id = ids[i];
        match find_stored(found, id) {
            Some(k) => {
                queue.push(found[k].duplicate());
            },
            None => {
                let mut title = crate::text::lit("Article #");
                crate::text::append_chars(&mut title, &crate::text::i64_text(id));
                failed.push(
                    UploadFailure {
                        article_id: id,
                        title: crate::text::string_of(&title),
                        message: String::from_str("Article not found in the local library."),
                    },
                );
            },
        }
        i = i + 1;
    }
    assert(ids@.take(ids@.len() as int) =~= ids@);
    (queue, failed)
}

/// The lesson request for uploading `article`: German, to `collection_id`,
/// with the article's title, LingQ text and URL.
pub fn upload_request_for(article: &StoredArticle, api_key: &str, collection_id: Option<i64>) -> (res: crate::lingq::UploadRequest)
    ensures
        res.api_key@ == api_key@,
        res.language_code@ == "de"@,
        res.collection_id == collection_id,
        res.title == article.title,
        res.text == article.clean_text,
        res.original_url == Some(article.url),
{
    crate::lingq::UploadRequest {
        api_key: String::from_str(api_key),
        language_code: String::from_str("de"),
        collection_id,
        title: article.title.clone(),
        text: article.clean_text.clone(),
        original_url: Some(article.url.clone()),
    }
}

/// The running totals of an upload.
pub struct UploadTally {
    pub processed: usize,
    pub uploaded: usize,
    pub successes: Vec<UploadSuccess>,
    pub failed: Vec<UploadFailure>,
}

impl UploadTally {
    /// The totals once the missing articles are known: each counts as a
    /// processed failure.
    pub fn new(missing: Vec<UploadFailure>) -> (res: UploadTally)
        ensures
            res.processed == missing@.len(),
            res.uploaded == 0,
            res.successes@.len() == 0,
            res.failed == missing,
    {
        UploadTally { processed: missing.len(), uploaded: 0, successes: Vec::new(), failed: missing }
    }

    /// Counts an upload that stopped inside the worker itself: an internal
    /// failure (`Internal task`, no article) with `message`, put first among
    /// the failures so that the app records it as a failed task.
    pub fn record_worker_stop(&mut self, message: String)
        requires
            old(self).processed < usize::MAX,
        ensures
            final(self).processed == old(self).processed + 1,
            final(self).uploaded == old(self).uploaded,
            final(self).successes == old(self).successes,
            final(self).failed@ == seq![UploadFailure { article_id: 0, title: final(self).failed@[0].title, message }]
                + old(self).failed@,
            final(self).failed@[0].title@ == "Internal task"@,
    {
        self.processed = self.processed + 1;
        let ghost before = self.failed@;
        let title = String::from_str("Internal task");
        self.failed.insert(0, UploadFailure { article_id: 0, title, message });
        assert(self.failed@ =~= seq![self.failed@[0]] + before);
    }

    /// Counts one upload of `article`: the lesson LingQ made once it is
    /// marked in the library, or the error of the upload or of the marking.
    pub fn record_upload(
        &mut self,
        article: &StoredArticle,
        outcome: Result<crate::lingq::UploadResponse, String>,
        marked: Result<(), String>,
    )
        requires
            old(self).processed < usize::MAX,
            old(self).uploaded < usize::MAX,
        ensures
            final(self).processed == old(self).processed + 1,
            match outcome {
                Ok(response) => match marked {
                    Ok(()) => {
                        &&& final(self).uploaded == old(self).uploaded + 1
                        &&& final(self).failed == old(self).failed
                        &&& final(self).successes@.drop_last() == old(self).successes@
                        &&& final(self).successes@.len() == old(self).successes@.len() + 1
                        &&& final(self).successes@.last() == (UploadSuccess {
                            article_id: article.id,
                            lesson_id: response.lesson_id,
                            lesson_url: response.lesson_url,
                        })
                    },
                    Err(e) => {
                        &&& final(self).uploaded == old(self).uploaded
                        &&& final(self).successes == old(self).successes
                        &&& final(self).failed@ == old(self).failed@.push(
                            UploadFailure { article_id: article.id, title: article.title, message: e },
                        )
                    },
                },
                Err(e) => {
                    &&& final(self).uploaded == old(self).uploaded
                    &&& final(self).successes == old(self).successes
                    &&& final(self).failed@ == old(self).failed@.push(
                        UploadFailure { article_id: article.id, title: article.title, message: e },
                    )
                },
            },
    {
        self.processed = self.processed + 1;
        match outcome {
            Ok(response) => match marked {
                Ok(()) => {
                    let ghost before = self.successes@;
                    self.uploaded = self.uploaded + 1;
                    self.successes.push(
                        UploadSuccess {
                            article_id: article.id,
                            lesson_id: response.lesson_id,
                            lesson_url: response.lesson_url,
                        },
                    );
                    assert(self.successes@.drop_last() =~= before);
                },
                Err(e) => {
                    self.failed.push(
                        UploadFailure { article_id: article.id, title: article.title.clone(), message: e },
                    );
                },
            },
            Err(e) => {
                self.failed.push(
                    UploadFailure { article_id: article.id, title: article.title.clone(), message: e },
                );
            },
        }
    }

    /// The progress report, with `current_item`.
    pub fn progress(&self, total: usize, current_item: String) -> (res: crate::jobs::UploadProgress)
        ensures
            res.processed == self.processed,
            res.total == total,
            res.uploaded == self.uploaded,
            res.failed_count == self.failed@.len(),
            res.current_item == current_item,
    {
        crate::jobs::UploadProgress {
            processed: self.processed,
            total,
            uploaded: self.uploaded,
            failed_count: self.failed.len(),
            current_item,
        }
    }

    /// How the upload ended.
    pub fn finish(self, canceled: bool) -> (res: UploadOutcome)
        ensures
            res.uploaded == self.uploaded,
            res.successes == self.successes,
            res.failed == self.failed,
            res.canceled == canceled,
    {
        UploadOutcome { uploaded: self.uploaded, successes: self.successes, failed: self.failed, canceled }
    }
}


/// How an upload ended that could not run at all: nothing uploaded, one
/// failure of the `Upload job` (no article) with `message`.
pub fn upload_job_failed(message: String) -> (res: UploadOutcome)
    ensures
        res.uploaded == 0,
        res.successes@.len() == 0,
        res.failed@.len() == 1,
        res.failed@[0].article_id == 0,
        res.failed@[0].title@ == "Upload job"@,
        res.failed@[0].message == message,
        !res.canceled,
{
    let mut failed: Vec<UploadFailure> = Vec::new();
    failed.push(UploadFailure { article_id: 0, title: String::from_str("Upload job"), message });
    UploadOutcome { uploaded: 0, successes: Vec::new(), failed, canceled: false }
}

// ───────────────────────────── services ─────────────────────────────

/// Browsing Soziopolis: which section a request names and what a stretch
/// of browsing answers. The pages are fetched by the caller, which walks
/// them with `start_section_browse`, `next_page` and `absorb_page`.
pub struct BrowseService;

/// The error for a section id that names no section.
pub open spec fn unknown_section_message(section_id: Seq<char>) -> Seq<char> {
    "unknown section '"@ + section_id + "'"@
}

impl BrowseService {
    /// The section whose id is `section_id`, or the error naming the id.
    pub fn section_for(section_id: &str) -> (res: Result<Section, String>)
        ensures
            res is Ok <==> exists|i: int| 0 <= i < section_list().len() && (#[trigger] section_list()[i]).id@ == section_id@,
            match res {
                Ok(s) => section_list().contains(s) && s.id@ == section_id@,
                Err(e) => e@ == unknown_section_message(section_id@),
            },
    {
        match section_by_id(section_id) {
            Some(s) => Ok(s),
            None => {
                let mut msg = crate::text::lit("unknown section '");
                crate::text::append_chars(&mut msg, &chars_of(section_id));
                crate::text::append_chars(&mut msg, &crate::text::lit("'"));
                Err(crate::text::string_of(&msg))
            },
        }
    }

    /// The answer to a stretch of browsing one section: its articles,
    /// report and exhaustion, with the walk kept to continue from.
    pub fn section_response(state: SectionBrowseState) -> (res: BrowseResponse)
        ensures
            res.articles@ == state.articles@,
            res.report == state.report,
            res.exhausted == state.exhausted,
            res.session_state == Some(BrowseSessionState::CurrentSection(state)),
    {
        let articles = crate::jobs::copy_summaries(&state.articles);
        let report = state.report.duplicate();
        let exhausted = state.exhausted;
        BrowseResponse { articles, report, exhausted, session_state: Some(BrowseSessionState::CurrentSection(state)) }
    }

    /// The answer to a stretch of browsing all sections for `total_limit`
    /// articles: the walks merged, with the walks kept to continue from.
    pub fn all_sections_response(state: AllSectionsBrowseState, total_limit: usize) -> (res: BrowseResponse)
        requires
            merge_sections(state.section_states@, total_limit).1.fits(),
        ensures
            res.articles@ == merge_sections(state.section_states@, total_limit).0,
            res.report@ == merge_sections(state.section_states@, total_limit).1,
            res.exhausted == all_exhausted(state.section_states@),
            res.session_state == Some(BrowseSessionState::AllSections(state)),
    {
        let merged = merge_all_sections_states(state.section_states.as_slice(), total_limit);
        BrowseResponse {
            articles: merged.articles,
            report: merged.report,
            exhausted: merged.exhausted,
            session_state: Some(BrowseSessionState::AllSections(state)),
        }
    }
}

/// The local library: what a refresh answers when the database could not
/// be reached.
pub struct LibraryService;

impl LibraryService {
    /// A refresh that failed as a whole: every part carries the message.
    pub fn refresh_failed(message: String) -> (res: ContentRefreshResult)
        ensures
            res.imported_urls matches Err(e) && e@ == message@,
            res.library_articles matches Err(e) && e@ == message@,
            res.library_stats matches Err(e) && e@ == message@,
    {
        ContentRefreshResult {
            imported_urls: Err(message.clone()),
            library_articles: Err(message.clone()),
            library_stats: Err(message),
        }
    }
}

/// The collections of every page, in page order.
pub open spec fn page_collections(pages: Seq<Vec<Collection>>) -> Seq<Collection> {
    pages.map_values(|p: Vec<Collection>| p@).flatten()
}

/// LingQ: the user's collections as shown, gathered from the pages the
/// API answered.
pub struct LingqService;

impl LingqService {
    /// The collections of every answered page, in title order ignoring
    /// case.
    pub fn collections_from_pages(pages: Vec<Vec<Collection>>) -> (res: Vec<Collection>)
        ensures
            res@.to_multiset() == pages@.map_values(|p: Vec<Collection>| p@).flatten().to_multiset(),
            sorted_by_title(res@),
            exists|idx: Seq<int>| stable_by_title(res@, page_collections(pages@), idx),
    {
        let ghost pv = pages@.map_values(|p: Vec<Collection>| p@);
        let mut all: Vec<Collection> = Vec::new();
        let mut i: usize = 0;
        while i < pages.len()
            invariant
                i <= pages@.len(),
                pv == pages@.map_values(|p: Vec<Collection>| p@),
                all@ == pv.take(i as int).flatten(),
            decreases pages@.len() - i,
        {
            let mut j: usize = 0;
            let ghost before = all@;
            while j < pages[i].len()
                invariant
                    i < pages@.len(),
                    j <= pages@[i as int]@.len(),
                    all@ == before + pages@[i as int]@.take(j as int),
                decreases pages@[i as int]@.len() - j,
            {
                let c = &pages[i][j];
                all.push(Collection { id: c.id, title: c.title.clone(), lessons_count: c.lessons_count });
                assert(pages@[i as int]@.take(j + 1) =~= pages@[i as int]@.take(j as int).push(pages@[i as int]@[j as int]));
                j = j + 1;
            }
            proof {
                assert(pages@[i as int]@.take(j as int) =~= pages@[i as int]@);
                assert(pv.take(i + 1).drop_last() =~= pv.take(i as int));
                assert(pv.take(i + 1).last() == pages@[i as int]@);
                pv.take(i + 1).lemma_flatten_and_flatten_alt_are_equivalent();
                pv.take(i as int).lemma_flatten_and_flatten_alt_are_equivalent();
            }
            i = i + 1;
        }
        assert(pv.take(pages@.len() as int) =~= pv);
        assert(all@ == page_collections(pages@));
        let res = sort_collections(all);
        let ghost w = choose|idx: Seq<int>| stable_by_title(res@, all@, idx);
        assert(stable_by_title(res@, page_collections(pages@), w));
        res
    }
}

} // verus!
