//! Values that describe what was found on soziopolis.de.
use vstd::prelude::*;
use std::collections::VecDeque;

verus! {

/// The site's origin; relative links are resolved against it.
pub const BASE_URL: &'static str = "https://www.soziopolis.de";

/// A browsable section of the site.
#[derive(Debug, Clone, Copy)]
pub struct Section {
    pub id: &'static str,
    pub label: &'static str,
    pub url: &'static str,
}

/// Where an article summary was discovered.
#[derive(Debug, Clone, Copy, PartialEq, Eq, Structural)]
pub enum DiscoverySourceKind {
    Section,
    Subsection,
    Topic,
}

impl DiscoverySourceKind {
    /// The stable lower-case name of the kind.
    pub open spec fn spec_name(self) -> Seq<char> {
        match self {
            DiscoverySourceKind::Section => "section"@,
            DiscoverySourceKind::Subsection => "subsection"@,
            DiscoverySourceKind::Topic => "topic"@,
        }
    }

    /// The stable lower-case name of the kind.
    pub fn as_str(self) -> (res: &'static str)
        ensures
            res@ == self.spec_name(),
    {
        match self {
            DiscoverySourceKind::Section => "section",
            DiscoverySourceKind::Subsection => "subsection",
            DiscoverySourceKind::Topic => "topic",
        }
    }
}

/// An article as it appears in a section listing.
#[derive(Debug, Clone)]
pub struct ArticleSummary {
    pub url: String,
    pub title: String,
    pub teaser: String,
    pub author: String,
    pub date: String,
    pub section: String,
    pub source_kind: DiscoverySourceKind,
    pub source_label: String,
}

/// Counters of what a browse pass visited and found.
#[derive(Debug, Clone, Default)]
pub struct DiscoveryReport {
    pub source_pages_visited: usize,
    pub section_pages_visited: usize,
    pub subsection_pages_visited: usize,
    pub topic_pages_visited: usize,
    pub section_articles: usize,
    pub subsection_articles: usize,
    pub topic_articles: usize,
    pub deduped_articles: usize,
}

/// The counters of a report as unbounded numbers.
pub struct ReportCounts {
    pub source_pages_visited: nat,
    pub section_pages_visited: nat,
    pub subsection_pages_visited: nat,
    pub topic_pages_visited: nat,
    pub section_articles: nat,
    pub subsection_articles: nat,
    pub topic_articles: nat,
    pub deduped_articles: nat,
}

impl ReportCounts {
    /// The counts of an empty report.
    pub open spec fn zero() -> ReportCounts {
        ReportCounts {
            source_pages_visited: 0,
            section_pages_visited: 0,
            subsection_pages_visited: 0,
            topic_pages_visited: 0,
            section_articles: 0,
            subsection_articles: 0,
            topic_articles: 0,
            deduped_articles: 0,
        }
    }

    /// Field-wise sum of two reports.
    pub open spec fn plus(self, o: ReportCounts) -> ReportCounts {
        ReportCounts {
            source_pages_visited: self.source_pages_visited + o.source_pages_visited,
            section_pages_visited: self.section_pages_visited + o.section_pages_visited,
            subsection_pages_visited: self.subsection_pages_visited + o.subsection_pages_visited,
            topic_pages_visited: self.topic_pages_visited + o.topic_pages_visited,
            section_articles: self.section_articles + o.section_articles,
            subsection_articles: self.subsection_articles + o.subsection_articles,
            topic_articles: self.topic_articles + o.topic_articles,
            deduped_articles: self.deduped_articles + o.deduped_articles,
        }
    }

    /// Every counter fits in `usize`.
    pub open spec fn fits(self) -> bool {
        &&& self.source_pages_visited <= usize::MAX
        &&& self.section_pages_visited <= usize::MAX
        &&& self.subsection_pages_visited <= usize::MAX
        &&& self.topic_pages_visited <= usize::MAX
        &&& self.section_articles <= usize::MAX
        &&& self.subsection_articles <= usize::MAX
        &&& self.topic_articles <= usize::MAX
        &&& self.deduped_articles <= usize::MAX
    }

    /// The counts of one page visit from a source of the given kind.
    pub open spec fn visit(kind: DiscoverySourceKind) -> ReportCounts {
        ReportCounts {
            source_pages_visited: 1,
            section_pages_visited: if kind == DiscoverySourceKind::Section { 1 } else { 0 },
            subsection_pages_visited: if kind == DiscoverySourceKind::Subsection { 1 } else { 0 },
            topic_pages_visited: if kind == DiscoverySourceKind::Topic { 1 } else { 0 },
            ..ReportCounts::zero()
        }
    }

    /// The counts of one article found on a source of the given kind.
    pub open spec fn found(kind: DiscoverySourceKind) -> ReportCounts {
        ReportCounts {
            section_articles: if kind == DiscoverySourceKind::Section { 1 } else { 0 },
            subsection_articles: if kind == DiscoverySourceKind::Subsection { 1 } else { 0 },
            topic_articles: if kind == DiscoverySourceKind::Topic { 1 } else { 0 },
            ..ReportCounts::zero()
        }
    }

    /// The counts of one article skipped as already seen.
    pub open spec fn deduped() -> ReportCounts {
        ReportCounts { deduped_articles: 1, ..ReportCounts::zero() }
    }
}

impl View for DiscoveryReport {
    type V = ReportCounts;

    open spec fn view(&self) -> ReportCounts {
        ReportCounts {
            source_pages_visited: self.source_pages_visited as nat,
            section_pages_visited: self.section_pages_visited as nat,
            subsection_pages_visited: self.subsection_pages_visited as nat,
            topic_pages_visited: self.topic_pages_visited as nat,
            section_articles: self.section_articles as nat,
            subsection_articles: self.subsection_articles as nat,
            topic_articles: self.topic_articles as nat,
            deduped_articles: self.deduped_articles as nat,
        }
    }
}

impl DiscoveryReport {
    /// A report with every counter at zero.
    pub fn new() -> (res: DiscoveryReport)
        ensures
            res@ == ReportCounts::zero(),
    {
        DiscoveryReport {
            source_pages_visited: 0,
            section_pages_visited: 0,
            subsection_pages_visited: 0,
            topic_pages_visited: 0,
            section_articles: 0,
            subsection_articles: 0,
            topic_articles: 0,
            deduped_articles: 0,
        }
    }

    /// Counts one visited source page of the given kind.
    pub fn record_source_visit(&mut self, source_kind: DiscoverySourceKind)
        requires
            old(self)@.plus(ReportCounts::visit(source_kind)).fits(),
        ensures
            final(self)@ == old(self)@.plus(ReportCounts::visit(source_kind)),
    {
        self.source_pages_visited = self.source_pages_visited + 1;
        match source_kind {
            DiscoverySourceKind::Section => {
                self.section_pages_visited = self.section_pages_visited + 1;
            },
            DiscoverySourceKind::Subsection => {
                self.subsection_pages_visited = self.subsection_pages_visited + 1;
            },
            DiscoverySourceKind::Topic => {
                self.topic_pages_visited = self.topic_pages_visited + 1;
            },
        }
    }

    /// Counts one article found on a source of the given kind.
    pub fn record_article(&mut self, source_kind: DiscoverySourceKind)
        requires
            old(self)@.plus(ReportCounts::found(source_kind)).fits(),
        ensures
            final(self)@ == old(self)@.plus(ReportCounts::found(source_kind)),
    {
        match source_kind {
            DiscoverySourceKind::Section => {
                self.section_articles = self.section_articles + 1;
            },
            DiscoverySourceKind::Subsection => {
                self.subsection_articles = self.subsection_articles + 1;
            },
            DiscoverySourceKind::Topic => {
                self.topic_articles = self.topic_articles + 1;
            },
        }
    }

    /// Whether adding `other` to this report leaves every counter in `usize`.
    pub fn fits_with(&self, other: &DiscoveryReport) -> (res: bool)
        ensures
            res == self@.plus(other@).fits(),
    {
        self.source_pages_visited <= usize::MAX - other.source_pages_visited
            && self.section_pages_visited <= usize::MAX - other.section_pages_visited
            && self.subsection_pages_visited <= usize::MAX - other.subsection_pages_visited
            && self.topic_pages_visited <= usize::MAX - other.topic_pages_visited
            && self.section_articles <= usize::MAX - other.section_articles
            && self.subsection_articles <= usize::MAX - other.subsection_articles
            && self.topic_articles <= usize::MAX - other.topic_articles
            && self.deduped_articles <= usize::MAX - other.deduped_articles
    }

    /// Adds every counter of `other` to this report.
    pub fn merge(&mut self, other: &DiscoveryReport)
        requires
            old(self)@.plus(other@).fits(),
        ensures
            final(self)@ == old(self)@.plus(other@),
    {
        self.source_pages_visited = self.source_pages_visited + other.source_pages_visited;
        self.section_pages_visited = self.section_pages_visited + other.section_pages_visited;
        self.subsection_pages_visited = self.subsection_pages_visited
            + other.subsection_pages_visited;
        self.topic_pages_visited = self.topic_pages_visited + other.topic_pages_visited;
        self.section_articles = self.section_articles + other.section_articles;
        self.subsection_articles = self.subsection_articles + other.subsection_articles;
        self.topic_articles = self.topic_articles + other.topic_articles;
        self.deduped_articles = self.deduped_articles + other.deduped_articles;
    }
}

/// The articles found by a browse pass, with its report.
#[derive(Debug, Clone)]
pub struct BrowseSectionResult {
    pub articles: Vec<ArticleSummary>,
    pub report: DiscoveryReport,
    pub exhausted: bool,
}

/// A resumable walk through one section's paginated listing.
#[derive(Debug, Clone)]
pub struct SectionBrowseState {
    pub articles: Vec<ArticleSummary>,
    pub report: DiscoveryReport,
    pub exhausted: bool,
    pub section: Section,
    pub pending_page_urls: VecDeque<String>,
    pub discovered_page_urls: Vec<String>,
    pub seen_article_urls: Vec<String>,
    pub visited_page_urls: Vec<String>,
}

/// One resumable walk per section.
#[derive(Debug, Clone)]
pub struct AllSectionsBrowseState {
    pub section_states: Vec<SectionBrowseState>,
}

/// A fully extracted article page.
#[derive(Debug, Clone)]
pub struct Article {
    pub url: String,
    pub title: String,
    pub subtitle: String,
    pub teaser: String,
    pub author: String,
    pub date: String,
    pub published_at: String,
    pub section: String,
    pub source_kind: String,
    pub source_label: String,
    pub body_text: String,
    pub clean_text: String,
    pub word_count: usize,
    pub fetched_at: String,
}

/// The identifying metadata of an article page.
#[derive(Debug, Clone)]
pub struct ArticleMetadata {
    pub url: String,
    pub title: String,
    pub date: String,
    pub section: String,
}

/// The site's sections, in menu order.
pub open spec fn section_list() -> Seq<Section> {
    seq![
        Section { id: "latest", label: "Latest", url: "https://www.soziopolis.de/index.html" },
        Section {
            id: "essays",
            label: "Essays",
            url: "https://www.soziopolis.de/texte/essay.html",
        },
        Section {
            id: "reviews",
            label: "Besprechungen",
            url: "https://www.soziopolis.de/besprechungen.html",
        },
        Section {
            id: "interviews",
            label: "Interviews",
            url: "https://www.soziopolis.de/texte/interview.html",
        },
        Section { id: "dossiers", label: "Dossiers", url: "https://www.soziopolis.de/dossier.html" },
        Section {
            id: "soziales-leben",
            label: "Soziales Leben",
            url: "https://www.soziopolis.de/soziales-leben.html",
        },
        Section {
            id: "gesellschaftstheorie",
            label: "Gesellschaftstheorie & Anthropologie",
            url: "https://www.soziopolis.de/gesellschaftstheorie-anthropologie.html",
        },
        Section {
            id: "politik",
            label: "Politik & Zeitgeschichte",
            url: "https://www.soziopolis.de/politik-zeitgeschichte.html",
        },
        Section {
            id: "wirtschaft",
            label: "Wirtschaft & Recht",
            url: "https://www.soziopolis.de/wirtschaft-recht.html",
        },
        Section {
            id: "kultur",
            label: "Kultur & Medien",
            url: "https://www.soziopolis.de/kultur-medien.html",
        },
        Section {
            id: "wissenschaft",
            label: "Wissenschaft & Technik",
            url: "https://www.soziopolis.de/wissenschaft-technik.html",
        },
        Section {
            id: "zeitschriftenschau",
            label: "Zeitschriftenschau",
            url: "https://www.soziopolis.de/zeitschriftenschau.html",
        },
    ]
}

/// The site's sections, in menu order.
pub fn sections() -> (res: Vec<Section>)
    ensures
        res@ == section_list(),
{
    let v = vec![
        Section { id: "latest", label: "Latest", url: "https://www.soziopolis.de/index.html" },
        Section {
            id: "essays",
            label: "Essays",
            url: "https://www.soziopolis.de/texte/essay.html",
        },
        Section {
            id: "reviews",
            label: "Besprechungen",
            url: "https://www.soziopolis.de/besprechungen.html",
        },
        Section {
            id: "interviews",
            label: "Interviews",
            url: "https://www.soziopolis.de/texte/interview.html",
        },
        Section { id: "dossiers", label: "Dossiers", url: "https://www.soziopolis.de/dossier.html" },
        Section {
            id: "soziales-leben",
            label: "Soziales Leben",
            url: "https://www.soziopolis.de/soziales-leben.html",
        },
        Section {
            id: "gesellschaftstheorie",
            label: "Gesellschaftstheorie & Anthropologie",
            url: "https://www.soziopolis.de/gesellschaftstheorie-anthropologie.html",
        },
        Section {
            id: "politik",
            label: "Politik & Zeitgeschichte",
            url: "https://www.soziopolis.de/politik-zeitgeschichte.html",
        },
        Section {
            id: "wirtschaft",
            label: "Wirtschaft & Recht",
            url: "https://www.soziopolis.de/wirtschaft-recht.html",
        },
        Section {
            id: "kultur",
            label: "Kultur & Medien",
            url: "https://www.soziopolis.de/kultur-medien.html",
        },
        Section {
            id: "wissenschaft",
            label: "Wissenschaft & Technik",
            url: "https://www.soziopolis.de/wissenschaft-technik.html",
        },
        Section {
            id: "zeitschriftenschau",
            label: "Zeitschriftenschau",
            url: "https://www.soziopolis.de/zeitschriftenschau.html",
        },
    ];
    assert(v@ =~= section_list());
    v
}

/// The first section whose id is `id`.
pub fn section_by_id(id: &str) -> (res: Option<Section>)
    ensures
        match res {
            Some(s) => exists|i: int|
                0 <= i < section_list().len() && section_list()[i] == s && s.id@ == id@ && forall|
                    j: int,
                |
                    0 <= j < i ==> (#[trigger] section_list()[j]).id@ != id@,
            None => forall|i: int|
                0 <= i < section_list().len() ==> (#[trigger] section_list()[i]).id@ != id@,
        },
{
    let all = sections();
    let n: usize = all.len();
    let mut i: usize = 0;
    while i < n
        invariant
            i <= n,
            n == section_list().len(),
            all@ == section_list(),
            forall|j: int| 0 <= j < i ==> (#[trigger] section_list()[j]).id@ != id@,
        decreases n - i,
    {
        if crate::text::str_eq(all[i].id, id) {
            return Some(all[i]);
        }
        i = i + 1;
    }
    None
}

} // verus!
