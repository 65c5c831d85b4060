//! URL rules of the site: which links are articles, how relative links are
//! resolved, how sections are labelled and how a section's listing pages
//! are discovered.
use vstd::prelude::*;
use crate::soziopolis::types::{BASE_URL, Section, section_list, sections};
use crate::text::occurs_at;
use crate::soziopolis::page::{first_capture, regex_first_capture, select_attr, selected_attr};
use crate::text::{
    append_chars, byte_len, chars_eq, chars_of, contains, contains_char, contains_vec, decimal,
    decimal_vec, eq_ignore_ascii_case, eq_ignore_ascii_case_vec, equals_any, lit, parse_usize,
    parse_usize_str, replace_char, replace_char_vec, split, split_vec, starts_with,
    starts_with_any, starts_with_vec, str_byte_len, string_of, trim_end_char, trim_end_char_vec,
    trim_start_char, trim_start_char_vec, trim_start_matches, trim_start_matches_vec, views,
    str_views, replace, replace_vec,
};

verus! {

// ───────────────────────────── links ─────────────────────────────

/// A link target resolved against the site's origin.
pub open spec fn spec_absolute_url(raw: Seq<char>) -> Seq<char> {
    if starts_with(raw, "http://"@) || starts_with(raw, "https://"@) {
        raw
    } else if starts_with(raw, "/"@) {
        BASE_URL@ + raw
    } else {
        BASE_URL@ + "/"@ + raw
    }
}

/// Resolves a link target against the site's origin.
pub fn absolute_url(raw_href: &str) -> (res: String)
    ensures
        res@ == spec_absolute_url(raw_href@),
{
    let raw = chars_of(raw_href);
    if starts_with_vec(&raw, &lit("http://")) || starts_with_vec(&raw, &lit("https://")) {
        return string_of(&raw);
    }
    let mut out = lit(BASE_URL);
    if !starts_with_vec(&raw, &lit("/")) {
        append_chars(&mut out, &lit("/"));
    }
    append_chars(&mut out, &raw);
    string_of(&out)
}

/// Link texts that name a listing rather than an article.
pub open spec fn non_article_titles() -> Seq<Seq<char>> {
    seq!["Artikel lesen"@, "Essays"@, "Besprechungen"@, "Interviews"@, "Dossiers"@]
}

/// A headline text plausibly names an article: 10 to 220 bytes long and not
/// one of the listing captions (compared up to ASCII case).
pub open spec fn spec_looks_like_article_title(title: Seq<char>) -> bool {
    &&& byte_len(title) >= 10
    &&& byte_len(title) <= 220
    &&& forall|k: int|
        0 <= k < non_article_titles().len() ==> !eq_ignore_ascii_case(
            title,
            #[trigger] non_article_titles()[k],
        )
}

/// Whether a headline text plausibly names an article.
pub fn looks_like_article_title(title: &str) -> (res: bool)
    ensures
        res == spec_looks_like_article_title(title@),
{
    let len: usize = str_byte_len(title);
    if len < 10 || len > 220 {
        return false;
    }
    let t = chars_of(title);
    let captions: Vec<Vec<char>> = vec![
        lit("Artikel lesen"),
        lit("Essays"),
        lit("Besprechungen"),
        lit("Interviews"),
        lit("Dossiers"),
    ];
    assert(views(captions@) =~= non_article_titles());
    let n: usize = captions.len();
    let mut i: usize = 0;
    while i < n
        invariant
            i <= n,
            n == non_article_titles().len(),
            views(captions@) == non_article_titles(),
            t@ == title@,
            byte_len(title@) >= 10,
            byte_len(title@) <= 220,
            forall|k: int| 0 <= k < i ==> !eq_ignore_ascii_case(t@, #[trigger] non_article_titles()[k]),
        decreases n - i,
    {
        assert(captions@[i as int]@ == non_article_titles()[i as int]);
        if eq_ignore_ascii_case_vec(&t, &captions[i]) {
            assert(eq_ignore_ascii_case(t@, non_article_titles()[i as int]));
            return false;
        }
        i = i + 1;
    }
    true
}

/// The site path of a URL: the origin and any leading slashes removed.
pub open spec fn site_path(url: Seq<char>) -> Seq<char> {
    trim_start_char(trim_start_matches(url, BASE_URL@), '/')
}

fn site_path_vec(url: &Vec<char>) -> (res: Vec<char>)
    ensures
        res@ == site_path(url@),
{
    let base = lit(BASE_URL);
    let stripped = trim_start_matches_vec(url, &base);
    trim_start_char_vec(&stripped, '/')
}

/// Site paths that are listings or service pages, never articles.
pub open spec fn excluded_paths() -> Seq<Seq<char>> {
    seq![
        "index.html"@,
        "suche.html"@,
        "newsletter.html"@,
        "veroeffentlichen.html"@,
        "kontakt.html"@,
        "partner.html"@,
        "ueber-uns.html"@,
        "rssfeed.xml"@,
        "texte/essay.html"@,
        "texte/interview.html"@,
        "texte/podcast-video.html"@,
        "besprechungen.html"@,
        "dossier.html"@,
        "soziales-leben.html"@,
        "gesellschaftstheorie-anthropologie.html"@,
        "politik-zeitgeschichte.html"@,
        "wirtschaft-recht.html"@,
        "kultur-medien.html"@,
        "wissenschaft-technik.html"@,
        "zeitschriftenschau.html"@,
    ]
}

/// Site path prefixes of author pages, calls, forums and files.
pub open spec fn excluded_prefixes() -> Seq<Seq<char>> {
    seq!["autoren/"@, "ausschreibungen/"@, "buchforum/"@, "meta/"@, "fileadmin/"@, "dossier/"@]
}

/// An absolute URL that is not an article page.
pub open spec fn spec_is_excluded_article_url(url: Seq<char>) -> bool {
    let path = site_path(url);
    excluded_paths().contains(path) || exists|k: int|
        0 <= k < excluded_prefixes().len() && starts_with(path, #[trigger] excluded_prefixes()[k])
}

/// Whether an absolute URL is a listing or service page rather than an article.
pub fn is_excluded_article_url(url: &str) -> (res: bool)
    ensures
        res == spec_is_excluded_article_url(url@),
{
    let path = site_path_vec(&chars_of(url));
    let exact: Vec<Vec<char>> = vec![
        lit("index.html"),
        lit("suche.html"),
        lit("newsletter.html"),
        lit("veroeffentlichen.html"),
        lit("kontakt.html"),
        lit("partner.html"),
        lit("ueber-uns.html"),
        lit("rssfeed.xml"),
        lit("texte/essay.html"),
        lit("texte/interview.html"),
        lit("texte/podcast-video.html"),
        lit("besprechungen.html"),
        lit("dossier.html"),
        lit("soziales-leben.html"),
        lit("gesellschaftstheorie-anthropologie.html"),
        lit("politik-zeitgeschichte.html"),
        lit("wirtschaft-recht.html"),
        lit("kultur-medien.html"),
        lit("wissenschaft-technik.html"),
        lit("zeitschriftenschau.html"),
    ];
    assert(views(exact@) =~= excluded_paths());
    if equals_any(&path, &exact) {
        return true;
    }
    let prefixes: Vec<Vec<char>> = vec![
        lit("autoren/"),
        lit("ausschreibungen/"),
        lit("buchforum/"),
        lit("meta/"),
        lit("fileadmin/"),
        lit("dossier/"),
    ];
    assert(views(prefixes@) =~= excluded_prefixes());
    let r = starts_with_any(&path, &prefixes);
    assert(r == exists|k: int|
        0 <= k < excluded_prefixes().len() && starts_with(path@, #[trigger] excluded_prefixes()[k]))
        by {
        if r {
            let k = choose|k: int| 0 <= k < prefixes@.len() && starts_with(path@, #[trigger] prefixes@[k]@);
            assert(excluded_prefixes()[k] == prefixes@[k]@);
        } else {
            assert forall|k: int| 0 <= k < excluded_prefixes().len() implies !starts_with(path@, #[trigger] excluded_prefixes()[k]) by {
                assert(excluded_prefixes()[k] == prefixes@[k]@);
            }
        }
    }
    r
}

// ───────────────────────────── section labels ─────────────────────────────

/// The section a URL's first path segment names: `Latest` for the front
/// page, otherwise the segment with hyphens read as spaces.
pub open spec fn spec_infer_section_from_url(url: Seq<char>) -> Seq<char> {
    let first = split(site_path(url), "/"@)[0];
    if first.len() == 0 {
        "Latest"@
    } else {
        replace_char(first, '-', ' ')
    }
}

/// The section a URL's first path segment names; there always is one.
pub fn infer_section_from_url(url: &str) -> (res: Option<String>)
    ensures
        res matches Some(s) && s@ == spec_infer_section_from_url(url@),
{
    let path = site_path_vec(&chars_of(url));
    let pieces = split_vec(&path, &lit("/"));
    assert(views(pieces@).len() == pieces@.len());
    assert(views(pieces@)[0] == pieces@[0]@);
    let first = &pieces[0];
    if first.len() == 0 {
        return Some(string_of(&lit("Latest")));
    }
    Some(string_of(&replace_char_vec(first, '-', ' ')))
}

/// The label of the section whose URL matches `source_url` (ignoring
/// trailing slashes), else the section the URL itself names.
pub open spec fn spec_source_label(source_url: Seq<char>) -> Seq<char> {
    let key = trim_end_char(source_url, '/');
    if exists|i: int|
        0 <= i < section_list().len() && trim_end_char((#[trigger] section_list()[i]).url@, '/')
            == key {
        let i = choose|i: int|
            0 <= i < section_list().len() && trim_end_char((#[trigger] section_list()[i]).url@, '/')
                == key && forall|j: int|
                0 <= j < i ==> trim_end_char((#[trigger] section_list()[j]).url@, '/') != key;
        section_list()[i].label@
    } else {
        spec_infer_section_from_url(source_url)
    }
}

/// The label under which articles found on `source_url` are filed.
pub fn source_label(source_url: &str) -> (res: String)
    ensures
        res@ == spec_source_label(source_url@),
{
    let key = trim_end_char_vec(&chars_of(source_url), '/');
    let all = sections();
    let n: usize = all.len();
    let mut i: usize = 0;
    while i < n
        invariant
            i <= n,
            n == section_list().len(),
            all@ == section_list(),
            key@ == trim_end_char(source_url@, '/'),
            forall|j: int|
                0 <= j < i ==> trim_end_char((#[trigger] section_list()[j]).url@, '/') != key@,
        decreases n - i,
    {
        let candidate = trim_end_char_vec(&chars_of(all[i].url), '/');
        if chars_eq(&candidate, &key) {
            let ghost w = i as int;
            assert(0 <= w < section_list().len() && trim_end_char(section_list()[w].url@, '/')
                == key@ && forall|j: int|
                0 <= j < w ==> trim_end_char((#[trigger] section_list()[j]).url@, '/') != key@);
            let ghost c = choose|i: int|
                0 <= i < section_list().len() && trim_end_char(
                    (#[trigger] section_list()[i]).url@,
                    '/',
                ) == key@ && forall|j: int|
                    0 <= j < i ==> trim_end_char((#[trigger] section_list()[j]).url@, '/')
                        != key@;
            assert(c == w) by {
                if c < w {
                    assert(trim_end_char(section_list()[c].url@, '/') != key@);
                } else if c > w {
                    assert(trim_end_char(section_list()[w].url@, '/') != key@);
                }
            }
            return string_of(&chars_of(all[i].label));
        }
        i = i + 1;
    }
    match infer_section_from_url(source_url) {
        Some(label) => label,
        None => string_of(&lit("Soziopolis")),
    }
}

// ───────────────────────────── pagination ─────────────────────────────

/// Listing pages are at most this deep.
pub const MAX_SECTION_PAGE_DEPTH: usize = 80;

/// How many listing pages to read to find about `limit` articles: one page
/// per ten articles, at least two pages, at most the maximum depth.
pub open spec fn spec_desired_section_page_count(limit: usize) -> usize {
    let l = if limit < 20 { 20 } else { limit };
    let pages = (l + 9) / 10;
    if pages > 80 { 80 } else { pages as usize }
}

/// How many listing pages to read to find about `limit` articles.
pub fn desired_section_page_count(limit: usize) -> (res: usize)
    ensures
        res == spec_desired_section_page_count(limit),
        2 <= res <= MAX_SECTION_PAGE_DEPTH,
{
    let l: usize = if limit < 20 { 20 } else { limit };
    let pages: usize = l / 10 + if l % 10 == 0 { 0 } else { 1 };
    if pages > MAX_SECTION_PAGE_DEPTH {
        MAX_SECTION_PAGE_DEPTH
    } else {
        pages
    }
}

/// The URL of listing page `page` in the numbering scheme older pages use.
pub open spec fn legacy_page_url(section_url: Seq<char>, page: nat) -> Seq<char> {
    section_url + (if section_url.contains('?') {
        "&"@
    } else {
        "?"@
    }) + "listArticles12%5Bcontroller%5D=Search&listArticles12%5Bpage%5D="@ + decimal(page)
}

/// Listing pages 2 through `desired_pages` in the older numbering scheme.
pub fn legacy_section_page_urls(section: &Section, desired_pages: usize) -> (res: Vec<String>)
    ensures
        res@.len() == (if desired_pages >= 1 { desired_pages - 1 } else { 0 }),
        forall|k: int|
            0 <= k < res@.len() ==> (#[trigger] res@[k])@ == legacy_page_url(
                section.url@,
                (k + 2) as nat,
            ),
{
    let count: usize = if desired_pages >= 1 { desired_pages - 1 } else { 0 };
    let url = chars_of(section.url);
    let joiner = if contains_char(&url, '?') { lit("&") } else { lit("?") };
    let query = lit("listArticles12%5Bcontroller%5D=Search&listArticles12%5Bpage%5D=");
    let mut urls: Vec<String> = Vec::new();
    let mut k: usize = 0;
    while k < count
        invariant
            k <= count,
            count < usize::MAX,
            url@ == section.url@,
            joiner@ == (if section.url@.contains('?') { "&"@ } else { "?"@ }),
            query@ == "listArticles12%5Bcontroller%5D=Search&listArticles12%5Bpage%5D="@,
            urls@.len() == k,
            forall|j: int|
                0 <= j < k ==> (#[trigger] urls@[j])@ == legacy_page_url(
                    section.url@,
                    (j + 2) as nat,
                ),
        decreases count - k,
    {
        let mut u = url.clone();
        append_chars(&mut u, &joiner);
        append_chars(&mut u, &query);
        append_chars(&mut u, &decimal_vec(k + 2));
        urls.push(string_of(&u));
        k = k + 1;
    }
    urls
}

/// A candidate link from a listing page: its target (with `&amp;` already
/// decoded) and the digits the page-number pattern captured in it.
#[derive(Debug, Clone)]
pub struct PaginationLink {
    pub href: String,
    pub page_digits: Option<String>,
}

impl View for PaginationLink {
    type V = (Seq<char>, Option<Seq<char>>);

    open spec fn view(&self) -> (Seq<char>, Option<Seq<char>>) {
        (
            self.href@,
            match self.page_digits {
                Some(d) => Some(d@),
                None => None,
            },
        )
    }
}

/// The page number a candidate link carries, if its digits parse.
pub open spec fn link_page(l: (Seq<char>, Option<Seq<char>>)) -> Option<usize> {
    match l.1 {
        Some(d) => parse_usize(d),
        None => None,
    }
}

/// The section's URL without the site's origin.
pub open spec fn section_path(section: Section) -> Seq<char> {
    trim_start_matches(section.url@, BASE_URL@)
}

/// A candidate link points to a later page of this section's search listing.
pub open spec fn link_accepted(section: Section, l: (Seq<char>, Option<Seq<char>>)) -> bool {
    &&& contains(l.0, "page%5D="@)
    &&& contains(l.0, "controller%5D=Search"@)
    &&& (starts_with(l.0, section_path(section)) || starts_with(l.0, section.url@))
    &&& link_page(l) matches Some(p) && p > 1
}

/// A link target made absolute unless it already starts with `http`.
pub open spec fn normalized_page_url(href: Seq<char>) -> Seq<char> {
    if starts_with(href, "http"@) {
        href
    } else {
        BASE_URL@ + href
    }
}

/// The views of candidate links.
pub open spec fn link_views(links: Seq<PaginationLink>) -> Seq<(Seq<char>, Option<Seq<char>>)> {
    links.map_values(|l: PaginationLink| l@)
}

/// Whether some entry already has page number `p`.
pub open spec fn has_page(entries: Seq<(usize, Seq<char>)>, p: usize) -> bool {
    exists|i: int| 0 <= i < entries.len() && (#[trigger] entries[i]).0 == p
}

/// The accepted links as (page, URL) entries, the first link of each page
/// number only, in link order.
pub open spec fn page_entries(section: Section, links: Seq<(Seq<char>, Option<Seq<char>>)>) -> Seq<
    (usize, Seq<char>),
>
    decreases links.len(),
{
    if links.len() == 0 {
        Seq::empty()
    } else {
        let prev = page_entries(section, links.drop_last());
        let l = links.last();
        if link_accepted(section, l) && !has_page(prev, link_page(l).unwrap()) {
            prev.push((link_page(l).unwrap(), normalized_page_url(l.0)))
        } else {
            prev
        }
    }
}

/// `sorted` holds entries of `entries` in strictly increasing page order,
/// and every entry it leaves out has a larger page than all it holds.
pub open spec fn is_smallest_pages(
    sorted: Seq<(usize, Seq<char>)>,
    entries: Seq<(usize, Seq<char>)>,
) -> bool {
    &&& forall|i: int, j: int| 0 <= i < j < sorted.len() ==> sorted[i].0 < sorted[j].0
    &&& forall|i: int| 0 <= i < sorted.len() ==> entries.contains(#[trigger] sorted[i])
    &&& forall|e: (usize, Seq<char>)|
        #![trigger entries.contains(e)]
        entries.contains(e) && !sorted.contains(e) ==> forall|i: int|
            0 <= i < sorted.len() ==> (#[trigger] sorted[i]).0 < e.0
}

/// `urls` are the URLs of the at most `desired_pages - 1` lowest-numbered
/// pages the candidate links point to, in page order.
pub open spec fn is_paginated_result(
    urls: Seq<Seq<char>>,
    section: Section,
    links: Seq<(Seq<char>, Option<Seq<char>>)>,
    desired_pages: usize,
) -> bool {
    let entries = page_entries(section, links);
    let keep = if desired_pages >= 1 { desired_pages - 1 } else { 0 };
    exists|sorted: Seq<(usize, Seq<char>)>|
        {
            &&& is_smallest_pages(sorted, entries)
            &&& sorted.len() == (if entries.len() < keep { entries.len() as int } else { keep as int })
            &&& sorted.len() == urls.len()
            &&& forall|k: int| 0 <= k < urls.len() ==> #[trigger] urls[k] == sorted[k].1
        }
}

/// The first position of `x` in `v`.
pub fn position_of(v: &Vec<usize>, x: usize) -> (res: Option<usize>)
    ensures
        match res {
            Some(i) => i < v@.len() && v@[i as int] == x,
            None => forall|a: int| 0 <= a < v@.len() ==> v@[a] != x,
        },
{
    let n: usize = v.len();
    let mut i: usize = 0;
    while i < n
        invariant
            i <= n,
            n == v@.len(),
            forall|a: int| 0 <= a < i ==> v@[a] != x,
        decreases n - i,
    {
        if v[i] == x {
            return Some(i);
        }
        i = i + 1;
    }
    None
}

/// The URLs of the later listing pages these candidate links point to, in
/// page order, at most `desired_pages - 1` of them.
#[verifier::rlimit(40)]
pub fn paginated_urls_from_links(
    section: &Section,
    links: &Vec<PaginationLink>,
    desired_pages: usize,
) -> (res: Vec<String>)
    ensures
        is_paginated_result(str_views(res@), *section, link_views(links@), desired_pages),
{
    let path = trim_start_matches_vec(&chars_of(section.url), &lit(BASE_URL));
    let url = chars_of(section.url);
    let page_marker = lit("page%5D=");
    let search_marker = lit("controller%5D=Search");
    let http = lit("http");
    let base = lit(BASE_URL);
    let mut pages: Vec<usize> = Vec::new();
    let mut urls: Vec<Vec<char>> = Vec::new();
    let ghost mut entries: Seq<(usize, Seq<char>)> = Seq::empty();
    let n: usize = links.len();
    let mut i: usize = 0;
    assert(link_views(links@).take(0) =~= Seq::<(Seq<char>, Option<Seq<char>>)>::empty());
    while i < n
        invariant
            i <= n,
            n == links@.len(),
            path@ == section_path(*section),
            url@ == section.url@,
            page_marker@ == "page%5D="@,
            search_marker@ == "controller%5D=Search"@,
            http@ == "http"@,
            base@ == BASE_URL@,
            entries == page_entries(*section, link_views(links@).take(i as int)),
            pages@.len() == urls@.len(),
            pages@.len() == entries.len(),
            forall|a: int, b: int| 0 <= a < b < pages@.len() ==> pages@[a] < pages@[b],
            forall|a: int|
                0 <= a < pages@.len() ==> entries.contains((pages@[a], (#[trigger] urls@[a])@)),
            forall|e: (usize, Seq<char>)|
                #![trigger entries.contains(e)]
                entries.contains(e) ==> exists|a: int|
                    0 <= a < pages@.len() && pages@[a] == e.0 && (#[trigger] urls@[a])@ == e.1,
        decreases n - i,
    {
        assert(link_views(links@).take(i + 1).drop_last() =~= link_views(links@).take(i as int));
        assert(link_views(links@).take(i + 1).last() == links@[i as int]@);
        let link = &links[i];
        let href = chars_of(link.href.as_str());
        let accepted_text = contains_vec(&href, &page_marker) && contains_vec(&href, &search_marker)
            && (starts_with_vec(&href, &path) || starts_with_vec(&href, &url));
        let page: Option<usize> = match &link.page_digits {
            Some(d) => parse_usize_str(d.as_str()),
            None => None,
        };
        assert(page == link_page(links@[i as int]@));
        if accepted_text && page.is_some() && page.unwrap() > 1 {
            let p: usize = page.unwrap();
            let known = position_of(&pages, p);
            proof {
                if known is Some {
                    let pos = known.unwrap() as int;
                    assert(entries.contains((pages@[pos], urls@[pos]@)));
                    let w = choose|w: int| 0 <= w < entries.len() && entries[w] == (pages@[pos], urls@[pos]@);
                    assert(has_page(entries, p));
                } else {
                    assert(!has_page(entries, p)) by {
                        if has_page(entries, p) {
                            let w = choose|w: int| 0 <= w < entries.len() && (#[trigger] entries[w]).0 == p;
                            assert(entries.contains(entries[w]));
                            let a = choose|a: int|
                                0 <= a < pages@.len() && pages@[a] == entries[w].0 && (#[trigger] urls@[a])@ == entries[w].1;
                            assert(pages@[a] == p);
                        }
                    }
                }
            }
            let found: bool = known.is_some();
            if !found {
                let target = if starts_with_vec(&href, &http) {
                    href.clone()
                } else {
                    let mut t = base.clone();
                    append_chars(&mut t, &href);
                    t
                };
                // insertion point: first position with a larger page
                let mut at: usize = 0;
                while at < pages.len() && pages[at] < p
                    invariant
                        at <= pages@.len(),
                        forall|a: int| 0 <= a < at ==> pages@[a] < p,
                    decreases pages@.len() - at,
                {
                    at = at + 1;
                }
                let ghost old_pages = pages@;
                let ghost old_urls = urls@;
                let ghost old_entries = entries;
                pages.insert(at, p);
                urls.insert(at, target);
                proof {
                    assert forall|b: int| at <= b < old_pages.len() implies old_pages[b] > p by {
                        assert(old_pages[b] != p);
                        if b > at {
                            assert(old_pages[at as int] < old_pages[b]);
                        }
                        assert(old_pages[at as int] >= p);
                    }
                    entries = old_entries.push((p, normalized_page_url(href@)));
                    assert forall|a: int, b: int| 0 <= a < b < pages@.len() implies pages@[a] < pages@[b] by {
                        if b < at {
                        } else if a < at && b == at {
                        } else if a < at && b > at {
                            assert(pages@[b] == old_pages[b - 1]);
                            assert(old_pages[b - 1] != p);
                        } else if a == at {
                            assert(pages@[b] == old_pages[b - 1]);
                            assert(old_pages[b - 1] != p);
                        } else {
                            assert(pages@[a] == old_pages[a - 1]);
                            assert(pages@[b] == old_pages[b - 1]);
                        }
                    }
                    assert forall|a: int| 0 <= a < pages@.len() implies entries.contains((pages@[a], (#[trigger] urls@[a])@)) by {
                        if a < at {
                            assert(old_entries.contains((old_pages[a], old_urls[a]@)));
                            let w = choose|w: int| 0 <= w < old_entries.len() && old_entries[w] == (old_pages[a], old_urls[a]@);
                            assert(entries[w] == old_entries[w]);
                        } else if a == at {
                            assert(entries[old_entries.len() as int] == (p, normalized_page_url(href@)));
                        } else {
                            assert(old_entries.contains((old_pages[a - 1], old_urls[a - 1]@)));
                            let w = choose|w: int| 0 <= w < old_entries.len() && old_entries[w] == (old_pages[a - 1], old_urls[a - 1]@);
                            assert(entries[w] == old_entries[w]);
                        }
                    }
                    assert forall|e: (usize, Seq<char>)| #![trigger entries.contains(e)] entries.contains(e) implies exists|a: int|
                        0 <= a < pages@.len() && pages@[a] == e.0 && (#[trigger] urls@[a])@ == e.1 by {
                        let w = choose|w: int| 0 <= w < entries.len() && entries[w] == e;
                        if w == old_entries.len() {
                            assert(pages@[at as int] == e.0 && urls@[at as int]@ == e.1);
                        } else {
                            assert(old_entries[w] == e);
                            assert(old_entries.contains(e));
                            let a = choose|a: int| 0 <= a < old_pages.len() && old_pages[a] == e.0 && (#[trigger] old_urls[a])@ == e.1;
                            if a < at {
                                assert(pages@[a] == e.0 && urls@[a]@ == e.1);
                            } else {
                                assert(pages@[a + 1] == e.0 && urls@[a + 1]@ == e.1);
                            }
                        }
                    }
                }
            }
        }
        i = i + 1;
    }
    assert(link_views(links@).take(n as int) =~= link_views(links@));
    let keep: usize = if desired_pages >= 1 { desired_pages - 1 } else { 0 };
    let stop: usize = if pages.len() < keep { pages.len() } else { keep };
    let mut res: Vec<String> = Vec::new();
    let mut k: usize = 0;
    while k < stop
        invariant
            k <= stop <= pages@.len(),
            pages@.len() == urls@.len(),
            res@.len() == k,
            forall|j: int| 0 <= j < k ==> (#[trigger] res@[j])@ == urls@[j]@,
        decreases stop - k,
    {
        res.push(string_of(&urls[k]));
        k = k + 1;
    }
    let ghost sorted = Seq::new(stop as nat, |j: int| (pages@[j], urls@[j]@));
    assert(is_smallest_pages(sorted, entries)) by {
        assert forall|i: int| 0 <= i < sorted.len() implies entries.contains(#[trigger] sorted[i]) by {
            assert(entries.contains((pages@[i], urls@[i]@)));
        }
        assert forall|e: (usize, Seq<char>)| #![trigger entries.contains(e)]
            entries.contains(e) && !sorted.contains(e) implies forall|i: int|
                0 <= i < sorted.len() ==> (#[trigger] sorted[i]).0 < e.0 by {
            let a = choose|a: int| 0 <= a < pages@.len() && pages@[a] == e.0 && (#[trigger] urls@[a])@ == e.1;
            if a < stop {
                assert(sorted[a] == e);
            }
            assert forall|i: int| 0 <= i < sorted.len() implies (#[trigger] sorted[i]).0 < e.0 by {
                assert(i < a);
            }
        }
    }
    assert(str_views(res@).len() == res@.len());
    assert forall|k: int| 0 <= k < str_views(res@).len() implies #[trigger] str_views(res@)[k] == sorted[k].1 by {
        assert(str_views(res@)[k] == res@[k]@);
    }
    assert(entries == page_entries(*section, link_views(links@)));
    assert(sorted.len() == (if entries.len() < keep { entries.len() as int } else { keep as int }));
    assert(sorted.len() == str_views(res@).len());
    res
}

/// The `href` of each `a[href]` element of `html` (empty where scraper
/// gives none).
pub open spec fn anchor_hrefs_of(html: Seq<char>) -> Seq<Seq<char>> {
    selected_attr(html, "a[href]"@, "href"@).map_values(
        |o: Option<Seq<char>>|
            match o {
                Some(h) => h,
                None => Seq::<char>::empty(),
            },
    )
}

/// The page number digits in a listing link: group 1 of `page%5D=(\d+)`.
pub open spec fn page_number_capture(href: Seq<char>) -> Option<Seq<char>> {
    first_capture("page%5D=(\\d+)"@, href)
}

/// The candidate pagination links of a listing page: each anchor target with
/// `&amp;` decoded, and the page digits captured in it.
pub open spec fn html_pagination_links(html: Seq<char>) -> Seq<(Seq<char>, Option<Seq<char>>)> {
    anchor_hrefs_of(html).map_values(
        |h: Seq<char>|
            (replace(h, "&amp;"@, "&"@), page_number_capture(replace(h, "&amp;"@, "&"@))),
    )
}

/// The candidate pagination links found in a listing page's HTML.
pub fn pagination_links(html: &str) -> (res: Vec<PaginationLink>)
    ensures
        link_views(res@) == html_pagination_links(html@),
{
    let attrs = select_attr(html, "a[href]", "href");
    let amp = lit("&amp;");
    let plain = lit("&");
    proof {
        reveal_strlit("&amp;");
    }
    let n: usize = attrs.len();
    let mut links: Vec<PaginationLink> = Vec::new();
    let mut i: usize = 0;
    while i < n
        invariant
            i <= n,
            n == attrs@.len(),
            attrs@.map_values(|o: Option<String>| match o {
                Some(s) => Some(s@),
                None => None,
            }) == selected_attr(html@, "a[href]"@, "href"@),
            amp@ == "&amp;"@,
            amp@.len() > 0,
            plain@ == "&"@,
            link_views(links@) =~= html_pagination_links(html@).take(i as int),
        decreases n - i,
    {
        let raw: Vec<char> = match &attrs[i] {
            Some(h) => chars_of(h.as_str()),
            None => Vec::new(),
        };
        assert(raw@ =~= anchor_hrefs_of(html@)[i as int]);
        let href = string_of(&replace_vec(&raw, &amp, &plain));
        let digits = regex_first_capture("page%5D=(\\d+)", href.as_str());
        let link = PaginationLink { href, page_digits: digits };
        links.push(link);
        assert(html_pagination_links(html@).take(i + 1) =~= html_pagination_links(html@).take(i as int).push(link@));
        i = i + 1;
    }
    assert(html_pagination_links(html@).take(n as int) =~= html_pagination_links(html@));
    links
}

/// The URLs of the later listing pages a section page links to, in page
/// order, at most `desired_pages - 1` of them.
pub fn extract_paginated_section_urls(section: &Section, html: &str, desired_pages: usize) -> (res:
    Vec<String>)
    ensures
        is_paginated_result(str_views(res@), *section, html_pagination_links(html@), desired_pages),
{
    let links = pagination_links(html);
    paginated_urls_from_links(section, &links, desired_pages)
}

/// Whether `urls` are the listing pages to read after a section's first
/// page `html`, looking for about `limit` articles: the later pages it links
/// to, in page order, when it links to any; else the pages of the older
/// numbering scheme, from page 2 on.
pub open spec fn is_section_page_list(urls: Seq<Seq<char>>, section: Section, html: Seq<char>, limit: usize) -> bool {
    let desired = spec_desired_section_page_count(limit);
    let found = exists|u: Seq<Seq<char>>| u.len() > 0 && is_paginated_result(u, section, html_pagination_links(html), desired);
    if found {
        urls.len() > 0 && is_paginated_result(urls, section, html_pagination_links(html), desired)
    } else {
        urls.len() == desired - 1 && forall|k: int|
            0 <= k < urls.len() ==> #[trigger] urls[k] == legacy_page_url(section.url@, (k + 2) as nat)
    }
}

/// The listing pages to read after a section's first page: those its HTML
/// links to, or the older numbering scheme when it links to none.
pub fn section_page_urls(section: &Section, first_page_html: &str, limit: usize) -> (res: Vec<String>)
    ensures
        is_section_page_list(str_views(res@), *section, first_page_html@, limit),
{
    let desired = desired_section_page_count(limit);
    let discovered = extract_paginated_section_urls(section, first_page_html, desired);
    if discovered.len() == 0 {
        proof {
            lemma_paginated_result_unique_len(str_views(discovered@), *section, html_pagination_links(first_page_html@), desired);
        }
        legacy_section_page_urls(section, desired)
    } else {
        assert(str_views(discovered@).len() > 0);
        discovered
    }
}

/// All results for the same links have the same length.
pub proof fn lemma_paginated_result_unique_len(
    urls: Seq<Seq<char>>,
    section: Section,
    links: Seq<(Seq<char>, Option<Seq<char>>)>,
    desired_pages: usize,
)
    requires
        is_paginated_result(urls, section, links, desired_pages),
    ensures
        forall|other: Seq<Seq<char>>|
            is_paginated_result(other, section, links, desired_pages) ==> other.len() == urls.len(),
{
}

/// Link `l` is accepted, points to page `p`, and no accepted link before
/// it points to that page.
pub open spec fn first_link_to_page(
    section: Section,
    links: Seq<(Seq<char>, Option<Seq<char>>)>,
    l: int,
    p: usize,
) -> bool {
    &&& 0 <= l < links.len()
    &&& link_accepted(section, links[l])
    &&& link_page(links[l]) == Some(p)
    &&& forall|m: int| 0 <= m < l ==> !(link_accepted(section, #[trigger] links[m]) && link_page(links[m]) == Some(p))
}

/// Each page entry comes from the first accepted link to its page, and
/// every accepted link's page has an entry.
proof fn lemma_page_entries_sources(section: Section, links: Seq<(Seq<char>, Option<Seq<char>>)>)
    ensures
        forall|i: int|
            #![trigger page_entries(section, links)[i]]
            0 <= i < page_entries(section, links).len() ==> exists|l: int|
                #![trigger links[l]]
                first_link_to_page(section, links, l, page_entries(section, links)[i].0)
                    && page_entries(section, links)[i].1 == normalized_page_url(links[l].0),
        forall|l: int|
            0 <= l < links.len() && link_accepted(section, #[trigger] links[l]) ==> has_page(
                page_entries(section, links),
                link_page(links[l]).unwrap(),
            ),
    decreases links.len(),
{
    if links.len() > 0 {
        let prev_links = links.drop_last();
        lemma_page_entries_sources(section, prev_links);
        let prev = page_entries(section, prev_links);
        let entries = page_entries(section, links);
        let n = links.len() - 1;
        let last = links.last();
        assert(forall|m: int| 0 <= m < n ==> prev_links[m] == links[m]);
        assert(forall|i: int| 0 <= i < prev.len() ==> entries[i] == prev[i]);
        assert forall|i: int| #![trigger entries[i]] 0 <= i < entries.len() implies exists|l: int|
            #![trigger links[l]]
            first_link_to_page(section, links, l, entries[i].0) && entries[i].1 == normalized_page_url(
                links[l].0,
            ) by {
            if i < prev.len() {
                let l = choose|l: int|
                    #![trigger prev_links[l]]
                    first_link_to_page(section, prev_links, l, prev[i].0) && prev[i].1 == normalized_page_url(
                        prev_links[l].0,
                    );
                assert(links[l] == prev_links[l]);
                assert(first_link_to_page(section, links, l, entries[i].0));
            } else {
                let p = link_page(last).unwrap();
                assert(links[n] == last);
                assert forall|m: int| 0 <= m < n implies !(link_accepted(section, #[trigger] links[m])
                    && link_page(links[m]) == Some(p)) by {
                    if link_accepted(section, links[m]) && link_page(links[m]) == Some(p) {
                        assert(prev_links[m] == links[m]);
                        assert(has_page(prev, p));
                    }
                }
                assert(first_link_to_page(section, links, n, entries[i].0));
            }
        }
        assert forall|l: int| 0 <= l < links.len() && link_accepted(section, #[trigger] links[l]) implies has_page(
            entries,
            link_page(links[l]).unwrap(),
        ) by {
            let p = link_page(links[l]).unwrap();
            if l < n {
                assert(prev_links[l] == links[l]);
                assert(has_page(prev, p));
                let i = choose|i: int| 0 <= i < prev.len() && (#[trigger] prev[i]).0 == p;
                assert(entries[i] == prev[i]);
            } else {
                assert(links[l] == last);
                if !has_page(prev, p) {
                    assert(entries[entries.len() - 1].0 == p);
                } else {
                    let i = choose|i: int| 0 <= i < prev.len() && (#[trigger] prev[i]).0 == p;
                    assert(entries[i] == prev[i]);
                }
            }
        }
    }
}

/// What `t` occurs in still occurs in it with anything put before.
proof fn lemma_contains_after_prefix(a: Seq<char>, b: Seq<char>, t: Seq<char>)
    requires
        contains(b, t),
    ensures
        contains(a + b, t),
{
    let i = choose|i: int| occurs_at(b, t, i);
    assert((a + b).subrange(i + a.len(), i + a.len() + t.len()) =~= b.subrange(i, i + t.len()));
    assert(occurs_at(a + b, t, i + a.len()));
}

/// A URL of the site: the site's origin followed by a path that starts
/// with `/`; its path is what follows the origin.
proof fn lemma_site_url_path(url: Seq<char>)
    requires
        starts_with(url, BASE_URL@),
        url.len() > BASE_URL@.len(),
        url[BASE_URL@.len() as int] == '/',
        BASE_URL@.len() > 0,
        BASE_URL@[0] == 'h',
    ensures
        trim_start_matches(url, BASE_URL@) == url.skip(BASE_URL@.len() as int),
        url == BASE_URL@ + url.skip(BASE_URL@.len() as int),
{
    let rest = url.skip(BASE_URL@.len() as int);
    assert(rest[0] == '/');
    assert(!starts_with(rest, BASE_URL@)) by {
        if starts_with(rest, BASE_URL@) {
            assert(rest.take(BASE_URL@.len() as int)[0] == rest[0]);
        }
    }
    reveal_with_fuel(trim_start_matches, 2);
    assert(url =~= BASE_URL@ + rest);
}

/// Every section of the site has a URL of the site, beginning with `http`,
/// whose path starts with `/`.
proof fn lemma_site_section(section: Section)
    requires
        section_list().contains(section),
    ensures
        starts_with(section.url@, "http"@),
        section.url@ == BASE_URL@ + section_path(section),
        section_path(section).len() > 0,
        section_path(section)[0] == '/',
{
    reveal_strlit("https://www.soziopolis.de");
    reveal_strlit("http");
    reveal_strlit("https://www.soziopolis.de/index.html");
    reveal_strlit("https://www.soziopolis.de/texte/essay.html");
    reveal_strlit("https://www.soziopolis.de/besprechungen.html");
    reveal_strlit("https://www.soziopolis.de/texte/interview.html");
    reveal_strlit("https://www.soziopolis.de/dossier.html");
    reveal_strlit("https://www.soziopolis.de/soziales-leben.html");
    reveal_strlit("https://www.soziopolis.de/gesellschaftstheorie-anthropologie.html");
    reveal_strlit("https://www.soziopolis.de/politik-zeitgeschichte.html");
    reveal_strlit("https://www.soziopolis.de/wirtschaft-recht.html");
    reveal_strlit("https://www.soziopolis.de/kultur-medien.html");
    reveal_strlit("https://www.soziopolis.de/wissenschaft-technik.html");
    reveal_strlit("https://www.soziopolis.de/zeitschriftenschau.html");
    let u = section.url@;
    let i = choose|i: int| 0 <= i < section_list().len() && section_list()[i] == section;
    assert(BASE_URL@.len() == 25);
    assert(u.len() > 25 && u[25] == '/');
    assert(u.take(25) =~= BASE_URL@);
    assert(u.take(4) =~= "http"@);
    lemma_site_url_path(u);
}

/// A link target accepted for a site section, made absolute, begins with
/// the section's URL.
proof fn lemma_page_url_in_section(section: Section, href: Seq<char>)
    requires
        section_list().contains(section),
        starts_with(href, section_path(section)) || starts_with(href, section.url@),
    ensures
        starts_with(normalized_page_url(href), section.url@),
{
    lemma_site_section(section);
    reveal_strlit("http");
    let u = section.url@;
    let p = section_path(section);
    if starts_with(href, u) {
        assert(href.take(4) =~= u.take(4));
    } else {
        assert(href[0] == href.take(p.len() as int)[0]);
        assert(!starts_with(href, "http"@)) by {
            if starts_with(href, "http"@) {
                assert(href.take(4)[0] == href[0]);
            }
        }
        let n = BASE_URL@ + href;
        assert(n.take(u.len() as int) =~= BASE_URL@ + href.take(p.len() as int));
    }
}

/// The later listing pages found on a section page: at most
/// `desired_pages - 1` of them, in strictly increasing page order, each
/// page past the first and each URL the search listing's (and, for a
/// section of the site, beginning with the section's URL), taken from the
/// first link on the page that leads to that page number.
pub proof fn law_paginated_pages(
    urls: Seq<Seq<char>>,
    section: Section,
    links: Seq<(Seq<char>, Option<Seq<char>>)>,
    desired_pages: usize,
)
    requires
        is_paginated_result(urls, section, links, desired_pages),
    ensures
        urls.len() <= (if desired_pages >= 1 { desired_pages - 1 } else { 0 }),
        exists|pages: Seq<usize>|
            {
                &&& pages.len() == urls.len()
                &&& forall|i: int, j: int| 0 <= i < j < pages.len() ==> pages[i] < pages[j]
                &&& forall|k: int|
                    0 <= k < urls.len() ==> {
                        &&& (#[trigger] pages[k]) > 1
                        &&& contains(urls[k], "controller%5D=Search"@)
                        &&& section_list().contains(section) ==> starts_with(urls[k], section.url@)
                        &&& exists|l: int|
                            #![trigger links[l]]
                            first_link_to_page(section, links, l, pages[k]) && urls[k] == normalized_page_url(
                                links[l].0,
                            )
                    }
            },
{
    let entries = page_entries(section, links);
    let keep = if desired_pages >= 1 { desired_pages - 1 } else { 0 };
    let sorted = choose|sorted: Seq<(usize, Seq<char>)>|
        {
            &&& is_smallest_pages(sorted, entries)
            &&& sorted.len() == (if entries.len() < keep { entries.len() as int } else { keep as int })
            &&& sorted.len() == urls.len()
            &&& forall|k: int| 0 <= k < urls.len() ==> #[trigger] urls[k] == sorted[k].1
        };
    lemma_page_entries_sources(section, links);
    let pages = sorted.map_values(|e: (usize, Seq<char>)| e.0);
    assert forall|k: int| 0 <= k < urls.len() implies {
        &&& (#[trigger] pages[k]) > 1
        &&& contains(urls[k], "controller%5D=Search"@)
        &&& section_list().contains(section) ==> starts_with(urls[k], section.url@)
        &&& exists|l: int|
            #![trigger links[l]]
            first_link_to_page(section, links, l, pages[k]) && urls[k] == normalized_page_url(links[l].0)
    } by {
        assert(entries.contains(sorted[k]));
        let i = choose|i: int| 0 <= i < entries.len() && entries[i] == sorted[k];
        let l = choose|l: int|
            #![trigger links[l]]
            first_link_to_page(section, links, l, entries[i].0) && entries[i].1 == normalized_page_url(links[l].0);
        assert(urls[k] == sorted[k].1);
        let href = links[l].0;
        if !starts_with(href, "http"@) {
            lemma_contains_after_prefix(BASE_URL@, href, "controller%5D=Search"@);
        }
        if section_list().contains(section) {
            lemma_page_url_in_section(section, href);
        }
    }
    assert(forall|i: int, j: int| 0 <= i < j < pages.len() ==> pages[i] < pages[j]);
    assert({
        &&& pages.len() == urls.len()
        &&& forall|i: int, j: int| 0 <= i < j < pages.len() ==> pages[i] < pages[j]
        &&& forall|k: int|
            0 <= k < urls.len() ==> {
                &&& (#[trigger] pages[k]) > 1
                &&& contains(urls[k], "controller%5D=Search"@)
                &&& section_list().contains(section) ==> starts_with(urls[k], section.url@)
                &&& exists|l: int|
                    #![trigger links[l]]
                    first_link_to_page(section, links, l, pages[k]) && urls[k] == normalized_page_url(links[l].0)
            }
    });
}

} // verus!
