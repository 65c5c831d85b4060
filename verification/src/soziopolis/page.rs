//! Reading Soziopolis pages: the queries the scraper and regex crates answer
//! about a page's HTML, and the article extraction built on them.
use vstd::prelude::*;
use scraper::{ElementRef, Html, Selector};
use crate::soziopolis::article::{
    build_clean_text, dedupe_by_key, dedupe_lines, should_skip_block, spec_build_clean_text,
    spec_should_skip_block,
};
use crate::soziopolis::dates::{normalize_article_date, spec_normalize_article_date};
use crate::soziopolis::listing::{
    infer_section_from_url, source_label, spec_infer_section_from_url, spec_source_label,
};
use crate::soziopolis::types::{Article, ArticleMetadata};
use crate::text::{
    append_chars, byte_len, chars_of, clean_ws, clean_ws_vec, contains, decimal, is_ws, join, join_vec,
    lemma_join_contains, lit,
    replace, replace_vec, split, split_vec, str_byte_len, str_views, string_of, trim, trim_vec,
    views,
};

verus! {

// ───────────────────────────── what the crates answer ─────────────────────────────

/// The views of nested vectors of strings.
pub open spec fn nested_views(v: Seq<Vec<String>>) -> Seq<Seq<Seq<char>>> {
    v.map_values(|x: Vec<String>| str_views(x@))
}

/// What scraper gives for `html` parsed as a document and `selector` run on
/// it: the text nodes of each matching element, in document order; nothing
/// when the selector does not parse.
pub uninterp spec fn selected_text_nodes(html: Seq<char>, selector: Seq<char>) -> Seq<Seq<Seq<char>>>;

/// The text nodes of each element of `html` that `selector` matches.
#[verifier::external_body]
pub(crate) fn select_text_nodes(html: &str, selector: &str) -> (res: Vec<Vec<String>>)
    ensures
        nested_views(res@) == selected_text_nodes(html@, selector@),
{
    let Ok(selector) = scraper::Selector::parse(selector) else { return Vec::new() };
    let mut out = Vec::new();
    for element in scraper::Html::parse_document(html).select(&selector) {
        out.push(element.text().map(str::to_owned).collect());
    }
    out
}

/// What scraper gives for the attribute `attr` of each element of `html`
/// that `selector` matches, in document order; nothing when the selector
/// does not parse.
pub uninterp spec fn selected_attr(html: Seq<char>, selector: Seq<char>, attr: Seq<char>) -> Seq<Option<Seq<char>>>;

/// The attribute `attr` of each element of `html` that `selector` matches.
#[verifier::external_body]
pub(crate) fn select_attr(html: &str, selector: &str, attr: &str) -> (res: Vec<Option<String>>)
    ensures
        res@.map_values(|o: Option<String>| match o {
            Some(s) => Some(s@),
            None => None,
        }) == selected_attr(html@, selector@, attr@),
{
    let Ok(selector) = scraper::Selector::parse(selector) else { return Vec::new() };
    let mut out = Vec::new();
    for element in scraper::Html::parse_document(html).select(&selector) {
        out.push(element.value().attr(attr).map(str::to_owned));
    }
    out
}

/// What scraper gives for the elements matching `inner` inside each element
/// of `html` matching `outer`: their element names (`names`) and text nodes
/// (`texts`), in document order.
pub uninterp spec fn nested_selection(html: Seq<char>, outer: Seq<char>, inner: Seq<char>) -> Seq<Seq<(Seq<char>, Seq<Seq<char>>)>>;

/// The view of a nested selection.
pub open spec fn nested_selection_view(v: Seq<Vec<(String, Vec<String>)>>) -> Seq<Seq<(Seq<char>, Seq<Seq<char>>)>> {
    v.map_values(|x: Vec<(String, Vec<String>)>| x@.map_values(|p: (String, Vec<String>)| (p.0@, str_views(p.1@))))
}

/// For each element of `html` matching `outer`, the name and text nodes of
/// each element inside it matching `inner`.
#[verifier::external_body]
pub(crate) fn select_nested(html: &str, outer: &str, inner: &str) -> (res: Vec<Vec<(String, Vec<String>)>>)
    ensures
        nested_selection_view(res@) == nested_selection(html@, outer@, inner@),
{
    let (Ok(outer), Ok(inner)) = (scraper::Selector::parse(outer), scraper::Selector::parse(inner)) else { return Vec::new() };
    let mut out = Vec::new();
    for element in scraper::Html::parse_document(html).select(&outer) {
        out.push(element.select(&inner).map(|n| (n.value().name().to_owned(), n.text().map(str::to_owned).collect())).collect());
    }
    out
}

/// What scraper gives for each element of `html` matching `selector`: for
/// each of its element ancestors (the parent first, up to the root element),
/// for each of `inners`, the text nodes of each element inside that ancestor
/// matching it; nothing when a selector does not parse.
pub uninterp spec fn ancestor_selections(
    html: Seq<char>,
    selector: Seq<char>,
    inners: Seq<Seq<char>>,
) -> Seq<Seq<Seq<Seq<Seq<Seq<char>>>>>>;

/// The view of the texts found around one element.
pub open spec fn around_view(c: Seq<Vec<Vec<Vec<String>>>>) -> Seq<Seq<Seq<Seq<Seq<char>>>>> {
    c.map_values(|a: Vec<Vec<Vec<String>>>| a@.map_values(|s: Vec<Vec<String>>| nested_views(s@)))
}

/// The view of the texts found around each element.
pub open spec fn arounds_view(v: Seq<Vec<Vec<Vec<Vec<String>>>>>) -> Seq<Seq<Seq<Seq<Seq<Seq<char>>>>>> {
    v.map_values(|e: Vec<Vec<Vec<Vec<String>>>>| around_view(e@))
}

/// For each element of `html` matching `selector`, for each of its element
/// ancestors, for each of `inners`: the text nodes of each element inside
/// the ancestor that it matches.
#[verifier::external_body]
pub(crate) fn select_around(html: &str, selector: &str, inners: &Vec<&str>) -> (res: Vec<Vec<Vec<Vec<Vec<String>>>>>)
    ensures
        arounds_view(res@) == ancestor_selections(html@, selector@, selector_views(inners@)),
{
    let (Ok(selector), Ok(inners)) = (Selector::parse(selector), inners.iter().map(|s| Selector::parse(s)).collect::<Result<Vec<_>, _>>()) else { return Vec::new() };
    let texts = |a: ElementRef, s| a.select(s).map(|n| n.text().map(str::to_owned).collect()).collect();
    let around = |e: ElementRef| e.ancestors().filter_map(ElementRef::wrap).map(|a| inners.iter().map(|s| texts(a, s)).collect()).collect();
    Html::parse_document(html).select(&selector).map(around).collect()
}

/// Whether scraper parses `selector`.
pub uninterp spec fn valid_selector(selector: Seq<char>) -> bool;

/// Whether scraper accepts `selector`.
#[verifier::external_body]
pub(crate) fn selector_parses(selector: &str) -> (res: bool)
    ensures
        res == valid_selector(selector@),
{
    scraper::Selector::parse(selector).is_ok()
}

/// What the regex crate captures as group 1 in the leftmost match of
/// `pattern` on `text`; `None` when it does not match (or the pattern does
/// not compile).
pub uninterp spec fn first_capture(pattern: Seq<char>, text: Seq<char>) -> Option<Seq<char>>;

/// Group 1 of the first match of `pattern` on `text`.
#[verifier::external_body]
pub(crate) fn regex_first_capture(pattern: &str, text: &str) -> (res: Option<String>)
    ensures
        match res {
            Some(c) => first_capture(pattern@, text@) == Some(c@),
            None => first_capture(pattern@, text@) is None,
        },
{
    let re = regex::Regex::new(pattern).ok()?;
    re.captures(text).and_then(|captures| captures.get(1)).map(|m| m.as_str().to_owned())
}

/// What the regex crate gives for `text` with every match of `pattern`
/// replaced by `replacement` (`text` as it is when the pattern does not
/// compile).
pub uninterp spec fn replaced_all(pattern: Seq<char>, text: Seq<char>, replacement: Seq<char>) -> Seq<char>;

/// `text` with every match of `pattern` replaced by `replacement`.
#[verifier::external_body]
pub(crate) fn regex_replace_all(pattern: &str, text: &str, replacement: &str) -> (res: String)
    ensures
        res@ == replaced_all(pattern@, text@, replacement@),
{
    match regex::Regex::new(pattern) {
        Ok(re) => re.replace_all(text, replacement).into_owned(),
        Err(_) => text.to_owned(),
    }
}

/// Whether the regex crate finds a match of `pattern` in `text` (`false`
/// when the pattern does not compile).
pub uninterp spec fn regex_matches(pattern: Seq<char>, text: Seq<char>) -> bool;

/// Whether `pattern` matches somewhere in `text`.
#[verifier::external_body]
pub(crate) fn regex_is_match(pattern: &str, text: &str) -> (res: bool)
    ensures
        res == regex_matches(pattern@, text@),
{
    match regex::Regex::new(pattern) {
        Ok(re) => re.is_match(text),
        Err(_) => false,
    }
}

// ───────────────────────────── element text ─────────────────────────────

/// An element's text: its text nodes joined by spaces, whitespace collapsed.
pub open spec fn element_text(nodes: Seq<Seq<char>>) -> Seq<char> {
    clean_ws(join(nodes, " "@))
}

/// The text of an element from its text nodes.
pub fn element_text_of(nodes: &Vec<String>) -> (res: Vec<char>)
    ensures
        res@ == element_text(str_views(nodes@)),
{
    let mut parts: Vec<Vec<char>> = Vec::new();
    let mut i: usize = 0;
    while i < nodes.len()
        invariant
            i <= nodes@.len(),
            views(parts@) =~= str_views(nodes@).take(i as int),
        decreases nodes@.len() - i,
    {
        let ghost before = parts@;
        parts.push(chars_of(nodes[i].as_str()));
        assert(views(parts@) =~= views(before).push(nodes@[i as int]@));
        assert(str_views(nodes@).take(i + 1) =~= str_views(nodes@).take(i as int).push(nodes@[i as int]@));
        i = i + 1;
    }
    assert(str_views(nodes@).take(nodes@.len() as int) =~= str_views(nodes@));
    clean_ws_vec(&join_vec(&parts, &lit(" ")))
}


/// The number of words of `s` (`s.split_whitespace().count()`): the
/// non-whitespace characters that follow whitespace or the start.
pub open spec fn word_count(s: Seq<char>) -> nat
    decreases s.len(),
{
    if s.len() == 0 {
        0
    } else {
        word_count(s.drop_last()) + (if !is_ws(s.last()) && (s.len() == 1 || is_ws(s[s.len() - 2])) {
            1nat
        } else {
            0nat
        })
    }
}

/// The number of words in `s`.
pub fn count_words(s: &Vec<char>) -> (res: usize)
    ensures
        res == word_count(s@),
{
    let mut n: usize = 0;
    let mut i: usize = 0;
    while i < s.len()
        invariant
            i <= s@.len(),
            n == word_count(s@.take(i as int)),
            n <= i,
        decreases s@.len() - i,
    {
        assert(s@.take(i + 1).drop_last() =~= s@.take(i as int));
        if !crate::text::is_whitespace_char(s[i]) && (i == 0 || crate::text::is_whitespace_char(s[i - 1])) {
            n = n + 1;
        }
        i = i + 1;
    }
    assert(s@.take(s@.len() as int) =~= s@);
    n
}

// ───────────────────────────── article pages ─────────────────────────────

/// What an element contributes to `first_text`: its `content` attribute
/// (whitespace collapsed) when it has one, else its text when not empty.
pub open spec fn element_value(content: Option<Seq<char>>, nodes: Seq<Seq<char>>) -> Option<Seq<char>> {
    match content {
        Some(c) => Some(clean_ws(c)),
        None => if element_text(nodes).len() > 0 {
            Some(element_text(nodes))
        } else {
            None
        },
    }
}

/// The value of the first element, from the `k`-th on, that contributes one.
pub open spec fn first_value(contents: Seq<Option<Seq<char>>>, texts: Seq<Seq<Seq<char>>>, k: int) -> Option<Seq<char>>
    decreases texts.len() - k,
{
    if k < 0 || k >= texts.len() {
        None
    } else {
        match element_value(if k < contents.len() { contents[k] } else { None }, texts[k]) {
            Some(v) => Some(v),
            None => first_value(contents, texts, k + 1),
        }
    }
}

/// The first non-empty value any of `selectors` yields, tried in order (the
/// first element matched that has a value decides each selector); `None`
/// as soon as a selector does not parse.
pub open spec fn spec_first_text(html: Seq<char>, selectors: Seq<Seq<char>>) -> Option<Seq<char>>
    decreases selectors.len(),
{
    if selectors.len() == 0 {
        None
    } else if !valid_selector(selectors[0]) {
        None
    } else {
        let s = selectors[0];
        match first_value(selected_attr(html, s, "content"@), selected_text_nodes(html, s), 0) {
            Some(v) => if v.len() > 0 {
                Some(v)
            } else {
                spec_first_text(html, selectors.drop_first())
            },
            None => spec_first_text(html, selectors.drop_first()),
        }
    }
}

/// The views of a list of selectors.
pub open spec fn selector_views(selectors: Seq<&str>) -> Seq<Seq<char>> {
    selectors.map_values(|s: &str| s@)
}

fn first_value_exec(contents: &Vec<Option<String>>, texts: &Vec<Vec<String>>) -> (res: Option<Vec<char>>)
    ensures
        match res {
            Some(v) => first_value(
                contents@.map_values(|o: Option<String>| match o {
                    Some(s) => Some(s@),
                    None => None,
                }),
                nested_views(texts@),
                0,
            ) == Some(v@),
            None => first_value(
                contents@.map_values(|o: Option<String>| match o {
                    Some(s) => Some(s@),
                    None => None,
                }),
                nested_views(texts@),
                0,
            ) is None,
        },
{
    let ghost cv = contents@.map_values(|o: Option<String>| match o {
        Some(s) => Some(s@),
        None => None,
    });
    let ghost tv = nested_views(texts@);
    let mut k: usize = 0;
    while k < texts.len()
        invariant
            k <= texts@.len(),
            cv == contents@.map_values(|o: Option<String>| match o {
                Some(s) => Some(s@),
                None => None,
            }),
            tv == nested_views(texts@),
            first_value(cv, tv, 0) == first_value(cv, tv, k as int),
        decreases texts@.len() - k,
    {
        let content: Option<Vec<char>> = if k < contents.len() {
            match &contents[k] {
                Some(c) => Some(chars_of(c.as_str())),
                None => None,
            }
        } else {
            None
        };
        assert(tv[k as int] == str_views(texts@[k as int]@));
        match content {
            Some(c) => {
                return Some(clean_ws_vec(&c));
            },
            None => {
                let t = element_text_of(&texts[k]);
                if t.len() > 0 {
                    return Some(t);
                }
            },
        }
        k = k + 1;
    }
    None
}

/// The first non-empty value the selectors yield, tried in order.
pub fn first_text(html: &str, selectors: &Vec<&str>) -> (res: Option<String>)
    ensures
        match res {
            Some(v) => spec_first_text(html@, selector_views(selectors@)) == Some(v@),
            None => spec_first_text(html@, selector_views(selectors@)) is None,
        },
{
    let ghost all = selector_views(selectors@);
    let mut i: usize = 0;
    assert(all.skip(0) =~= all);
    while i < selectors.len()
        invariant
            i <= selectors@.len(),
            all == selector_views(selectors@),
            spec_first_text(html@, all) == spec_first_text(html@, all.skip(i as int)),
        decreases selectors@.len() - i,
    {
        let sel: &str = selectors[i];
        assert(all.skip(i as int)[0] == sel@);
        assert(all.skip(i as int).drop_first() =~= all.skip(i + 1));
        if !selector_parses(sel) {
            return None;
        }
        let contents = select_attr(html, sel, "content");
        let texts = select_text_nodes(html, sel);
        match first_value_exec(&contents, &texts) {
            Some(v) => {
                if v.len() > 0 {
                    return Some(string_of(&v));
                }
            },
            None => {},
        }
        i = i + 1;
    }
    None
}

/// The texts of the elements, whitespace collapsed, the empty ones dropped.
pub open spec fn non_empty_texts(texts: Seq<Seq<Seq<char>>>) -> Seq<Seq<char>>
    decreases texts.len(),
{
    if texts.len() == 0 {
        Seq::<Seq<char>>::empty()
    } else {
        let rest = non_empty_texts(texts.drop_last());
        let t = element_text(texts.last());
        if t.len() > 0 {
            rest.push(t)
        } else {
            rest
        }
    }
}

/// The texts of the elements, whitespace collapsed, the empty ones and
/// repeats dropped.
pub open spec fn distinct_texts(texts: Seq<Seq<Seq<char>>>) -> Seq<Seq<char>>
    decreases texts.len(),
{
    if texts.len() == 0 {
        Seq::<Seq<char>>::empty()
    } else {
        let rest = distinct_texts(texts.drop_last());
        let t = element_text(texts.last());
        if t.len() > 0 && !rest.contains(t) {
            rest.push(t)
        } else {
            rest
        }
    }
}

/// The non-empty texts of the elements (with `distinct`, first occurrences
/// only).
pub fn element_texts(texts: &Vec<Vec<String>>, distinct: bool) -> (res: Vec<Vec<char>>)
    ensures
        views(res@) == (if distinct {
            distinct_texts(nested_views(texts@))
        } else {
            non_empty_texts(nested_views(texts@))
        }),
{
    let ghost tv = nested_views(texts@);
    let mut out: Vec<Vec<char>> = Vec::new();
    let mut i: usize = 0;
    while i < texts.len()
        invariant
            i <= texts@.len(),
            tv == nested_views(texts@),
            views(out@) == (if distinct {
                distinct_texts(tv.take(i as int))
            } else {
                non_empty_texts(tv.take(i as int))
            }),
        decreases texts@.len() - i,
    {
        assert(tv.take(i + 1).drop_last() =~= tv.take(i as int));
        assert(tv.take(i + 1).last() == str_views(texts@[i as int]@));
        let t = element_text_of(&texts[i]);
        let keep: bool = t.len() > 0 && (!distinct || !crate::text::equals_any(&t, &out));
        proof {
            if distinct && t@.len() > 0 {
                assert(views(out@).contains(t@) == (exists|k: int| 0 <= k < out@.len() && t@ == (#[trigger] out@[k])@)) by {
                    if views(out@).contains(t@) {
                        let k = choose|k: int| 0 <= k < views(out@).len() && views(out@)[k] == t@;
                        assert(out@[k]@ == t@);
                    }
                    if exists|k: int| 0 <= k < out@.len() && t@ == (#[trigger] out@[k])@ {
                        let k = choose|k: int| 0 <= k < out@.len() && t@ == (#[trigger] out@[k])@;
                        assert(views(out@)[k] == t@);
                    }
                }
            }
        }
        if keep {
            let ghost before = out@;
            out.push(t);
            assert(views(out@) =~= views(before).push(t@));
        }
        i = i + 1;
    }
    assert(tv.take(texts@.len() as int) =~= tv);
    out
}

/// The authors named on an article page: those in the overline, else those
/// in the overline or header without repeats, joined by commas.
pub open spec fn spec_collect_authors(html: Seq<char>) -> Seq<char> {
    let primary = non_empty_texts(selected_text_nodes(html, "p.article-overline .author-name"@));
    if primary.len() > 0 {
        join(primary, ", "@)
    } else {
        join(
            distinct_texts(selected_text_nodes(html, ".article-overline .author-name, .article-header .author-name"@)),
            ", "@,
        )
    }
}

/// The authors of an article page.
pub fn collect_authors(html: &str) -> (res: String)
    ensures
        res@ == spec_collect_authors(html@),
{
    let primary = element_texts(&select_text_nodes(html, "p.article-overline .author-name"), false);
    if primary.len() > 0 {
        return string_of(&join_vec(&primary, &lit(", ")));
    }
    let fallback = element_texts(
        &select_text_nodes(html, ".article-overline .author-name, .article-header .author-name"),
        true,
    );
    string_of(&join_vec(&fallback, &lit(", ")))
}


/// The first non-empty comma-separated part of `s`, trimmed.
pub open spec fn first_part(parts: Seq<Seq<char>>) -> Option<Seq<char>>
    decreases parts.len(),
{
    if parts.len() == 0 {
        None
    } else if trim(parts[0]).len() > 0 {
        Some(trim(parts[0]))
    } else {
        first_part(parts.drop_first())
    }
}

/// The section named by the keywords: for each keywords element in order,
/// the first non-empty keyword of its `content`; `None` as soon as one has
/// no `content`, or when none names a keyword.
pub open spec fn keyword_section(contents: Seq<Option<Seq<char>>>) -> Option<Seq<char>>
    decreases contents.len(),
{
    if contents.len() == 0 {
        None
    } else {
        match contents[0] {
            None => None,
            Some(c) => match first_part(split(clean_ws(c), ","@)) {
                Some(k) => Some(k),
                None => keyword_section(contents.drop_first()),
            },
        }
    }
}

/// The section an article page names: its article type, else its first
/// category link, else its first keyword.
pub open spec fn spec_extract_section(html: Seq<char>) -> Option<Seq<char>> {
    match spec_first_text(html, seq![".article-type"@]) {
        Some(t) if clean_ws(t).len() > 0 => Some(clean_ws(t)),
        _ => if !valid_selector("p.article-categories a"@) {
            None
        } else if non_empty_texts(selected_text_nodes(html, "p.article-categories a"@)).len() > 0 {
            Some(non_empty_texts(selected_text_nodes(html, "p.article-categories a"@))[0])
        } else if !valid_selector("meta[name=\"keywords\"]"@) {
            None
        } else {
            keyword_section(selected_attr(html, "meta[name=\"keywords\"]"@, "content"@))
        },
    }
}

fn first_part_of(parts: &Vec<Vec<char>>) -> (res: Option<Vec<char>>)
    ensures
        match res {
            Some(k) => first_part(views(parts@)) == Some(k@),
            None => first_part(views(parts@)) is None,
        },
{
    let mut i: usize = 0;
    assert(views(parts@).skip(0) =~= views(parts@));
    while i < parts.len()
        invariant
            i <= parts@.len(),
            first_part(views(parts@)) == first_part(views(parts@).skip(i as int)),
        decreases parts@.len() - i,
    {
        assert(views(parts@).skip(i as int)[0] == parts@[i as int]@);
        assert(views(parts@).skip(i as int).drop_first() =~= views(parts@).skip(i + 1));
        let t = trim_vec(&parts[i]);
        if t.len() > 0 {
            return Some(t);
        }
        i = i + 1;
    }
    None
}

/// The section an article page names, if any.
pub fn extract_section(html: &str) -> (res: Option<String>)
    ensures
        match res {
            Some(v) => spec_extract_section(html@) == Some(v@),
            None => spec_extract_section(html@) is None,
        },
{
    let mut sels: Vec<&str> = Vec::new();
    sels.push(".article-type");
    assert(selector_views(sels@) =~= seq![".article-type"@]);
    if let Some(t) = first_text(html, &sels) {
        let normalized = clean_ws_vec(&chars_of(t.as_str()));
        if normalized.len() > 0 {
            return Some(string_of(&normalized));
        }
    }
    if !selector_parses("p.article-categories a") {
        return None;
    }
    let categories = element_texts(&select_text_nodes(html, "p.article-categories a"), false);
    if categories.len() > 0 {
        return Some(string_of(&categories[0]));
    }
    if !selector_parses("meta[name=\"keywords\"]") {
        return None;
    }
    let contents = select_attr(html, "meta[name=\"keywords\"]", "content");
    let ghost cv = contents@.map_values(|o: Option<String>| match o {
        Some(s) => Some(s@),
        None => None,
    });
    let mut i: usize = 0;
    assert(cv.skip(0) =~= cv);
    assert(spec_extract_section(html@) == keyword_section(cv));
    while i < contents.len()
        invariant
            i <= contents@.len(),
            cv == contents@.map_values(|o: Option<String>| match o {
                Some(s) => Some(s@),
                None => None,
            }),
            spec_extract_section(html@) == keyword_section(cv),
            keyword_section(cv) == keyword_section(cv.skip(i as int)),
        decreases contents@.len() - i,
    {
        assert(cv.skip(i as int).drop_first() =~= cv.skip(i + 1));
        assert(cv.skip(i as int)[0] == cv[i as int]);
        match &contents[i] {
            None => {
                return None;
            },
            Some(c) => {
                let parts = split_vec(&clean_ws_vec(&chars_of(c.as_str())), &lit(","));
                if let Some(k) = first_part_of(&parts) {
                    return Some(string_of(&k));
                }
            },
        }
        i = i + 1;
    }
    None
}

/// The pattern of the date element in an article page's raw HTML.
pub open spec fn date_pattern() -> Seq<char> {
    "article-date\\\">\\s*([^<]+)\\s*<"@
}

/// The date written in an article page's raw HTML, whitespace collapsed.
pub open spec fn spec_extract_date_from_html(html: Seq<char>) -> Option<Seq<char>> {
    match first_capture(date_pattern(), html) {
        Some(c) => Some(clean_ws(c)),
        None => None,
    }
}

/// The date found in an article page's raw HTML.
pub fn extract_date_from_html(html: &str) -> (res: Option<String>)
    ensures
        match res {
            Some(d) => spec_extract_date_from_html(html@) == Some(d@),
            None => spec_extract_date_from_html(html@) is None,
        },
{
    match regex_first_capture("article-date\\\">\\s*([^<]+)\\s*<", html) {
        Some(c) => Some(string_of(&clean_ws_vec(&chars_of(c.as_str())))),
        None => None,
    }
}

/// A block's text with footnote marks such as `[12]` made spaces and the
/// whitespace collapsed.
pub open spec fn spec_normalize_inline_markers(text: Seq<char>) -> Seq<char> {
    clean_ws(replaced_all("\\[\\d+\\]"@, text, " "@))
}

/// A block's text without footnote marks.
pub fn normalize_inline_markers(text: &str) -> (res: String)
    ensures
        res@ == spec_normalize_inline_markers(text@),
{
    let replaced = regex_replace_all("\\[\\d+\\]", text, " ");
    string_of(&clean_ws_vec(&chars_of(replaced.as_str())))
}

/// What a content element of an article contributes to the body: headings
/// (4 bytes or more) marked `## `, list items (16 or more) marked `- `,
/// quotes (30 or more) and paragraphs (35 or more) as they are; nothing for
/// furniture or anything shorter.
pub open spec fn body_block(name: Seq<char>, nodes: Seq<Seq<char>>) -> Option<Seq<char>> {
    let text = spec_normalize_inline_markers(element_text(nodes));
    if spec_should_skip_block(text) {
        None
    } else if (name == "h2"@ || name == "h3"@) && byte_len(text) >= 4 {
        Some("## "@ + text)
    } else if name == "li"@ && byte_len(text) >= 16 {
        Some("- "@ + text)
    } else if name == "blockquote"@ && byte_len(text) >= 30 {
        Some(text)
    } else if name == "p"@ && byte_len(text) >= 35 {
        Some(text)
    } else {
        None
    }
}

/// The body blocks of one content element, in order.
pub open spec fn body_blocks(elements: Seq<(Seq<char>, Seq<Seq<char>>)>) -> Seq<Seq<char>>
    decreases elements.len(),
{
    if elements.len() == 0 {
        Seq::<Seq<char>>::empty()
    } else {
        let rest = body_blocks(elements.drop_last());
        match body_block(elements.last().0, elements.last().1) {
            Some(b) => rest.push(b),
            None => rest,
        }
    }
}

/// The blocks of the content area with the most blocks (the first of them
/// on a tie), among the first `n`.
pub open spec fn best_blocks(areas: Seq<Seq<(Seq<char>, Seq<Seq<char>>)>>) -> Seq<Seq<char>>
    decreases areas.len(),
{
    if areas.len() == 0 {
        Seq::<Seq<char>>::empty()
    } else {
        let best = best_blocks(areas.drop_last());
        let blocks = body_blocks(areas.last());
        if blocks.len() > best.len() {
            blocks
        } else {
            best
        }
    }
}

/// An article's body text: the blocks of its richest content area without
/// repeats, joined by blank lines; an error when there are none.
pub open spec fn spec_extract_body(html: Seq<char>) -> Result<Seq<char>, Seq<char>> {
    let blocks = dedupe_by_key(
        best_blocks(nested_selection(html, ".article-content"@, "p, h2, h3, li, blockquote"@)),
    );
    if blocks.len() == 0 {
        Err("could not extract article body"@)
    } else {
        Ok(join(blocks, "\n\n"@))
    }
}

fn body_block_of(name: &String, nodes: &Vec<String>) -> (res: Option<Vec<char>>)
    ensures
        match res {
            Some(b) => body_block(name@, str_views(nodes@)) == Some(b@),
            None => body_block(name@, str_views(nodes@)) is None,
        },
{
    let text_chars = element_text_of(nodes);
    let text = normalize_inline_markers(string_of(&text_chars).as_str());
    if should_skip_block(text.as_str()) {
        return None;
    }
    let len: usize = str_byte_len(text.as_str());
    let n = chars_of(name.as_str());
    let is_heading = crate::text::chars_eq(&n, &lit("h2")) || crate::text::chars_eq(&n, &lit("h3"));
    if is_heading && len >= 4 {
        let mut out = lit("## ");
        append_chars(&mut out, &chars_of(text.as_str()));
        Some(out)
    } else if crate::text::chars_eq(&n, &lit("li")) && len >= 16 {
        let mut out = lit("- ");
        append_chars(&mut out, &chars_of(text.as_str()));
        Some(out)
    } else if crate::text::chars_eq(&n, &lit("blockquote")) && len >= 30 {
        Some(chars_of(text.as_str()))
    } else if crate::text::chars_eq(&n, &lit("p")) && len >= 35 {
        Some(chars_of(text.as_str()))
    } else {
        None
    }
}

/// The body text of an article page.
pub fn extract_body(html: &str) -> (res: Result<String, String>)
    ensures
        match res {
            Ok(b) => spec_extract_body(html@) == Ok::<Seq<char>, Seq<char>>(b@),
            Err(e) => spec_extract_body(html@) == Err::<Seq<char>, Seq<char>>(e@),
        },
{
    let areas = select_nested(html, ".article-content", "p, h2, h3, li, blockquote");
    let ghost av = nested_selection_view(areas@);
    let mut best: Vec<Vec<char>> = Vec::new();
    let mut a: usize = 0;
    while a < areas.len()
        invariant
            a <= areas@.len(),
            av == nested_selection_view(areas@),
            views(best@) == best_blocks(av.take(a as int)),
        decreases areas@.len() - a,
    {
        assert(av.take(a + 1).drop_last() =~= av.take(a as int));
        let area = &areas[a];
        let ghost ev = av[a as int];
        assert(ev == area@.map_values(|p: (String, Vec<String>)| (p.0@, str_views(p.1@))));
        let mut blocks: Vec<Vec<char>> = Vec::new();
        let mut k: usize = 0;
        while k < area.len()
            invariant
                k <= area@.len(),
                ev == area@.map_values(|p: (String, Vec<String>)| (p.0@, str_views(p.1@))),
                views(blocks@) == body_blocks(ev.take(k as int)),
            decreases area@.len() - k,
        {
            assert(ev.take(k + 1).drop_last() =~= ev.take(k as int));
            assert(ev.take(k + 1).last() == (area@[k as int].0@, str_views(area@[k as int].1@)));
            match body_block_of(&area[k].0, &area[k].1) {
                Some(b) => {
                    let ghost before = blocks@;
                    blocks.push(b);
                    assert(views(blocks@) =~= views(before).push(blocks@.last()@));
                },
                None => {},
            }
            k = k + 1;
        }
        assert(ev.take(area@.len() as int) =~= ev);
        if blocks.len() > best.len() {
            best = blocks;
        }
        a = a + 1;
    }
    assert(av.take(areas@.len() as int) =~= av);
    let mut lines: Vec<String> = Vec::new();
    let mut j: usize = 0;
    while j < best.len()
        invariant
            j <= best@.len(),
            str_views(lines@) =~= views(best@).take(j as int),
        decreases best@.len() - j,
    {
        let ghost before = lines@;
        lines.push(string_of(&best[j]));
        assert(str_views(lines@) =~= str_views(before).push(best@[j as int]@));
        assert(views(best@).take(j + 1) =~= views(best@).take(j as int).push(best@[j as int]@));
        j = j + 1;
    }
    assert(views(best@).take(best@.len() as int) =~= views(best@));
    dedupe_lines(&mut lines);
    if lines.len() == 0 {
        return Err(String::from_str("could not extract article body"));
    }
    let mut parts: Vec<Vec<char>> = Vec::new();
    let mut m: usize = 0;
    while m < lines.len()
        invariant
            m <= lines@.len(),
            views(parts@) =~= str_views(lines@).take(m as int),
        decreases lines@.len() - m,
    {
        let ghost before = parts@;
        parts.push(chars_of(lines[m].as_str()));
        assert(views(parts@) =~= views(before).push(lines@[m as int]@));
        assert(str_views(lines@).take(m + 1) =~= str_views(lines@).take(m as int).push(lines@[m as int]@));
        m = m + 1;
    }
    assert(str_views(lines@).take(lines@.len() as int) =~= str_views(lines@));
    Ok(string_of(&join_vec(&parts, &lit("\n\n"))))
}


/// The selectors tried for an article's title.
pub open spec fn title_selectors() -> Seq<Seq<char>> {
    seq!["h1.article-title"@, "h1"@, "meta[property=\"og:title\"]"@, "title"@]
}

/// The selectors tried for an article's subtitle.
pub open spec fn subtitle_selectors() -> Seq<Seq<char>> {
    seq!["h2.article-subtitle"@, "meta[name=\"description\"]"@]
}

/// The selectors tried for an article's date.
pub open spec fn date_selectors() -> Seq<Seq<char>> {
    seq![".article-date"@, "time"@, "meta[property=\"article:published_time\"]"@]
}

/// An article's title: the first title found without the site suffix and
/// trimmed, or `Untitled`.
pub open spec fn spec_article_title(html: Seq<char>) -> Seq<char> {
    match spec_first_text(html, title_selectors()) {
        Some(v) => if trim(replace(v, " | Soziopolis"@, ""@)).len() > 0 {
            trim(replace(v, " | Soziopolis"@, ""@))
        } else {
            "Untitled"@
        },
        None => "Untitled"@,
    }
}

/// An article's date as the page writes it: the date element, else the date
/// in the raw HTML, else nothing.
pub open spec fn spec_article_date(html: Seq<char>) -> Seq<char> {
    match spec_first_text(html, date_selectors()) {
        Some(d) => d,
        None => match spec_extract_date_from_html(html) {
            Some(d) => d,
            None => Seq::<char>::empty(),
        },
    }
}

/// Whether `article` is what the page at `url` with `html` reads as: its
/// title, subtitle, authors, date, section (named by the page, else by the
/// URL), body, LingQ text, word count and ISO date, as an `article` from the
/// URL's source, fetched at a time in whole seconds written in digits (which
/// time is the clock's).
pub open spec fn is_parsed_article(url: Seq<char>, html: Seq<char>, body: Seq<char>, article: Article) -> bool {
    let title = spec_article_title(html);
    let subtitle = match spec_first_text(html, subtitle_selectors()) {
        Some(v) => v,
        None => Seq::<char>::empty(),
    };
    let author = spec_collect_authors(html);
    let date = spec_article_date(html);
    &&& article.url@ == url
    &&& article.title@ == title
    &&& article.subtitle@ == subtitle
    &&& article.teaser@.len() == 0
    &&& article.author@ == author
    &&& article.date@ == date
    &&& article.published_at@ == (match spec_normalize_article_date(date) {
        Some(d) => d,
        None => Seq::<char>::empty(),
    })
    &&& article.section@ == (match spec_extract_section(html) {
        Some(s) => s,
        None => spec_infer_section_from_url(url),
    })
    &&& article.source_kind@ == "article"@
    &&& article.source_label@ == spec_source_label(url)
    &&& article.body_text@ == body
    &&& article.clean_text@ == spec_build_clean_text(title, subtitle, author, date, body)
    &&& article.word_count == word_count(body)
    &&& crate::app_error::is_decimal_digits(article.fetched_at@)
}

/// What reading the article page at `url` gives: the article, or why there
/// is none (no body, or fewer than 80 words).
pub open spec fn parse_article_post(url: Seq<char>, html: Seq<char>, res: Result<Article, String>) -> bool {
    match spec_extract_body(html) {
        Err(e) => res matches Err(m) && m@ == e,
        Ok(body) => if word_count(body) < 80 {
            res matches Err(m) && m@ == "article extraction produced too little text for "@ + url
        } else {
            res matches Ok(a) && is_parsed_article(url, html, body, a)
        },
    }
}

/// Reads the article page at `url` whose HTML is `html`.
pub fn parse_article(url: &str, html: &str) -> (res: Result<Article, String>)
    ensures
        parse_article_post(url@, html@, res),
{
    let mut title_sels: Vec<&str> = Vec::new();
    title_sels.push("h1.article-title");
    title_sels.push("h1");
    title_sels.push("meta[property=\"og:title\"]");
    title_sels.push("title");
    assert(selector_views(title_sels@) =~= title_selectors());
    let suffix = lit(" | Soziopolis");
    proof {
        reveal_strlit(" | Soziopolis");
    }
    let title: Vec<char> = match first_text(html, &title_sels) {
        Some(v) => {
            let t = trim_vec(&replace_vec(&chars_of(v.as_str()), &suffix, &lit("")));
            if t.len() > 0 {
                t
            } else {
                lit("Untitled")
            }
        },
        None => lit("Untitled"),
    };
    let mut subtitle_sels: Vec<&str> = Vec::new();
    subtitle_sels.push("h2.article-subtitle");
    subtitle_sels.push("meta[name=\"description\"]");
    assert(selector_views(subtitle_sels@) =~= subtitle_selectors());
    let subtitle: String = match first_text(html, &subtitle_sels) {
        Some(v) => v,
        None => String::new(),
    };
    let author = collect_authors(html);
    let mut date_sels: Vec<&str> = Vec::new();
    date_sels.push(".article-date");
    date_sels.push("time");
    date_sels.push("meta[property=\"article:published_time\"]");
    assert(selector_views(date_sels@) =~= date_selectors());
    let date: String = match first_text(html, &date_sels) {
        Some(d) => d,
        None => match extract_date_from_html(html) {
            Some(d) => d,
            None => String::new(),
        },
    };
    let section: String = match extract_section(html) {
        Some(s) => s,
        None => match infer_section_from_url(url) {
            Some(s) => s,
            None => String::from_str("Soziopolis"),
        },
    };
    let body = match extract_body(html) {
        Ok(b) => b,
        Err(e) => {
            return Err(e);
        },
    };
    let words = count_words(&chars_of(body.as_str()));
    if words < 80 {
        let mut message = lit("article extraction produced too little text for ");
        append_chars(&mut message, &chars_of(url));
        return Err(string_of(&message));
    }
    let title_text = string_of(&title);
    let clean_text = build_clean_text(
        title_text.as_str(),
        subtitle.as_str(),
        author.as_str(),
        date.as_str(),
        body.as_str(),
    );
    let published_at: String = match normalize_article_date(date.as_str()) {
        Some(d) => d,
        None => String::new(),
    };
    Ok(
        Article {
            url: string_of(&chars_of(url)),
            title: title_text,
            subtitle,
            teaser: String::new(),
            author,
            date,
            published_at,
            section,
            source_kind: String::from_str("article"),
            source_label: source_label(url),
            body_text: body,
            clean_text,
            word_count: words,
            fetched_at: crate::app_error::unix_seconds_now(),
        },
    )
}

/// The address, title, date and section of the article page at `url`
/// whose HTML is `html`; the error of `parse_article` when the page does
/// not read as an article.
pub fn article_metadata_from_page(url: &str, html: &str) -> (res: Result<ArticleMetadata, String>)
    ensures
        match res {
            Ok(m) => exists|a: Article|
                parse_article_post(url@, html@, Ok(a)) && m.url == a.url && m.title == a.title && m.date == a.date
                    && m.section == a.section,
            Err(e) => parse_article_post(url@, html@, Err(e)),
        },
{
    match parse_article(url, html) {
        Ok(article) => {
            let ghost a = article;
            Ok(ArticleMetadata { url: article.url, title: article.title, date: article.date, section: article.section })
        },
        Err(e) => Err(e),
    }
}

/// Every content element that is not page furniture and is long enough
/// contributes its cleaned text to its area's body blocks: a heading (`h2`,
/// `h3`, 4 bytes or more) marked `## `, a list item (16 or more) marked
/// `- `, a quotation (30 or more) or a paragraph (35 or more) as it is.
pub proof fn law_content_elements_are_body_blocks(elements: Seq<(Seq<char>, Seq<Seq<char>>)>, i: int)
    requires
        0 <= i < elements.len(),
        !spec_should_skip_block(spec_normalize_inline_markers(element_text(elements[i].1))),
    ensures
        ({
            let name = elements[i].0;
            let t = spec_normalize_inline_markers(element_text(elements[i].1));
            &&& (name == "h2"@ || name == "h3"@) && byte_len(t) >= 4 ==> body_blocks(elements).contains("## "@ + t)
            &&& name == "li"@ && byte_len(t) >= 16 ==> body_blocks(elements).contains("- "@ + t)
            &&& name == "blockquote"@ && byte_len(t) >= 30 ==> body_blocks(elements).contains(t)
            &&& name == "p"@ && byte_len(t) >= 35 ==> body_blocks(elements).contains(t)
        }),
    decreases elements.len(),
{
    reveal_strlit("h2");
    reveal_strlit("h3");
    reveal_strlit("li");
    reveal_strlit("blockquote");
    reveal_strlit("p");
    assert("li"@[0] != "h2"@[0] && "li"@[0] != "h3"@[0]);
    assert("blockquote"@[0] != "h2"@[0] && "blockquote"@[0] != "h3"@[0] && "blockquote"@[0] != "li"@[0]);
    assert("p"@[0] != "h2"@[0] && "p"@[0] != "h3"@[0] && "p"@[0] != "li"@[0] && "p"@[0] != "blockquote"@[0]);
    let rest = body_blocks(elements.drop_last());
    if i < elements.len() - 1 {
        law_content_elements_are_body_blocks(elements.drop_last(), i);
        assert(elements.drop_last()[i] == elements[i]);
        let all = body_blocks(elements);
        assert(forall|x: Seq<char>| rest.contains(x) ==> all.contains(x)) by {
            assert forall|x: Seq<char>| rest.contains(x) implies all.contains(x) by {
                let k = choose|k: int| 0 <= k < rest.len() && rest[k] == x;
                assert(all[k] == rest[k]);
            }
        }
    } else {
        let all = body_blocks(elements);
        if body_block(elements.last().0, elements.last().1) is Some {
            assert(all[all.len() - 1] == all.last());
        }
    }
}

/// The extracted body holds every block kept from the page's richest
/// content area.
pub proof fn law_body_holds_its_blocks(html: Seq<char>)
    requires
        spec_extract_body(html) is Ok,
    ensures
        ({
            let kept = dedupe_by_key(
                best_blocks(nested_selection(html, ".article-content"@, "p, h2, h3, li, blockquote"@)),
            );
            forall|k: int| 0 <= k < kept.len() ==> contains(spec_extract_body(html)->Ok_0, #[trigger] kept[k])
        }),
{
    let kept = dedupe_by_key(best_blocks(nested_selection(html, ".article-content"@, "p, h2, h3, li, blockquote"@)));
    assert forall|k: int| 0 <= k < kept.len() implies contains(spec_extract_body(html)->Ok_0, #[trigger] kept[k]) by {
        lemma_join_contains(kept, "\n\n"@, k);
    }
}

/// The body is taken from the content area with the most blocks: the
/// chosen blocks are those of one of the areas (the first of the richest),
/// and no area has more.
pub proof fn law_body_from_richest_area(areas: Seq<Seq<(Seq<char>, Seq<Seq<char>>)>>)
    ensures
        forall|a: int| 0 <= a < areas.len() ==> body_blocks(#[trigger] areas[a]).len() <= best_blocks(areas).len(),
        areas.len() > 0 ==> exists|a: int|
            0 <= a < areas.len() && best_blocks(areas) == body_blocks(#[trigger] areas[a])
                && forall|b: int| 0 <= b < a ==> body_blocks(#[trigger] areas[b]).len() < body_blocks(areas[a]).len(),
    decreases areas.len(),
{
    if areas.len() > 0 {
        let init = areas.drop_last();
        law_body_from_richest_area(init);
        assert(forall|a: int| 0 <= a < init.len() ==> init[a] == areas[a]);
        let n = areas.len() - 1;
        assert(areas[n] == areas.last());
        if init.len() > 0 {
            let a0 = choose|a: int|
                0 <= a < init.len() && best_blocks(init) == body_blocks(#[trigger] init[a])
                    && forall|b: int| 0 <= b < a ==> body_blocks(#[trigger] init[b]).len() < body_blocks(init[a]).len();
            if body_blocks(areas.last()).len() > best_blocks(init).len() {
                assert forall|b: int| 0 <= b < n implies body_blocks(#[trigger] areas[b]).len() < body_blocks(areas[n]).len() by {
                    assert(init[b] == areas[b]);
                }
            } else {
                assert(areas[a0] == init[a0]);
                assert forall|b: int| 0 <= b < a0 implies body_blocks(#[trigger] areas[b]).len() < body_blocks(areas[a0]).len() by {
                    assert(init[b] == areas[b]);
                }
            }
        } else {
            assert(best_blocks(init).len() == 0);
        }
    }
}

} // verus!
