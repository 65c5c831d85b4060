//! LingQ lessons and collections, and the text shaping done before upload
//! and when reporting a rejected request.
use vstd::prelude::*;
use crate::text::{append_chars, compare_chars, i64_text, lowercase, lowercase_vec, seq_lt, spec_i64_text, trim, trim_vec, chars_of, clean_ws, clean_ws_vec, ellipsize, ellipsize_vec, join, join_vec, lit, split, split_vec, string_of, views};

verus! {

/// A LingQ course.
#[derive(Debug, Clone)]
pub struct Collection {
    pub id: i64,
    pub title: String,
    pub lessons_count: i64,
}

/// A lesson to create.
#[derive(Debug, Clone)]
pub struct UploadRequest {
    pub api_key: String,
    pub language_code: String,
    pub collection_id: Option<i64>,
    pub title: String,
    pub text: String,
    pub original_url: Option<String>,
}

/// The lesson LingQ created.
#[derive(Debug, Clone)]
pub struct UploadResponse {
    pub lesson_id: i64,
    pub lesson_url: String,
}

/// The token a username/password login returned.
#[derive(Debug, Clone)]
pub struct LoginResponse {
    pub token: String,
}

/// The non-empty cleaned paragraphs in order.
pub open spec fn cleaned_paragraphs(raws: Seq<Seq<char>>) -> Seq<Seq<char>>
    decreases raws.len(),
{
    if raws.len() == 0 {
        Seq::empty()
    } else {
        let prev = cleaned_paragraphs(raws.drop_last());
        let p = clean_ws(raws.last());
        if p.len() > 0 {
            prev.push(p)
        } else {
            prev
        }
    }
}

/// Lesson text: each blank-line separated paragraph with its whitespace
/// collapsed, empty ones dropped, joined again by blank lines.
pub open spec fn spec_normalize_text(text: Seq<char>) -> Seq<char> {
    join(cleaned_paragraphs(split(text, "\n\n"@)), "\n\n"@)
}

/// The lesson text sent to LingQ.
pub fn normalize_text(text: &str) -> (res: String)
    ensures
        res@ == spec_normalize_text(text@),
{
    let sep = lit("\n\n");
    let raws = split_vec(&chars_of(text), &sep);
    let n: usize = raws.len();
    let mut paragraphs: Vec<Vec<char>> = Vec::new();
    let mut i: usize = 0;
    assert(views(raws@).take(0) =~= Seq::<Seq<char>>::empty());
    assert(views(paragraphs@) =~= Seq::<Seq<char>>::empty());
    while i < n
        invariant
            i <= n,
            n == raws@.len(),
            views(paragraphs@) == cleaned_paragraphs(views(raws@).take(i as int)),
        decreases n - i,
    {
        assert(views(raws@).take(i + 1).drop_last() =~= views(raws@).take(i as int));
        assert(views(raws@).take(i + 1).last() == raws@[i as int]@);
        let p = clean_ws_vec(&raws[i]);
        if p.len() > 0 {
            let ghost before = paragraphs@;
            paragraphs.push(p);
            assert(views(paragraphs@) =~= views(before).push(p@));
        }
        i = i + 1;
    }
    assert(views(raws@).take(n as int) =~= views(raws@));
    string_of(&join_vec(&paragraphs, &sep))
}

/// A response body as shown in an error: whitespace collapsed, at most 220
/// characters with `...` when longer.
pub open spec fn spec_summarize_api_body(body: Seq<char>) -> Seq<char> {
    let condensed = clean_ws(body);
    if condensed.len() == 0 {
        Seq::empty()
    } else {
        ellipsize(condensed, 220)
    }
}

/// A response body condensed for an error message.
pub fn summarize_api_body(body: &str) -> (res: String)
    ensures
        res@ == spec_summarize_api_body(body@),
{
    let condensed = clean_ws_vec(&chars_of(body));
    if condensed.len() == 0 {
        return string_of(&Vec::new());
    }
    string_of(&ellipsize_vec(&condensed, 220))
}

// ───────────────────────────── requests ─────────────────────────────

/// The address of the LingQ API the lessons and collections live under.
pub open spec fn lingq_base() -> Seq<char> {
    "https://www.lingq.com/api/v3"@
}

/// The collections of the user in `language_code`, first page.
pub open spec fn spec_collections_url(language_code: Seq<char>) -> Seq<char> {
    lingq_base() + "/"@ + language_code + "/collections/my/"@
}

/// The first page of the user's collections in `language_code`.
pub fn collections_url(language_code: &str) -> (res: String)
    ensures
        res@ == spec_collections_url(language_code@),
{
    let mut out = lit("https://www.lingq.com/api/v3");
    append_chars(&mut out, &lit("/"));
    append_chars(&mut out, &chars_of(language_code));
    append_chars(&mut out, &lit("/collections/my/"));
    string_of(&out)
}

/// Where lessons in `language_code` are created.
pub open spec fn spec_lessons_url(language_code: Seq<char>) -> Seq<char> {
    lingq_base() + "/"@ + language_code + "/lessons/"@
}

/// Where lessons in `language_code` are created.
pub fn lessons_url(language_code: &str) -> (res: String)
    ensures
        res@ == spec_lessons_url(language_code@),
{
    let mut out = lit("https://www.lingq.com/api/v3");
    append_chars(&mut out, &lit("/"));
    append_chars(&mut out, &chars_of(language_code));
    append_chars(&mut out, &lit("/lessons/"));
    string_of(&out)
}

/// The page of lesson `lesson_id` in `language_code` on the LingQ site.
pub open spec fn spec_lesson_page_url(language_code: Seq<char>, lesson_id: i64) -> Seq<char> {
    "https://www.lingq.com/"@ + language_code + "/learn/lesson/"@ + spec_i64_text(lesson_id) + "/"@
}

/// The page of a created lesson on the LingQ site.
pub fn lesson_page_url(language_code: &str, lesson_id: i64) -> (res: String)
    ensures
        res@ == spec_lesson_page_url(language_code@, lesson_id),
{
    let mut out = lit("https://www.lingq.com/");
    append_chars(&mut out, &chars_of(language_code));
    append_chars(&mut out, &lit("/learn/lesson/"));
    append_chars(&mut out, &i64_text(lesson_id));
    append_chars(&mut out, &lit("/"));
    string_of(&out)
}

/// The `Authorization` header value for an API key.
pub fn authorization_header(api_key: &str) -> (res: String)
    ensures
        res@ == "Token "@ + api_key@,
{
    let mut out = lit("Token ");
    append_chars(&mut out, &chars_of(api_key));
    string_of(&out)
}

/// The error for a request LingQ answered with a failure status: the
/// context, the status, and the condensed body when there is one.
pub open spec fn spec_rejection_message(rejection_context: Seq<char>, status: Seq<char>, body: Seq<char>) -> Seq<char> {
    let summary = spec_summarize_api_body(body);
    rejection_context + " (status "@ + status + ")."@ + if summary.len() == 0 {
        Seq::<char>::empty()
    } else {
        " Response: "@ + summary
    }
}

/// The error for a request LingQ answered with status `status` (as the HTTP
/// client prints it) and body `body`.
pub fn rejection_message(rejection_context: &str, status: &str, body: &str) -> (res: String)
    ensures
        res@ == spec_rejection_message(rejection_context@, status@, body@),
{
    let summary = summarize_api_body(body);
    let mut out = chars_of(rejection_context);
    append_chars(&mut out, &lit(" (status "));
    append_chars(&mut out, &chars_of(status));
    append_chars(&mut out, &lit(")."));
    let sv = chars_of(summary.as_str());
    if sv.len() > 0 {
        append_chars(&mut out, &lit(" Response: "));
        append_chars(&mut out, &sv);
    }
    string_of(&out)
}

/// The error for a LingQ answer whose body does not read as expected.
pub open spec fn spec_parse_failure_message(parse_context: Seq<char>, body: Seq<char>) -> Seq<char> {
    let summary = spec_summarize_api_body(body);
    "failed to parse "@ + parse_context + if summary.len() == 0 {
        Seq::<char>::empty()
    } else {
        ": "@ + summary
    }
}

/// The error for a LingQ answer whose body could not be read as `parse_context`.
pub fn parse_failure_message(parse_context: &str, body: &str) -> (res: String)
    ensures
        res@ == spec_parse_failure_message(parse_context@, body@),
{
    let summary = summarize_api_body(body);
    let mut out = lit("failed to parse ");
    append_chars(&mut out, &chars_of(parse_context));
    let sv = chars_of(summary.as_str());
    if sv.len() > 0 {
        append_chars(&mut out, &lit(": "));
        append_chars(&mut out, &sv);
    }
    string_of(&out)
}

/// The token of a successful login answer: the one given when it is not
/// blank, else the error saying none was returned.
pub fn login_token(token: Option<String>) -> (res: Result<LoginResponse, String>)
    ensures
        match token {
            Some(t) => if trim(t@).len() > 0 {
                res matches Ok(r) && r.token@ == t@
            } else {
                res matches Err(e) && e@ == "LingQ login succeeded but no token was returned"@
            },
            None => res matches Err(e) && e@ == "LingQ login succeeded but no token was returned"@,
        },
{
    match token {
        Some(t) => {
            if trim_vec(&chars_of(t.as_str())).len() > 0 {
                Ok(LoginResponse { token: t })
            } else {
                Err(string_of(&lit("LingQ login succeeded but no token was returned")))
            }
        },
        None => Err(string_of(&lit("LingQ login succeeded but no token was returned"))),
    }
}

/// The body of a lesson upload: a private lesson with the request's title
/// and its normalized text, in the requested collection and with the
/// address of the article when given.
pub struct LessonPayload {
    pub title: String,
    pub text: String,
    pub status: String,
    pub collection: Option<i64>,
    pub original_url: Option<String>,
}

/// What to send to create the lesson `request` describes; an error when
/// its text is blank once normalized.
pub fn lesson_payload(request: &UploadRequest) -> (res: Result<LessonPayload, String>)
    ensures
        trim(spec_normalize_text(request.text@)).len() == 0 <==> res is Err,
        match res {
            Ok(p) => {
                &&& p.title@ == request.title@
                &&& p.text@ == spec_normalize_text(request.text@)
                &&& p.status@ == "private"@
                &&& p.collection == request.collection_id
                &&& p.original_url == request.original_url
            },
            Err(e) => e@ == "lesson text is empty"@,
        },
{
    let text = normalize_text(request.text.as_str());
    if trim_vec(&chars_of(text.as_str())).len() == 0 {
        return Err(string_of(&lit("lesson text is empty")));
    }
    let original_url = match &request.original_url {
        Some(u) => Some(u.clone()),
        None => None,
    };
    Ok(
        LessonPayload {
            title: request.title.clone(),
            text,
            status: string_of(&lit("private")),
            collection: request.collection_id,
            original_url,
        },
    )
}

/// A collection as listed by LingQ: the lesson count is read from either
/// spelling of its field, 0 when neither is given.
pub fn collection_from_row(id: i64, title: String, lessons_count: Option<i64>, lessons_count_alt: Option<i64>) -> (res: Collection)
    ensures
        res.id == id,
        res.title == title,
        res.lessons_count == match lessons_count {
            Some(n) => n,
            None => match lessons_count_alt {
                Some(n) => n,
                None => 0,
            },
        },
{
    let n: i64 = match lessons_count {
        Some(n) => n,
        None => match lessons_count_alt {
            Some(n) => n,
            None => 0,
        },
    };
    Collection { id, title, lessons_count: n }
}

// ───────────────────────────── collection order ─────────────────────────────

/// The key collections are listed by: the title in lower case.
pub open spec fn title_key(c: Collection) -> Seq<char> {
    lowercase(c.title@)
}

/// Whether `s` is ordered by lower-cased title.
pub open spec fn sorted_by_title(s: Seq<Collection>) -> bool {
    forall|a: int, b: int| 0 <= a < b < s.len() ==> !seq_lt(title_key(#[trigger] s[b]), title_key(#[trigger] s[a]))
}

/// Whether `res` is `input` rearranged, `idx` telling where each entry of
/// `res` stood in `input`, with collections of the same lower-cased title
/// kept in their `input` order.
pub open spec fn stable_by_title(res: Seq<Collection>, input: Seq<Collection>, idx: Seq<int>) -> bool {
    &&& idx.len() == res.len() && res.len() == input.len()
    &&& forall|k: int| 0 <= k < idx.len() ==> 0 <= #[trigger] idx[k] < input.len() && res[k] == input[idx[k]]
    &&& forall|k: int, l: int| 0 <= k < l < idx.len() ==> #[trigger] idx[k] != #[trigger] idx[l]
    &&& forall|k: int, l: int|
        0 <= k < l < idx.len() && title_key(#[trigger] res[k]) == title_key(#[trigger] res[l]) ==> idx[k] < idx[l]
}

/// Inserting `c`, the next input collection, at `p`, before the ones whose
/// titles come after its own, keeps the arrangement stable.
proof fn lemma_insert_keeps_title_order(
    old_sorted: Seq<Collection>,
    before: Seq<Collection>,
    old_idx: Seq<int>,
    c: Collection,
    p: int,
)
    requires
        stable_by_title(old_sorted, before, old_idx),
        0 <= p <= old_sorted.len(),
        forall|k: int| p <= k < old_sorted.len() ==> seq_lt(title_key(c), title_key(#[trigger] old_sorted[k])),
    ensures
        stable_by_title(old_sorted.insert(p, c), before.push(c), old_idx.insert(p, before.len() as int)),
{
    let ns = old_sorted.insert(p, c);
    let after = before.push(c);
    let ix = old_idx.insert(p, before.len() as int);
    assert forall|k: int| 0 <= k < ix.len() implies 0 <= #[trigger] ix[k] < after.len() && ns[k] == after[ix[k]] by {
        if k < p {
            assert(ix[k] == old_idx[k]);
        } else if k > p {
            assert(ix[k] == old_idx[k - 1]);
        }
    }
    assert forall|k: int, l: int| 0 <= k < l < ix.len() implies #[trigger] ix[k] != #[trigger] ix[l] by {
        if k < p && l < p {
            assert(ix[k] == old_idx[k] && ix[l] == old_idx[l]);
        } else if k < p && l > p {
            assert(ix[k] == old_idx[k] && ix[l] == old_idx[l - 1]);
        } else if k > p && l > p {
            assert(ix[k] == old_idx[k - 1] && ix[l] == old_idx[l - 1]);
        } else if k == p {
            assert(ix[l] == old_idx[l - 1]);
        } else {
            assert(ix[k] == old_idx[k]);
        }
    }
    assert forall|k: int, l: int|
        0 <= k < l < ix.len() && title_key(#[trigger] ns[k]) == title_key(#[trigger] ns[l]) implies ix[k] < ix[l] by {
        if k < p && l < p {
            assert(ix[k] == old_idx[k] && ix[l] == old_idx[l]);
            assert(ns[k] == old_sorted[k] && ns[l] == old_sorted[l]);
        } else if k < p && l > p {
            assert(ix[k] == old_idx[k] && ix[l] == old_idx[l - 1]);
            assert(ns[k] == old_sorted[k] && ns[l] == old_sorted[l - 1]);
        } else if k > p && l > p {
            assert(ix[k] == old_idx[k - 1] && ix[l] == old_idx[l - 1]);
            assert(ns[k] == old_sorted[k - 1] && ns[l] == old_sorted[l - 1]);
        } else if k == p {
            assert(ns[l] == old_sorted[l - 1]);
            assert(seq_lt(title_key(c), title_key(old_sorted[l - 1])));
            crate::text::lemma_seq_lt_order(title_key(c), title_key(c), title_key(c));
        } else {
            assert(ix[k] == old_idx[k]);
        }
    }
}

/// Collections in the order they are shown: by title, ignoring case; the
/// same collections, each as often as given.
pub fn sort_collections(v: Vec<Collection>) -> (res: Vec<Collection>)
    ensures
        res@.to_multiset() == v@.to_multiset(),
        sorted_by_title(res@),
        exists|idx: Seq<int>| stable_by_title(res@, v@, idx),
{
    let ghost mut idx: Seq<int> = Seq::empty();
    let ghost mut taken: int = 0;
    let mut sorted: Vec<Collection> = Vec::new();
    let mut keys: Vec<Vec<char>> = Vec::new();
    let mut rest = v;
    let ghost orig = rest@;
    assert(sorted@.to_multiset().add(rest@.to_multiset()) =~= orig.to_multiset()) by {
        broadcast use vstd::multiset::group_multiset_axioms, vstd::seq_lib::group_to_multiset_ensures;
        assert(sorted@ =~= Seq::<Collection>::empty());
    }
    while rest.len() > 0
        invariant
            keys@.len() == sorted@.len(),
            forall|a: int| 0 <= a < sorted@.len() ==> (#[trigger] keys@[a])@ == title_key(sorted@[a]),
            sorted_by_title(sorted@),
            sorted@.to_multiset().add(rest@.to_multiset()) == orig.to_multiset(),
            0 <= taken <= orig.len(),
            rest@ == orig.skip(taken),
            stable_by_title(sorted@, orig.take(taken), idx),
        decreases rest@.len(),
    {
        let ghost before_rest = rest@;
        let c = rest.remove(0);
        proof {
            vstd::seq_lib::to_multiset_remove(before_rest, 0);
            assert(rest@ == before_rest.remove(0));
        }
        let key = lowercase_vec(&chars_of(c.title.as_str()));
        let m: usize = sorted.len();
        let mut p: usize = m;
        while p > 0 && compare_chars(&key, &keys[p - 1]) == -1
            invariant
                p <= m,
                m == sorted@.len(),
                keys@.len() == sorted@.len(),
                forall|a: int| 0 <= a < sorted@.len() ==> (#[trigger] keys@[a])@ == title_key(sorted@[a]),
                forall|a: int| p <= a < m ==> seq_lt(key@, title_key(#[trigger] sorted@[a])),
            decreases p,
        {
            p = p - 1;
        }
        let ghost old_sorted = sorted@;
        proof {
            if p > 0 {
                assert(!seq_lt(key@, title_key(old_sorted[p - 1])));
            }
            assert forall|a: int, b: int| 0 <= a < b < old_sorted.len() + 1 implies !seq_lt(
                title_key(#[trigger] old_sorted.insert(p as int, c)[b]),
                title_key(#[trigger] old_sorted.insert(p as int, c)[a]),
            ) by {
                let ns = old_sorted.insert(p as int, c);
                if a < p && b == p {
                    lemma_not_after_chain(title_key(old_sorted[a]), title_key(old_sorted[p - 1]), key@);
                } else if a == p && b > p {
                    crate::text::lemma_seq_lt_order(key@, title_key(old_sorted[b - 1]), key@);
                } else if a < p && b > p {
                    lemma_not_after_chain(title_key(old_sorted[a]), title_key(old_sorted[p - 1]), key@);
                    crate::text::lemma_seq_lt_order(key@, title_key(old_sorted[b - 1]), key@);
                    lemma_not_after_chain(title_key(old_sorted[a]), key@, title_key(old_sorted[b - 1]));
                }
            }
        }
        sorted.insert(p, c);
        keys.insert(p, key);
        proof {
            assert(sorted@ == old_sorted.insert(p as int, c));
            vstd::seq_lib::to_multiset_insert(old_sorted, p as int, c);
            assert(c == orig[taken]);
            assert(orig.take(taken + 1) =~= orig.take(taken).push(c));
            lemma_insert_keeps_title_order(old_sorted, orig.take(taken), idx, c, p as int);
            idx = idx.insert(p as int, taken);
            taken = taken + 1;
            assert(rest@ =~= orig.skip(taken));
            assert(sorted@.to_multiset().add(rest@.to_multiset()) =~= orig.to_multiset()) by {
                broadcast use vstd::multiset::group_multiset_axioms, vstd::seq_lib::group_to_multiset_ensures;
                assert(before_rest[0] == c);
                assert(before_rest.to_multiset().contains(c));
            }
        }
    }
    assert(sorted@.to_multiset() =~= orig.to_multiset()) by {
        broadcast use vstd::multiset::group_multiset_axioms, vstd::seq_lib::group_to_multiset_ensures;
        assert(rest@ =~= Seq::<Collection>::empty());
        assert(rest@.to_multiset() =~= vstd::multiset::Multiset::<Collection>::empty());
    }
    assert(orig.take(taken) =~= orig);
    sorted
}

/// Not being after `b` and `b` not being after `c` puts `a` not after `c`
/// in lower-cased title order.
proof fn lemma_not_after_chain(a: Seq<char>, b: Seq<char>, c: Seq<char>)
    ensures
        !seq_lt(b, a) && !seq_lt(c, b) ==> !seq_lt(c, a),
{
    crate::text::lemma_seq_lt_order(a, b, c);
    crate::text::lemma_seq_lt_order(c, b, a);
    crate::text::lemma_seq_lt_order(c, a, b);
    crate::text::lemma_seq_lt_order(b, c, a);
    crate::text::lemma_seq_lt_order(a, c, b);
    crate::text::lemma_seq_lt_order(b, a, c);
}

} // verus!
