//! The order the library lists its articles in, and the filtered, ordered
//! list it shows.
use vstd::prelude::*;
use crate::domain::{ArticleListItem, LibrarySortMode};
use crate::gui::helpers::{card_passes, card_passes_filters, effective_topic_for_article, spec_card_topic};
use crate::text::{chars_of, compare_chars, lemma_seq_lt_order, lowercase, lowercase_vec, seq_lt};

verus! {

/// Three-way order of two texts: -1 when `a` comes first, 0 when equal, 1
/// otherwise (character by character, a prefix first).
pub open spec fn text_order(a: Seq<char>, b: Seq<char>) -> int {
    if seq_lt(a, b) {
        -1
    } else if a == b {
        0
    } else {
        1
    }
}

/// Three-way order of two numbers.
pub open spec fn number_order(a: int, b: int) -> int {
    if a < b {
        -1
    } else if a == b {
        0
    } else {
        1
    }
}

/// `first`, or `second` where `first` ties.
pub open spec fn then_order(first: int, second: int) -> int {
    if first != 0 {
        first
    } else {
        second
    }
}

/// How two cards compare under a sort mode: newest or oldest by publication
/// then fetch time, longest or shortest by word count, or by title ignoring
/// case.
pub open spec fn mode_order(a: ArticleListItem, b: ArticleListItem, mode: LibrarySortMode) -> int {
    match mode {
        LibrarySortMode::Newest => then_order(
            text_order(b.published_at@, a.published_at@),
            text_order(b.fetched_at@, a.fetched_at@),
        ),
        LibrarySortMode::Oldest => then_order(
            text_order(a.published_at@, b.published_at@),
            text_order(a.fetched_at@, b.fetched_at@),
        ),
        LibrarySortMode::Longest => number_order(b.word_count as int, a.word_count as int),
        LibrarySortMode::Shortest => number_order(a.word_count as int, b.word_count as int),
        LibrarySortMode::Title => text_order(lowercase(a.title@), lowercase(b.title@)),
    }
}

/// How two cards compare in the library list: by topic first when grouping
/// by topic, then by the sort mode, ties broken by title ignoring case.
pub open spec fn library_order(a: ArticleListItem, b: ArticleListItem, mode: LibrarySortMode, group_by_topic: bool) -> int {
    let primary = if group_by_topic {
        then_order(text_order(spec_card_topic(a), spec_card_topic(b)), mode_order(a, b, mode))
    } else {
        mode_order(a, b, mode)
    };
    then_order(primary, text_order(lowercase(a.title@), lowercase(b.title@)))
}

proof fn lemma_text_order_flips(a: Seq<char>, b: Seq<char>)
    ensures
        text_order(a, b) == -text_order(b, a),
{
    lemma_seq_lt_order(a, b, a);
    lemma_seq_lt_order(b, a, b);
}

/// Swapping two cards flips how they compare.
pub proof fn lemma_library_order_flips(a: ArticleListItem, b: ArticleListItem, mode: LibrarySortMode, group_by_topic: bool)
    ensures
        library_order(a, b, mode, group_by_topic) == -library_order(b, a, mode, group_by_topic),
{
    lemma_text_order_flips(a.published_at@, b.published_at@);
    lemma_text_order_flips(a.fetched_at@, b.fetched_at@);
    lemma_text_order_flips(lowercase(a.title@), lowercase(b.title@));
    lemma_text_order_flips(spec_card_topic(a), spec_card_topic(b));
}

fn text_order_exec(a: &Vec<char>, b: &Vec<char>) -> (res: i8)
    ensures
        res == text_order(a@, b@),
{
    compare_chars(a, b)
}

fn number_order_exec(a: i64, b: i64) -> (res: i8)
    ensures
        res == number_order(a as int, b as int),
{
    if a < b {
        -1
    } else if a == b {
        0
    } else {
        1
    }
}

/// How two cards compare under `mode`.
fn mode_order_exec(a: &ArticleListItem, b: &ArticleListItem, mode: LibrarySortMode) -> (res: i8)
    ensures
        res == mode_order(*a, *b, mode),
{
    match mode {
        LibrarySortMode::Newest => {
            let first = text_order_exec(&chars_of(b.published_at.as_str()), &chars_of(a.published_at.as_str()));
            if first != 0 {
                first
            } else {
                text_order_exec(&chars_of(b.fetched_at.as_str()), &chars_of(a.fetched_at.as_str()))
            }
        },
        LibrarySortMode::Oldest => {
            let first = text_order_exec(&chars_of(a.published_at.as_str()), &chars_of(b.published_at.as_str()));
            if first != 0 {
                first
            } else {
                text_order_exec(&chars_of(a.fetched_at.as_str()), &chars_of(b.fetched_at.as_str()))
            }
        },
        LibrarySortMode::Longest => number_order_exec(b.word_count, a.word_count),
        LibrarySortMode::Shortest => number_order_exec(a.word_count, b.word_count),
        LibrarySortMode::Title => text_order_exec(
            &lowercase_vec(&chars_of(a.title.as_str())),
            &lowercase_vec(&chars_of(b.title.as_str())),
        ),
    }
}

/// How two library cards compare in the library list: -1 when `a` is
/// listed first, 1 when `b` is, 0 when the order leaves them together.
pub fn compare_library_articles(a: &ArticleListItem, b: &ArticleListItem, sort_mode: LibrarySortMode, group_by_topic: bool) -> (res: i8)
    ensures
        res == library_order(*a, *b, sort_mode, group_by_topic),
{
    let primary: i8 = if group_by_topic {
        let ta = effective_topic_for_article(a);
        let tb = effective_topic_for_article(b);
        let by_topic = text_order_exec(&chars_of(ta.as_str()), &chars_of(tb.as_str()));
        if by_topic != 0 {
            by_topic
        } else {
            mode_order_exec(a, b, sort_mode)
        }
    } else {
        mode_order_exec(a, b, sort_mode)
    };
    if primary != 0 {
        primary
    } else {
        text_order_exec(&lowercase_vec(&chars_of(a.title.as_str())), &lowercase_vec(&chars_of(b.title.as_str())))
    }
}

/// The cards that pass the library filters, in their given order.
pub open spec fn passing_cards(
    cards: Seq<ArticleListItem>,
    topic: Seq<char>,
    only_not_uploaded: bool,
    min_words: Option<usize>,
    max_words: Option<usize>,
) -> Seq<ArticleListItem>
    decreases cards.len(),
{
    if cards.len() == 0 {
        Seq::<ArticleListItem>::empty()
    } else {
        let rest = passing_cards(cards.drop_last(), topic, only_not_uploaded, min_words, max_words);
        if card_passes(cards.last(), topic, only_not_uploaded, min_words, max_words) {
            rest.push(cards.last())
        } else {
            rest
        }
    }
}

/// Whether each card of `s` is listed no later than the next one.
pub open spec fn listed_in_order(s: Seq<ArticleListItem>, mode: LibrarySortMode, group_by_topic: bool) -> bool {
    forall|i: int| 0 <= i < s.len() - 1 ==> #[trigger] library_order(s[i], s[i + 1], mode, group_by_topic) <= 0
}

/// Whether `res` is `input` rearranged, `idx` telling where each entry of
/// `res` stood in `input`, with cards that compare equal kept in their
/// `input` order.
pub open spec fn stable_arrangement(
    res: Seq<ArticleListItem>,
    input: Seq<ArticleListItem>,
    idx: Seq<int>,
    mode: LibrarySortMode,
    group_by_topic: bool,
) -> bool {
    &&& idx.len() == res.len() && res.len() == input.len()
    &&& forall|k: int| 0 <= k < idx.len() ==> 0 <= #[trigger] idx[k] < input.len() && res[k] == input[idx[k]]
    &&& forall|k: int, l: int| 0 <= k < l < idx.len() ==> #[trigger] idx[k] != #[trigger] idx[l]
    &&& forall|k: int, l: int|
        0 <= k < l < idx.len() && library_order(#[trigger] res[k], #[trigger] res[l], mode, group_by_topic) == 0
            ==> idx[k] < idx[l]
}

/// Inserting `e`, the next input card, at `p`, before the cards that come
/// after it, keeps the arrangement stable.
proof fn lemma_insert_keeps_arrangement(
    old_sorted: Seq<ArticleListItem>,
    before: Seq<ArticleListItem>,
    old_idx: Seq<int>,
    e: ArticleListItem,
    p: int,
    sort_mode: LibrarySortMode,
    group_by_topic: bool,
)
    requires
        stable_arrangement(old_sorted, before, old_idx, sort_mode, group_by_topic),
        0 <= p <= old_sorted.len(),
        forall|k: int| p <= k < old_sorted.len() ==> library_order(#[trigger] old_sorted[k], e, sort_mode, group_by_topic) > 0,
    ensures
        stable_arrangement(
            old_sorted.insert(p, e),
            before.push(e),
            old_idx.insert(p, before.len() as int),
            sort_mode,
            group_by_topic,
        ),
{
    let ns = old_sorted.insert(p, e);
    let after = before.push(e);
    let ix = old_idx.insert(p, before.len() as int);
    assert forall|k: int| 0 <= k < ix.len() implies 0 <= #[trigger] ix[k] < after.len() && ns[k] == after[ix[k]] by {
        if k < p {
            assert(ix[k] == old_idx[k]);
        } else if k > p {
            assert(ix[k] == old_idx[k - 1]);
        }
    }
    assert forall|k: int, l: int| 0 <= k < l < ix.len() implies #[trigger] ix[k] != #[trigger] ix[l] by {
        if k < p && l < p {
            assert(ix[k] == old_idx[k] && ix[l] == old_idx[l]);
        } else if k < p && l > p {
            assert(ix[k] == old_idx[k] && ix[l] == old_idx[l - 1]);
        } else if k > p && l > p {
            assert(ix[k] == old_idx[k - 1] && ix[l] == old_idx[l - 1]);
        } else if k == p {
            assert(ix[l] == old_idx[l - 1]);
        } else {
            assert(ix[k] == old_idx[k]);
        }
    }
    assert forall|k: int, l: int|
        0 <= k < l < ix.len() && library_order(#[trigger] ns[k], #[trigger] ns[l], sort_mode, group_by_topic) == 0
        implies ix[k] < ix[l] by {
        if k < p && l < p {
            assert(ix[k] == old_idx[k] && ix[l] == old_idx[l]);
            assert(ns[k] == old_sorted[k] && ns[l] == old_sorted[l]);
        } else if k < p && l > p {
            assert(ix[k] == old_idx[k] && ix[l] == old_idx[l - 1]);
            assert(ns[k] == old_sorted[k] && ns[l] == old_sorted[l - 1]);
        } else if k > p && l > p {
            assert(ix[k] == old_idx[k - 1] && ix[l] == old_idx[l - 1]);
            assert(ns[k] == old_sorted[k - 1] && ns[l] == old_sorted[l - 1]);
        } else if k == p {
            assert(ns[l] == old_sorted[l - 1]);
            assert(library_order(old_sorted[l - 1], e, sort_mode, group_by_topic) > 0);
            lemma_library_order_flips(old_sorted[l - 1], e, sort_mode, group_by_topic);
        } else {
            assert(ix[k] == old_idx[k]);
        }
    }
    assert(forall|k: int| 0 <= k < ix.len() ==> 0 <= #[trigger] ix[k] < after.len() && ns[k] == after[ix[k]]);
}

/// The library list as shown: the cards passing the filters (topic, only
/// not uploaded, word-count bounds), ordered by `sort_mode` (by topic first
/// when grouping), ties by title; cards that compare equal keep their order.
pub fn display_library_articles(
    cards: &Vec<ArticleListItem>,
    topic: &str,
    only_not_uploaded: bool,
    min_words: Option<usize>,
    max_words: Option<usize>,
    sort_mode: LibrarySortMode,
    group_by_topic: bool,
) -> (res: Vec<ArticleListItem>)
    ensures
        res@.to_multiset() == passing_cards(cards@, topic@, only_not_uploaded, min_words, max_words).to_multiset(),
        listed_in_order(res@, sort_mode, group_by_topic),
        exists|idx: Seq<int>|
            stable_arrangement(
                res@,
                passing_cards(cards@, topic@, only_not_uploaded, min_words, max_words),
                idx,
                sort_mode,
                group_by_topic,
            ),
{
    let ghost mut idx: Seq<int> = Seq::empty();
    let mut sorted: Vec<ArticleListItem> = Vec::new();
    let mut i: usize = 0;
    assert(sorted@.to_multiset() =~= passing_cards(cards@.take(0), topic@, only_not_uploaded, min_words, max_words).to_multiset()) by {
        broadcast use vstd::multiset::group_multiset_axioms, vstd::seq_lib::group_to_multiset_ensures;
        assert(cards@.take(0) =~= Seq::<ArticleListItem>::empty());
    }
    while i < cards.len()
        invariant
            i <= cards@.len(),
            sorted@.to_multiset() == passing_cards(cards@.take(i as int), topic@, only_not_uploaded, min_words, max_words).to_multiset(),
            listed_in_order(sorted@, sort_mode, group_by_topic),
            stable_arrangement(
                sorted@,
                passing_cards(cards@.take(i as int), topic@, only_not_uploaded, min_words, max_words),
                idx,
                sort_mode,
                group_by_topic,
            ),
        decreases cards@.len() - i,
    {
        assert(cards@.take(i + 1).drop_last() =~= cards@.take(i as int));
        assert(cards@.take(i + 1).last() == cards@[i as int]);
        if card_passes_filters(&cards[i], topic, only_not_uploaded, min_words, max_words) {
            let e = cards[i].duplicate();
            let m: usize = sorted.len();
            let mut p: usize = m;
            while p > 0 && compare_library_articles(&sorted[p - 1], &e, sort_mode, group_by_topic) > 0
                invariant
                    p <= m,
                    m == sorted@.len(),
                    forall|k: int| p <= k < m ==> library_order(#[trigger] sorted@[k], e, sort_mode, group_by_topic) > 0,
                decreases p,
            {
                p = p - 1;
            }
            let ghost old_sorted = sorted@;
            assert(p > 0 ==> library_order(old_sorted[p - 1], e, sort_mode, group_by_topic) <= 0);
            sorted.insert(p, e);
            proof {
                let before = passing_cards(cards@.take(i as int), topic@, only_not_uploaded, min_words, max_words);
                let after = before.push(e);
                let old_idx = idx;
                idx = old_idx.insert(p as int, before.len() as int);
                assert(sorted@ == old_sorted.insert(p as int, e));
                lemma_insert_keeps_arrangement(old_sorted, before, old_idx, e, p as int, sort_mode, group_by_topic);
                assert(passing_cards(cards@.take(i + 1), topic@, only_not_uploaded, min_words, max_words) == before.push(e));
                assert(sorted@ == old_sorted.insert(p as int, e));
                vstd::seq_lib::to_multiset_insert(old_sorted, p as int, e);
                vstd::seq_lib::to_multiset_build(before, e);
                assert forall|k: int| 0 <= k < sorted@.len() - 1 implies #[trigger] library_order(
                    sorted@[k],
                    sorted@[k + 1],
                    sort_mode,
                    group_by_topic,
                ) <= 0 by {
                    if k + 1 < p {
                        assert(sorted@[k] == old_sorted[k] && sorted@[k + 1] == old_sorted[k + 1]);
                        assert(library_order(old_sorted[k], old_sorted[k + 1], sort_mode, group_by_topic) <= 0);
                    } else if k + 1 == p {
                        assert(sorted@[k] == old_sorted[k] && sorted@[k + 1] == e);
                    } else if k == p {
                        assert(sorted@[k + 1] == old_sorted[k]);
                        lemma_library_order_flips(old_sorted[k], e, sort_mode, group_by_topic);
                    } else {
                        assert(sorted@[k] == old_sorted[k - 1] && sorted@[k + 1] == old_sorted[k]);
                        let j = k - 1;
                        assert(library_order(old_sorted[j], old_sorted[j + 1], sort_mode, group_by_topic) <= 0);
                        assert(j + 1 == k);
                    }
                }
            }
        }
        i = i + 1;
    }
    assert(cards@.take(cards@.len() as int) =~= cards@);
    assert(stable_arrangement(sorted@, passing_cards(cards@, topic@, only_not_uploaded, min_words, max_words), idx, sort_mode, group_by_topic));
    sorted
}

// ───────────────────────────── topic counts ─────────────────────────────

/// How many of `cards` have topic `topic`.
pub open spec fn topic_count(cards: Seq<ArticleListItem>, topic: Seq<char>) -> nat
    decreases cards.len(),
{
    if cards.len() == 0 {
        0
    } else {
        topic_count(cards.drop_last(), topic) + if spec_card_topic(cards.last()) == topic {
            1nat
        } else {
            0nat
        }
    }
}

/// Whether `counts` lists each topic of `cards` once, in ascending order,
/// with the number of cards that have it, and nothing else.
pub open spec fn is_topic_tally(counts: Seq<(Seq<char>, nat)>, cards: Seq<ArticleListItem>) -> bool {
    &&& forall|a: int, b: int| 0 <= a < b < counts.len() ==> seq_lt(#[trigger] counts[a].0, #[trigger] counts[b].0)
    &&& forall|a: int| 0 <= a < counts.len() ==> (#[trigger] counts[a]).1 == topic_count(cards, counts[a].0)
        && counts[a].1 > 0
    &&& forall|k: int| 0 <= k < cards.len() ==> exists|a: int|
        0 <= a < counts.len() && (#[trigger] counts[a]).0 == spec_card_topic(#[trigger] cards[k])
}

/// The views of topic counts.
pub open spec fn tally_view(v: Seq<(String, usize)>) -> Seq<(Seq<char>, nat)> {
    v.map_values(|p: (String, usize)| (p.0@, p.1 as nat))
}

/// Counting one more card does not change the count of other topics.
proof fn lemma_topic_count_push(cards: Seq<ArticleListItem>, c: ArticleListItem, t: Seq<char>)
    ensures
        topic_count(cards.push(c), t) == topic_count(cards, t) + if spec_card_topic(c) == t { 1nat } else { 0nat },
{
    assert(cards.push(c).drop_last() =~= cards);
}

/// How many library cards each topic has, topics in ascending order.
pub fn collect_topic_counts(articles: &Vec<ArticleListItem>) -> (res: Vec<(String, usize)>)
    ensures
        is_topic_tally(tally_view(res@), articles@),
{
    let mut counts: Vec<(String, usize)> = Vec::new();
    let mut i: usize = 0;
    while i < articles.len()
        invariant
            i <= articles@.len(),
            is_topic_tally(tally_view(counts@), articles@.take(i as int)),
            forall|a: int| 0 <= a < counts@.len() ==> (#[trigger] counts@[a]).1 <= i,
        decreases articles@.len() - i,
    {
        let ghost before = counts@;
        let ghost done = articles@.take(i as int);
        let ghost next = articles@.take(i + 1);
        assert(next =~= done.push(articles@[i as int]));
        let topic = effective_topic_for_article(&articles[i]);
        let key = chars_of(topic.as_str());
        let m: usize = counts.len();
        let mut p: usize = 0;
        while p < m && compare_chars(&chars_of(counts[p].0.as_str()), &key) == -1
            invariant
                p <= m,
                m == counts@.len(),
                counts@ == before,
                forall|a: int| 0 <= a < p ==> seq_lt((#[trigger] counts@[a]).0@, key@),
            decreases m - p,
        {
            p = p + 1;
        }
        let order: i8 = if p < m { compare_chars(&chars_of(counts[p].0.as_str()), &key) } else { 1 };
        proof {
            lemma_seq_lt_order(key@, key@, key@);
        }
        if p < m && order == 0 {
            let c = counts[p].1;
            counts.set(p, (counts[p].0.clone(), c + 1));
            proof {
                let tv = tally_view(counts@);
                assert(spec_card_topic(articles@[i as int]) == key@);
                assert(tally_view(before)[p as int].0 == key@);
                assert(tv[p as int] == (key@, (c + 1) as nat));
                assert(tally_view(before)[p as int].1 == c);
                assert forall|a: int| 0 <= a < tv.len() implies (#[trigger] tv[a]).1 == topic_count(next, tv[a].0) && tv[a].1 > 0 by {
                    lemma_topic_count_push(done, articles@[i as int], tv[a].0);
                    if a != p {
                        assert(tv[a] == tally_view(before)[a]);
                        assert(tally_view(before)[a].0 != key@) by {
                            if a < p {
                                lemma_seq_lt_order(tally_view(before)[a].0, key@, key@);
                            } else {
                                lemma_seq_lt_order(tally_view(before)[p as int].0, tally_view(before)[a].0, key@);
                            }
                        }
                    }
                }
                assert forall|a: int, b: int| 0 <= a < b < tv.len() implies seq_lt(#[trigger] tv[a].0, #[trigger] tv[b].0) by {
                    assert(tv[a].0 == tally_view(before)[a].0);
                    assert(tv[b].0 == tally_view(before)[b].0);
                }
                assert forall|k: int| 0 <= k < next.len() implies exists|a: int|
                    0 <= a < tv.len() && (#[trigger] tv[a]).0 == spec_card_topic(#[trigger] next[k]) by {
                    if k < done.len() {
                        assert(next[k] == done[k]);
                        let a = choose|a: int| 0 <= a < tally_view(before).len() && (#[trigger] tally_view(before)[a]).0 == spec_card_topic(#[trigger] done[k]);
                        assert(tv[a].0 == tally_view(before)[a].0);
                    } else {
                        assert(tv[p as int].0 == key@);
                    }
                }
            }
        } else {
            counts.insert(p, (topic, 1));
            proof {
                let tv = tally_view(counts@);
                let bv = tally_view(before);
                assert(tv == bv.insert(p as int, (key@, 1nat)));
                if p < m {
                    assert(order == 1);
                    assert(seq_lt(key@, bv[p as int].0));
                }
                assert forall|a: int| 0 <= a < tv.len() implies (#[trigger] tv[a]).1 == topic_count(next, tv[a].0) && tv[a].1 > 0 by {
                    lemma_topic_count_push(done, articles@[i as int], tv[a].0);
                    if a < p {
                        assert(tv[a] == bv[a]);
                        lemma_seq_lt_order(bv[a].0, key@, key@);
                    } else if a > p {
                        assert(tv[a] == bv[a - 1]);
                        lemma_seq_lt_order(key@, bv[p as int].0, bv[a - 1].0);
                        lemma_seq_lt_order(bv[a - 1].0, key@, key@);
                    } else {
                        assert(topic_count(done, key@) == 0) by {
                            if topic_count(done, key@) > 0 {
                                lemma_count_has_witness(done, key@);
                                let k = choose|k: int| 0 <= k < done.len() && spec_card_topic(done[k]) == key@;
                                let a2 = choose|a2: int| 0 <= a2 < bv.len() && (#[trigger] bv[a2]).0 == spec_card_topic(#[trigger] done[k]);
                                if a2 < p {
                                    lemma_seq_lt_order(bv[a2].0, key@, key@);
                                } else {
                                    lemma_seq_lt_order(key@, bv[p as int].0, bv[a2].0);
                                    lemma_seq_lt_order(bv[a2].0, key@, key@);
                                }
                            }
                        }
                    }
                }
                assert forall|a: int, b: int| 0 <= a < b < tv.len() implies seq_lt(#[trigger] tv[a].0, #[trigger] tv[b].0) by {
                    if b < p {
                        assert(tv[a] == bv[a] && tv[b] == bv[b]);
                    } else if b == p {
                        assert(tv[a] == bv[a]);
                    } else if a == p {
                        assert(tv[b] == bv[b - 1]);
                        if b - 1 > p {
                            lemma_seq_lt_order(key@, bv[p as int].0, bv[b - 1].0);
                        }
                    } else if a < p {
                        assert(tv[a] == bv[a] && tv[b] == bv[b - 1]);
                        lemma_seq_lt_order(bv[a].0, key@, bv[b - 1].0);
                        if b - 1 > p {
                            lemma_seq_lt_order(key@, bv[p as int].0, bv[b - 1].0);
                        }
                    } else {
                        assert(tv[a] == bv[a - 1] && tv[b] == bv[b - 1]);
                    }
                }
                assert forall|k: int| 0 <= k < next.len() implies exists|a: int|
                    0 <= a < tv.len() && (#[trigger] tv[a]).0 == spec_card_topic(#[trigger] next[k]) by {
                    if k < done.len() {
                        assert(next[k] == done[k]);
                        let a = choose|a: int| 0 <= a < bv.len() && (#[trigger] bv[a]).0 == spec_card_topic(#[trigger] done[k]);
                        if a < p {
                            assert(tv[a] == bv[a]);
                        } else {
                            assert(tv[a + 1] == bv[a]);
                        }
                    } else {
                        assert(tv[p as int].0 == key@);
                    }
                }
            }
        }
        i = i + 1;
    }
    assert(articles@.take(articles@.len() as int) =~= articles@);
    counts
}

/// A topic counted at least once belongs to some card.
proof fn lemma_count_has_witness(cards: Seq<ArticleListItem>, t: Seq<char>)
    requires
        topic_count(cards, t) > 0,
    ensures
        exists|k: int| 0 <= k < cards.len() && spec_card_topic(cards[k]) == t,
    decreases cards.len(),
{
    if spec_card_topic(cards.last()) != t {
        lemma_count_has_witness(cards.drop_last(), t);
        let k = choose|k: int| 0 <= k < cards.drop_last().len() && spec_card_topic(cards.drop_last()[k]) == t;
        assert(cards[k] == cards.drop_last()[k]);
    } else {
        assert(spec_card_topic(cards[cards.len() - 1]) == t);
    }
}

/// With grouping by topic, two cards of different effective topics are
/// listed in the order of their topics, whatever the sort mode says.
pub proof fn law_grouping_orders_by_topic(a: ArticleListItem, b: ArticleListItem, mode: LibrarySortMode)
    requires
        spec_card_topic(a) != spec_card_topic(b),
    ensures
        (library_order(a, b, mode, true) < 0) == seq_lt(spec_card_topic(a), spec_card_topic(b)),
        (library_order(a, b, mode, true) > 0) == seq_lt(spec_card_topic(b), spec_card_topic(a)),
{
    lemma_seq_lt_order(spec_card_topic(a), spec_card_topic(b), spec_card_topic(a));
    lemma_seq_lt_order(spec_card_topic(b), spec_card_topic(a), spec_card_topic(b));
}

/// `a` does not come after `b` and `b` not after `c`: `a` does not come
/// after `c`.
proof fn lemma_not_after_trans(a: Seq<char>, b: Seq<char>, c: Seq<char>)
    requires
        !seq_lt(b, a),
        !seq_lt(c, b),
    ensures
        !seq_lt(c, a),
{
    lemma_seq_lt_order(a, b, c);
    lemma_seq_lt_order(b, c, a);
    lemma_seq_lt_order(c, a, b);
    lemma_seq_lt_order(a, c, b);
    lemma_seq_lt_order(b, a, c);
    lemma_seq_lt_order(c, b, a);
}

proof fn lemma_grouped_prefix(s: Seq<ArticleListItem>, mode: LibrarySortMode, j: int)
    requires
        listed_in_order(s, mode, true),
        0 <= j < s.len(),
    ensures
        forall|i: int| 0 <= i < j ==> !seq_lt(spec_card_topic(s[j]), spec_card_topic(#[trigger] s[i])),
    decreases j,
{
    if j > 0 {
        lemma_grouped_prefix(s, mode, j - 1);
        let k = j - 1;
        assert(library_order(s[k], s[k + 1], mode, true) <= 0);
        assert(s[k + 1] == s[j]);
        let tp = spec_card_topic(s[j - 1]);
        let tj = spec_card_topic(s[j]);
        if tp != tj {
            law_grouping_orders_by_topic(s[j - 1], s[j], mode);
            lemma_seq_lt_order(tp, tj, tp);
        } else {
            lemma_seq_lt_order(tp, tp, tp);
        }
        assert(!seq_lt(tj, tp));
        assert forall|i: int| 0 <= i < j implies !seq_lt(tj, spec_card_topic(#[trigger] s[i])) by {
            if i < j - 1 {
                lemma_not_after_trans(spec_card_topic(s[i]), tp, tj);
            }
        }
    }
}

/// A library list in order with grouping by topic lists its cards by
/// topic: no card comes before a card of a smaller topic.
pub proof fn law_grouped_list_follows_topics(s: Seq<ArticleListItem>, mode: LibrarySortMode)
    requires
        listed_in_order(s, mode, true),
    ensures
        forall|i: int, j: int|
            0 <= i < j < s.len() ==> !seq_lt(spec_card_topic(#[trigger] s[j]), spec_card_topic(#[trigger] s[i])),
{
    assert forall|i: int, j: int| 0 <= i < j < s.len() implies !seq_lt(
        spec_card_topic(#[trigger] s[j]),
        spec_card_topic(#[trigger] s[i]),
    ) by {
        lemma_grouped_prefix(s, mode, j);
    }
}

/// Without grouping (or within one topic), the sort mode decides between
/// two cards that differ in its key: newest lists the later publication
/// date first, oldest the earlier, longest the larger word count first,
/// shortest the smaller, and title the lower-cased title that comes first.
pub proof fn law_sort_mode_decides(a: ArticleListItem, b: ArticleListItem, group_by_topic: bool)
    requires
        group_by_topic ==> spec_card_topic(a) == spec_card_topic(b),
    ensures
        seq_lt(b.published_at@, a.published_at@) ==> library_order(a, b, LibrarySortMode::Newest, group_by_topic) < 0,
        seq_lt(a.published_at@, b.published_at@) ==> library_order(a, b, LibrarySortMode::Oldest, group_by_topic) < 0,
        a.word_count > b.word_count ==> library_order(a, b, LibrarySortMode::Longest, group_by_topic) < 0,
        a.word_count < b.word_count ==> library_order(a, b, LibrarySortMode::Shortest, group_by_topic) < 0,
        seq_lt(lowercase(a.title@), lowercase(b.title@)) ==> library_order(a, b, LibrarySortMode::Title, group_by_topic)
            < 0,
{
    lemma_seq_lt_order(spec_card_topic(a), spec_card_topic(a), spec_card_topic(a));
}

} // verus!
