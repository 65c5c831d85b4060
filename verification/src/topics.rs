//! Topic labels derived from an article's title, subtitle, section and URL
//! by keyword scores.
use vstd::prelude::*;
use crate::text::{chars_of, contains, contains_vec, lit, lowercase, lowercase_vec, string_of, views};

verus! {

/// The topic of articles that no rule fits.
pub const GENERAL_TOPIC: &'static str = "Allgemein / Sonstiges";

/// The topic of reviews, essays and interviews that no rule fits well.
pub const FORMAT_TOPIC: &'static str = "Rezensionen, Essays & Interviews";

/// A rule's score from which its topic is taken outright.
pub const MIN_CONFIDENT_SCORE: usize = 5;

/// A rule's score from which its topic is taken when the section is not a format.
pub const MIN_SECTION_FALLBACK_SCORE: usize = 3;

/// How many topic rules there are.
pub const TOPIC_RULE_COUNT: usize = 8;

/// The label of topic rule `i`.
pub open spec fn rule_label(i: int) -> Seq<char> {
    if i == 0 {
        "Politik & Staat"@
    } else if i == 1 {
        "Wirtschaft & Arbeit"@
    } else if i == 2 {
        "Digitalisierung & KI"@
    } else if i == 3 {
        "Theorie & Methode"@
    } else if i == 4 {
        "Kultur & Medien"@
    } else if i == 5 {
        "Ungleichheit & Gesellschaft"@
    } else if i == 6 {
        "Geschichte & Erinnerung"@
    } else if i == 7 {
        "Natur & Ökologie"@
    } else {
        Seq::empty()
    }
}

/// The keywords of topic rule `i`.
pub open spec fn rule_keywords(i: int) -> Seq<Seq<char>> {
    if i == 0 {
        seq!["politik"@, "staat"@, "regierung"@, "demokr"@, "parlament"@, "polizei"@, "verfassung"@, "recht"@, "regime"@, "herrschaft"@, "imperial"@, "faschis"@, "öffentlichkeit"@, "oeffentlichkeit"@]
    } else if i == 1 {
        seq!["wirtschaft"@, "arbeit"@, "arbeits"@, "kapital"@, "kapitalismus"@, "markt"@, "neoliberal"@, "tarif"@, "lohn"@, "unternehmen"@, "finanz"@, "ökonomie"@, "oekonomie"@, "ungleichheit"@]
    } else if i == 2 {
        seq!["digital"@, "digitalisierung"@, "ki"@, "künstliche intelligenz"@, "kunstliche intelligenz"@, "algorithm"@, "daten"@, "datenanalyse"@, "plattform"@, "software"@, "internet"@, "maschine"@, "automatis"@, "technologie"@, "kyber"@]
    } else if i == 3 {
        seq!["theorie"@, "sozialtheorie"@, "methode"@, "methodik"@, "mixed-method"@, "statistik"@, "hermeneutik"@, "philosoph"@, "anthropologie"@, "soziologie"@, "kritische theorie"@, "wissenssoziologie"@, "wissenschaft"@, "hochschule"@, "universit"@, "forschung"@]
    } else if i == 4 {
        seq!["kultur"@, "medien"@, "medientheorie"@, "literatur"@, "film"@, "musik"@, "kunst"@, "ästhetik"@, "aesthetik"@, "öffentlichkeit"@, "oeffentlichkeit"@]
    } else if i == 5 {
        seq!["gesellschaft"@, "ungleichheit"@, "geschlecht"@, "gender"@, "gleichstellung"@, "frau"@, "frauen"@, "femin"@, "rassismus"@, "migration"@, "identität"@, "identitaet"@, "emotion"@, "gefühl"@, "gefuhl"@, "selbst"@, "alltag"@, "familie"@, "soziale"@, "soziales"@]
    } else if i == 6 {
        seq!["geschichte"@, "histor"@, "erinner"@, "zeitgeschichte"@, "genealogie"@, "archiv"@, "jahrhundert"@]
    } else if i == 7 {
        seq!["natur"@, "umwelt"@, "ökologie"@, "oekologie"@, "ökofemin"@, "oekofemin"@, "klima"@, "anthropozän"@, "anthropozan"@]
    } else {
        Seq::empty()
    }
}

/// The section hints of topic rule `i`.
pub open spec fn rule_hints(i: int) -> Seq<Seq<char>> {
    if i == 0 {
        seq!["politik"@, "zeitgeschichte"@]
    } else if i == 1 {
        seq!["wirtschaft"@, "recht"@]
    } else if i == 2 {
        seq!["technik"@]
    } else if i == 3 {
        seq!["gesellschaftstheorie"@, "anthropologie"@, "wissenschaft"@]
    } else if i == 4 {
        seq!["kultur"@, "medien"@]
    } else if i == 5 {
        seq!["soziales leben"@]
    } else if i == 6 {
        seq!["zeitgeschichte"@]
    } else if i == 7 {
        seq!["ökologie"@, "oekologie"@]
    } else {
        Seq::empty()
    }
}

fn rule_label_str(i: usize) -> (res: &'static str)
    requires
        i < TOPIC_RULE_COUNT,
    ensures
        res@ == rule_label(i as int),
{
    match i {
        0 => "Politik & Staat",
        1 => "Wirtschaft & Arbeit",
        2 => "Digitalisierung & KI",
        3 => "Theorie & Methode",
        4 => "Kultur & Medien",
        5 => "Ungleichheit & Gesellschaft",
        6 => "Geschichte & Erinnerung",
        7 => "Natur & Ökologie",
        _ => "",
    }
}

fn rule_keywords_vec(i: usize) -> (res: Vec<Vec<char>>)
    requires
        i < TOPIC_RULE_COUNT,
    ensures
        views(res@) == rule_keywords(i as int),
        res@.len() <= 20,
{
    let v: Vec<Vec<char>> = match i {
        0 => vec![lit("politik"), lit("staat"), lit("regierung"), lit("demokr"), lit("parlament"), lit("polizei"), lit("verfassung"), lit("recht"), lit("regime"), lit("herrschaft"), lit("imperial"), lit("faschis"), lit("öffentlichkeit"), lit("oeffentlichkeit")],
        1 => vec![lit("wirtschaft"), lit("arbeit"), lit("arbeits"), lit("kapital"), lit("kapitalismus"), lit("markt"), lit("neoliberal"), lit("tarif"), lit("lohn"), lit("unternehmen"), lit("finanz"), lit("ökonomie"), lit("oekonomie"), lit("ungleichheit")],
        2 => vec![lit("digital"), lit("digitalisierung"), lit("ki"), lit("künstliche intelligenz"), lit("kunstliche intelligenz"), lit("algorithm"), lit("daten"), lit("datenanalyse"), lit("plattform"), lit("software"), lit("internet"), lit("maschine"), lit("automatis"), lit("technologie"), lit("kyber")],
        3 => vec![lit("theorie"), lit("sozialtheorie"), lit("methode"), lit("methodik"), lit("mixed-method"), lit("statistik"), lit("hermeneutik"), lit("philosoph"), lit("anthropologie"), lit("soziologie"), lit("kritische theorie"), lit("wissenssoziologie"), lit("wissenschaft"), lit("hochschule"), lit("universit"), lit("forschung")],
        4 => vec![lit("kultur"), lit("medien"), lit("medientheorie"), lit("literatur"), lit("film"), lit("musik"), lit("kunst"), lit("ästhetik"), lit("aesthetik"), lit("öffentlichkeit"), lit("oeffentlichkeit")],
        5 => vec![lit("gesellschaft"), lit("ungleichheit"), lit("geschlecht"), lit("gender"), lit("gleichstellung"), lit("frau"), lit("frauen"), lit("femin"), lit("rassismus"), lit("migration"), lit("identität"), lit("identitaet"), lit("emotion"), lit("gefühl"), lit("gefuhl"), lit("selbst"), lit("alltag"), lit("familie"), lit("soziale"), lit("soziales")],
        6 => vec![lit("geschichte"), lit("histor"), lit("erinner"), lit("zeitgeschichte"), lit("genealogie"), lit("archiv"), lit("jahrhundert")],
        7 => vec![lit("natur"), lit("umwelt"), lit("ökologie"), lit("oekologie"), lit("ökofemin"), lit("oekofemin"), lit("klima"), lit("anthropozän"), lit("anthropozan")],
        _ => Vec::new(),
    };
    assert(views(v@) =~= rule_keywords(i as int));
    v
}

fn rule_hints_vec(i: usize) -> (res: Vec<Vec<char>>)
    requires
        i < TOPIC_RULE_COUNT,
    ensures
        views(res@) == rule_hints(i as int),
        res@.len() <= 3,
{
    let v: Vec<Vec<char>> = match i {
        0 => vec![lit("politik"), lit("zeitgeschichte")],
        1 => vec![lit("wirtschaft"), lit("recht")],
        2 => vec![lit("technik")],
        3 => vec![lit("gesellschaftstheorie"), lit("anthropologie"), lit("wissenschaft")],
        4 => vec![lit("kultur"), lit("medien")],
        5 => vec![lit("soziales leben")],
        6 => vec![lit("zeitgeschichte")],
        7 => vec![lit("ökologie"), lit("oekologie")],
        _ => Vec::new(),
    };
    assert(views(v@) =~= rule_hints(i as int));
    v
}

/// The built-in topic labels: one per rule, then the format and the general topic.
pub open spec fn topic_labels() -> Seq<Seq<char>> {
    seq![
        rule_label(0), rule_label(1), rule_label(2), rule_label(3),
        rule_label(4), rule_label(5), rule_label(6), rule_label(7),
        FORMAT_TOPIC@, GENERAL_TOPIC@,
    ]
}

/// The built-in topic labels.
pub fn built_in_topic_labels() -> (res: Vec<&'static str>)
    ensures
        res@.map_values(|s: &'static str| s@) == topic_labels(),
{
    let mut labels: Vec<&'static str> = Vec::new();
    let mut i: usize = 0;
    while i < TOPIC_RULE_COUNT
        invariant
            i <= TOPIC_RULE_COUNT,
            labels@.len() == i,
            forall|k: int| 0 <= k < i ==> (#[trigger] labels@[k])@ == rule_label(k),
        decreases TOPIC_RULE_COUNT - i,
    {
        labels.push(rule_label_str(i));
        i = i + 1;
    }
    labels.push(FORMAT_TOPIC);
    labels.push(GENERAL_TOPIC);
    assert(labels@.map_values(|s: &'static str| s@) =~= topic_labels());
    labels
}

/// The points one keyword earns: 5 in the title, 4 in the subtitle, 2 in the
/// section, 1 in the URL (all lower-cased).
pub open spec fn keyword_points(k: Seq<char>, t: Seq<char>, s: Seq<char>, sec: Seq<char>, u: Seq<char>) -> nat {
    (if contains(t, k) { 5nat } else { 0nat }) + (if contains(s, k) { 4nat } else { 0nat }) + (if contains(sec, k) { 2nat } else { 0nat }) + (if contains(u, k) { 1nat } else { 0nat })
}

/// The points of a list of keywords.
pub open spec fn keywords_score(ks: Seq<Seq<char>>, t: Seq<char>, s: Seq<char>, sec: Seq<char>, u: Seq<char>) -> nat
    decreases ks.len(),
{
    if ks.len() == 0 {
        0
    } else {
        keywords_score(ks.drop_last(), t, s, sec, u) + keyword_points(ks.last(), t, s, sec, u)
    }
}

/// The points of a list of section hints: 3 per hint in the section.
pub open spec fn hints_score(hs: Seq<Seq<char>>, sec: Seq<char>) -> nat
    decreases hs.len(),
{
    if hs.len() == 0 {
        0
    } else {
        hints_score(hs.drop_last(), sec) + (if contains(sec, hs.last()) { 3nat } else { 0nat })
    }
}

/// The score of rule `i` for the lower-cased fields.
pub open spec fn rule_score(i: int, t: Seq<char>, s: Seq<char>, sec: Seq<char>, u: Seq<char>) -> nat {
    keywords_score(rule_keywords(i), t, s, sec, u) + hints_score(rule_hints(i), sec)
}

/// The best of the first `n` rules: highest score, earliest on a tie.
pub open spec fn best_rule(n: int, t: Seq<char>, s: Seq<char>, sec: Seq<char>, u: Seq<char>) -> int
    decreases n,
{
    if n <= 1 {
        0
    } else {
        let prev = best_rule(n - 1, t, s, sec, u);
        if rule_score(n - 1, t, s, sec, u) > rule_score(prev, t, s, sec, u) {
            n - 1
        } else {
            prev
        }
    }
}

/// Needles that mark a section as a text format rather than a subject.
pub open spec fn format_needles() -> Seq<Seq<char>> {
    seq!["essay"@, "interview"@, "besprech"@, "rezension"@, "zeitschriftenschau"@]
}

/// A lower-cased section names a text format.
pub open spec fn spec_is_format_section(section_lower: Seq<char>) -> bool {
    exists|k: int| 0 <= k < format_needles().len() && contains(section_lower, #[trigger] format_needles()[k])
}

/// Whether a lower-cased section names a text format.
pub fn is_format_section(section_lower: &Vec<char>) -> (res: bool)
    ensures
        res == spec_is_format_section(section_lower@),
{
    let needles: Vec<Vec<char>> = vec![lit("essay"), lit("interview"), lit("besprech"), lit("rezension"), lit("zeitschriftenschau")];
    assert(views(needles@) =~= format_needles());
    let r = crate::text::contains_any(section_lower, &needles);
    assert(r == spec_is_format_section(section_lower@)) by {
        if r {
            let k = choose|k: int| 0 <= k < needles@.len() && contains(section_lower@, #[trigger] needles@[k]@);
            assert(format_needles()[k] == needles@[k]@);
        } else {
            assert forall|k: int| 0 <= k < format_needles().len() implies !contains(section_lower@, #[trigger] format_needles()[k]) by {
                assert(format_needles()[k] == needles@[k]@);
            }
        }
    }
    r
}

/// The topic of an article: the best rule's label when it scores at least 5;
/// else the format topic for a format section; else the best rule's label
/// when it scores at least 3; else the general topic. Fields are compared
/// lower-cased.
pub open spec fn spec_generated_topic(title: Seq<char>, subtitle: Seq<char>, section: Seq<char>, url: Seq<char>) -> Seq<char> {
    let t = lowercase(title);
    let s = lowercase(subtitle);
    let sec = lowercase(section);
    let u = lowercase(url);
    let best = best_rule(8, t, s, sec, u);
    let score = rule_score(best, t, s, sec, u);
    if score >= MIN_CONFIDENT_SCORE {
        rule_label(best)
    } else if spec_is_format_section(sec) {
        FORMAT_TOPIC@
    } else if score >= MIN_SECTION_FALLBACK_SCORE {
        rule_label(best)
    } else {
        GENERAL_TOPIC@
    }
}

proof fn lemma_keywords_score_bound(ks: Seq<Seq<char>>, t: Seq<char>, s: Seq<char>, sec: Seq<char>, u: Seq<char>)
    ensures
        keywords_score(ks, t, s, sec, u) <= 12 * ks.len(),
    decreases ks.len(),
{
    if ks.len() > 0 {
        lemma_keywords_score_bound(ks.drop_last(), t, s, sec, u);
    }
}

proof fn lemma_hints_score_bound(hs: Seq<Seq<char>>, sec: Seq<char>)
    ensures
        hints_score(hs, sec) <= 3 * hs.len(),
    decreases hs.len(),
{
    if hs.len() > 0 {
        lemma_hints_score_bound(hs.drop_last(), sec);
    }
}

fn score_rule(i: usize, t: &Vec<char>, s: &Vec<char>, sec: &Vec<char>, u: &Vec<char>) -> (res: usize)
    requires
        i < TOPIC_RULE_COUNT,
    ensures
        res == rule_score(i as int, t@, s@, sec@, u@),
{
    let ks = rule_keywords_vec(i);
    let n: usize = ks.len();
    assert(n <= 20);
    let mut score: usize = 0;
    let mut k: usize = 0;
    assert(views(ks@).take(0) =~= Seq::<Seq<char>>::empty());
    while k < n
        invariant
            k <= n <= 20,
            n == ks@.len(),
            score == keywords_score(views(ks@).take(k as int), t@, s@, sec@, u@),
            score <= 12 * k,
        decreases n - k,
    {
        assert(views(ks@).take(k + 1).drop_last() =~= views(ks@).take(k as int));
        assert(views(ks@).take(k + 1).last() == ks@[k as int]@);
        let kw = &ks[k];
        if contains_vec(t, kw) { score = score + 5; }
        if contains_vec(s, kw) { score = score + 4; }
        if contains_vec(sec, kw) { score = score + 2; }
        if contains_vec(u, kw) { score = score + 1; }
        k = k + 1;
    }
    assert(views(ks@).take(n as int) =~= views(ks@));
    let hs = rule_hints_vec(i);
    let m: usize = hs.len();
    assert(m <= 3);
    let mut hint_score: usize = 0;
    let mut h: usize = 0;
    assert(views(hs@).take(0) =~= Seq::<Seq<char>>::empty());
    while h < m
        invariant
            h <= m <= 3,
            m == hs@.len(),
            hint_score == hints_score(views(hs@).take(h as int), sec@),
            hint_score <= 3 * h,
        decreases m - h,
    {
        assert(views(hs@).take(h + 1).drop_last() =~= views(hs@).take(h as int));
        assert(views(hs@).take(h + 1).last() == hs@[h as int]@);
        if contains_vec(sec, &hs[h]) { hint_score = hint_score + 3; }
        h = h + 1;
    }
    assert(views(hs@).take(m as int) =~= views(hs@));
    score + hint_score
}

/// The generated topic of an article from its title, subtitle, section and URL.
pub fn generated_topic_from_fields(title: &str, subtitle: &str, section: &str, url: &str) -> (res: String)
    ensures
        res@ == spec_generated_topic(title@, subtitle@, section@, url@),
{
    let t = lowercase_vec(&chars_of(title));
    let s = lowercase_vec(&chars_of(subtitle));
    let sec = lowercase_vec(&chars_of(section));
    let u = lowercase_vec(&chars_of(url));
    let mut best: usize = 0;
    let mut best_score: usize = score_rule(0, &t, &s, &sec, &u);
    let mut i: usize = 1;
    while i < TOPIC_RULE_COUNT
        invariant
            1 <= i <= TOPIC_RULE_COUNT,
            best < i,
            best as int == best_rule(i as int, t@, s@, sec@, u@),
            best_score == rule_score(best as int, t@, s@, sec@, u@),
        decreases TOPIC_RULE_COUNT - i,
    {
        let sc = score_rule(i, &t, &s, &sec, &u);
        if sc > best_score {
            best = i;
            best_score = sc;
        }
        i = i + 1;
    }
    if best_score >= MIN_CONFIDENT_SCORE {
        return string_of(&chars_of(rule_label_str(best)));
    }
    if is_format_section(&sec) {
        return string_of(&chars_of(FORMAT_TOPIC));
    }
    if best_score >= MIN_SECTION_FALLBACK_SCORE {
        return string_of(&chars_of(rule_label_str(best)));
    }
    string_of(&chars_of(GENERAL_TOPIC))
}

/// The best of the first `n` rules has the highest score among them, and
/// every rule before it scores less.
proof fn lemma_best_rule_is_first_highest(n: int, t: Seq<char>, s: Seq<char>, sec: Seq<char>, u: Seq<char>)
    requires
        n >= 1,
    ensures
        0 <= best_rule(n, t, s, sec, u) < n,
        forall|k: int| 0 <= k < n ==> #[trigger] rule_score(k, t, s, sec, u) <= rule_score(best_rule(n, t, s, sec, u), t, s, sec, u),
        forall|k: int| 0 <= k < best_rule(n, t, s, sec, u) ==> #[trigger] rule_score(k, t, s, sec, u) < rule_score(best_rule(n, t, s, sec, u), t, s, sec, u),
    decreases n,
{
    if n > 1 {
        lemma_best_rule_is_first_highest(n - 1, t, s, sec, u);
    }
}

/// When some topic rule scores at least `MIN_CONFIDENT_SCORE` on the
/// lower-cased fields, the topic is the label of the first highest-scoring
/// rule, whatever the section (a format section included).
pub proof fn law_confident_rule_decides_topic(
    title: Seq<char>,
    subtitle: Seq<char>,
    section: Seq<char>,
    url: Seq<char>,
    i: int,
)
    requires
        0 <= i < 8,
        rule_score(i, lowercase(title), lowercase(subtitle), lowercase(section), lowercase(url)) >= MIN_CONFIDENT_SCORE,
    ensures
        exists|j: int|
            #![trigger rule_label(j)]
            {
                let (t, s, sec, u) = (lowercase(title), lowercase(subtitle), lowercase(section), lowercase(url));
                &&& 0 <= j < 8
                &&& spec_generated_topic(title, subtitle, section, url) == rule_label(j)
                &&& forall|k: int| 0 <= k < 8 ==> #[trigger] rule_score(k, t, s, sec, u) <= rule_score(j, t, s, sec, u)
                &&& forall|k: int| 0 <= k < j ==> #[trigger] rule_score(k, t, s, sec, u) < rule_score(j, t, s, sec, u)
            },
{
    let (t, s, sec, u) = (lowercase(title), lowercase(subtitle), lowercase(section), lowercase(url));
    lemma_best_rule_is_first_highest(8, t, s, sec, u);
    let j = best_rule(8, t, s, sec, u);
    assert(rule_score(i, t, s, sec, u) <= rule_score(j, t, s, sec, u));
    assert(spec_generated_topic(title, subtitle, section, url) == rule_label(j));
    assert(forall|k: int| 0 <= k < 8 ==> #[trigger] rule_score(k, t, s, sec, u) <= rule_score(j, t, s, sec, u));
    assert(forall|k: int| 0 <= k < j ==> #[trigger] rule_score(k, t, s, sec, u) < rule_score(j, t, s, sec, u));
}

/// The format topic is given only when no topic rule scores
/// `MIN_CONFIDENT_SCORE` or more, and only for a format section.
pub proof fn law_format_topic_only_without_confident_rule(
    title: Seq<char>,
    subtitle: Seq<char>,
    section: Seq<char>,
    url: Seq<char>,
)
    requires
        spec_generated_topic(title, subtitle, section, url) == FORMAT_TOPIC@,
    ensures
        spec_is_format_section(lowercase(section)),
        forall|k: int|
            0 <= k < 8 ==> #[trigger] rule_score(k, lowercase(title), lowercase(subtitle), lowercase(section), lowercase(url))
                < MIN_CONFIDENT_SCORE,
{
    let (t, s, sec, u) = (lowercase(title), lowercase(subtitle), lowercase(section), lowercase(url));
    lemma_best_rule_is_first_highest(8, t, s, sec, u);
    let j = best_rule(8, t, s, sec, u);
    reveal_strlit("Rezensionen, Essays & Interviews");
    reveal_strlit("Allgemein / Sonstiges");
    reveal_strlit("Politik & Staat");
    reveal_strlit("Wirtschaft & Arbeit");
    reveal_strlit("Digitalisierung & KI");
    reveal_strlit("Theorie & Methode");
    reveal_strlit("Kultur & Medien");
    reveal_strlit("Ungleichheit & Gesellschaft");
    reveal_strlit("Geschichte & Erinnerung");
    reveal_strlit("Natur & Ökologie");
    assert(FORMAT_TOPIC@[0] == 'R');
    assert(FORMAT_TOPIC@ != rule_label(j)) by {
        assert(rule_label(j)[0] != 'R');
    }
    assert(FORMAT_TOPIC@ != GENERAL_TOPIC@) by {
        assert(GENERAL_TOPIC@[0] == 'A');
    }
}

} // verus!
