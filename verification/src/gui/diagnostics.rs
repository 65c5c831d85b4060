//! What the diagnostics screen shows of the log.
use vstd::prelude::*;
use crate::gui::state::App;
use crate::text::{
    append_chars, chars_of, decimal, join, join_vec, lit, split, split_vec, string_of, trim, trim_vec,
    usize_to_string, views,
};

verus! {

/// A line without the carriage return of a `\r\n` ending.
pub open spec fn without_cr(l: Seq<char>) -> Seq<char> {
    if l.len() > 0 && l.last() == '\r' {
        l.drop_last()
    } else {
        l
    }
}

/// The lines of `s` as `str::lines` gives them: the pieces between
/// newlines, no empty piece after a final newline, and each piece that a
/// newline ends without the carriage return before it.
pub open spec fn text_lines(s: Seq<char>) -> Seq<Seq<char>> {
    let parts = split(s, "\n"@);
    if s.len() == 0 {
        Seq::empty()
    } else if s.last() == '\n' {
        parts.drop_last().map_values(|l: Seq<char>| without_cr(l))
    } else {
        parts.drop_last().map_values(|l: Seq<char>| without_cr(l)).push(parts.last())
    }
}

/// The last `max_lines` lines of the log text `raw`, joined by newlines, or
/// a note that the log is empty when they hold only whitespace.
pub open spec fn spec_log_excerpt(raw: Seq<char>, max_lines: usize) -> Seq<char> {
    let lines = text_lines(raw);
    let start = if lines.len() > max_lines { lines.len() - max_lines } else { 0 };
    let excerpt = join(lines.skip(start as int), "\n"@);
    if trim(excerpt).len() == 0 {
        "Log is currently empty."@
    } else {
        excerpt
    }
}

/// The end of the log shown on the diagnostics screen.
pub fn log_excerpt(raw: &str, max_lines: usize) -> (res: String)
    ensures
        res@ == spec_log_excerpt(raw@, max_lines),
{
    let text = chars_of(raw);
    let parts = split_vec(&text, &lit("\n"));
    proof {
        reveal_strlit("\n");
    }
    let ghost pv = views(parts@);
    let mut lines: Vec<Vec<char>> = Vec::new();
    if text.len() > 0 {
        let n: usize = parts.len();
        assert(n == pv.len());
        assert(n >= 1);
        let mut i: usize = 0;
        while i + 1 < n
            invariant
                1 <= n,
                n == pv.len(),
                pv == views(parts@),
                i + 1 <= n,
                views(lines@) =~= pv.take(i as int).map_values(|l: Seq<char>| without_cr(l)),
            decreases n - i,
        {
            let part = &parts[i];
            let mut line: Vec<char> = chars_of(string_of(part).as_str());
            if line.len() > 0 && line[line.len() - 1] == '\r' {
                line.pop();
            }
            assert(part@ == pv[i as int]);
            assert(line@ == without_cr(pv[i as int]));
            let ghost before = lines@;
            lines.push(line);
            assert(views(lines@) =~= views(before).push(without_cr(pv[i as int])));
            assert(pv.take(i + 1).map_values(|l: Seq<char>| without_cr(l)) =~= pv.take(i as int).map_values(
                |l: Seq<char>| without_cr(l),
            ).push(without_cr(pv[i as int])));
            i = i + 1;
        }
        assert(pv.take((n - 1) as int) =~= pv.drop_last());
        if text[text.len() - 1] != '\n' {
            let ghost before = lines@;
            lines.push(chars_of(string_of(&parts[n - 1]).as_str()));
            assert(views(lines@) =~= views(before).push(pv.last()));
        }
    } else {
        assert(views(lines@) =~= Seq::<Seq<char>>::empty());
    }
    let ghost all = views(lines@);
    assert(all == text_lines(raw@));
    let count: usize = lines.len();
    let start: usize = if count > max_lines { count - max_lines } else { 0 };
    let mut kept: Vec<Vec<char>> = Vec::new();
    let mut j: usize = start;
    while j < count
        invariant
            start <= j <= count,
            count == lines@.len(),
            all == views(lines@),
            views(kept@) =~= all.subrange(start as int, j as int),
        decreases count - j,
    {
        let ghost before = kept@;
        kept.push(chars_of(string_of(&lines[j]).as_str()));
        assert(views(kept@) =~= views(before).push(all[j as int]));
        assert(all.subrange(start as int, j + 1) =~= all.subrange(start as int, j as int).push(all[j as int]));
        j = j + 1;
    }
    assert(all.subrange(start as int, count as int) =~= all.skip(start as int));
    let excerpt = join_vec(&kept, &lit("\n"));
    if trim_vec(&excerpt).len() == 0 {
        string_of(&lit("Log is currently empty."))
    } else {
        string_of(&excerpt)
    }
}

/// The folder of a support bundle made at `timestamp`.
pub fn support_bundle_dir_name(timestamp: &str) -> (res: String)
    ensures
        res@ == "support-bundle-"@ + timestamp@,
{
    let mut name = lit("support-bundle-");
    append_chars(&mut name, &chars_of(timestamp));
    string_of(&name)
}

/// The summary a support bundle opens with: the version, the current view
/// and how many articles the library and the listing hold, one per line.
pub open spec fn spec_support_summary(view: Seq<char>, library: nat, browse: nat) -> Seq<char> {
    "Soziopolis Reader 1.1.0\r\nCurrent view: "@ + view + "\r\nLibrary articles: "@ + decimal(library)
        + "\r\nBrowse articles: "@ + decimal(browse)
}

impl App {
    /// The summary written at the top of a support bundle.
    pub fn support_bundle_summary(&self) -> (res: String)
        ensures
            res@ == spec_support_summary(
                self.current_view.spec_as_str(),
                self.library.articles@.len(),
                self.browse.articles@.len(),
            ),
    {
        let mut out = lit("Soziopolis Reader 1.1.0\r\nCurrent view: ");
        append_chars(&mut out, &chars_of(self.current_view.as_str()));
        append_chars(&mut out, &lit("\r\nLibrary articles: "));
        append_chars(&mut out, &chars_of(usize_to_string(self.library.articles.len()).as_str()));
        append_chars(&mut out, &lit("\r\nBrowse articles: "));
        append_chars(&mut out, &chars_of(usize_to_string(self.browse.articles.len()).as_str()));
        string_of(&out)
    }
}

} // verus!
