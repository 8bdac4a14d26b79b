use vstd::prelude::*;
use vstd::utf8::encode_utf8;
use crate::options::Options;

verus! {

// ---------------------------------------------------------------------------
// Character sequences
// ---------------------------------------------------------------------------

/// What `str::to_lowercase` makes of a text.
pub uninterp spec fn lower_of(s: Seq<char>) -> Seq<char>;

/// Relies on `str::to_lowercase`: the lower-case form of a text, which
/// depends on its characters alone.
#[verifier::external_body]
pub(crate) fn lowercase(s: &str) -> (r: String)
    ensures
        r@ == lower_of(s@),
{
    s.to_lowercase()
}

/// The characters of a text, in order.
pub(crate) fn chars_of(s: &str) -> (r: Vec<char>)
    ensures
        r@ == s@,
{
    let mut r: Vec<char> = Vec::new();
    for c in it: s.chars()
        invariant
            it.seq() == s@,
            r@ == s@.take(it.index() as int),
        ensures
            r@ == s@,
    {
        r.push(c);
        assert(r@ =~= s@.take(it.index() + 1));
    }
    r
}

/// Relies on `String: FromIterator<char>`: the text made of the given
/// characters, in order.
#[verifier::external_body]
pub(crate) fn string_of(v: Vec<char>) -> (r: String)
    ensures
        r@ == v@,
{
    v.into_iter().collect()
}

/// `needle` occurs in `hay` at position `i`.
pub open spec fn occurs_at(hay: Seq<char>, needle: Seq<char>, i: int) -> bool {
    0 <= i && i + needle.len() <= hay.len() && hay.subrange(i, i + needle.len()) == needle
}

/// `needle` occurs somewhere in `hay` (an empty needle occurs in every text).
pub open spec fn contains(hay: Seq<char>, needle: Seq<char>) -> bool {
    exists|i: int| #[trigger] occurs_at(hay, needle, i)
}

/// The characters `v[lo..hi]`.
fn copy_range(v: &Vec<char>, lo: usize, hi: usize) -> (r: Vec<char>)
    requires
        lo <= hi <= v@.len(),
    ensures
        r@ == v@.subrange(lo as int, hi as int),
{
    let mut r: Vec<char> = Vec::new();
    let mut k: usize = lo;
    while k < hi
        invariant
            lo <= k <= hi <= v@.len(),
            r@ == v@.subrange(lo as int, k as int),
        decreases hi - k,
    {
        r.push(v[k]);
        k = k + 1;
        assert(r@ =~= v@.subrange(lo as int, k as int));
    }
    r
}

/// Whether `needle` occurs in `hay` at position `i`.
pub(crate) fn occurs_at_exec(hay: &Vec<char>, needle: &Vec<char>, i: usize) -> (r: bool)
    ensures
        r == occurs_at(hay@, needle@, i as int),
{
    if i > hay.len() || needle.len() > hay.len() - i {
        return false;
    }
    let hay_len = hay.len();
    let mut k: usize = 0;
    while k < needle.len()
        invariant
            hay_len == hay@.len(),
            i + needle@.len() <= hay@.len(),
            k <= needle@.len(),
            forall|j: int| 0 <= j < k ==> hay@[i + j] == needle@[j],
        decreases needle@.len() - k,
    {
        if hay[i + k] != needle[k] {
            assert(hay@.subrange(i as int, i + needle@.len())[k as int] != needle@[k as int]);
            return false;
        }
        k = k + 1;
    }
    assert(hay@.subrange(i as int, i + needle@.len()) =~= needle@);
    true
}

/// Whether `needle` occurs somewhere in `hay`.
pub fn contains_chars(hay: &Vec<char>, needle: &Vec<char>) -> (r: bool)
    ensures
        r == contains(hay@, needle@),
{
    if needle.len() > hay.len() {
        return false;
    }
    let last = hay.len() - needle.len();
    let mut i: usize = 0;
    loop
        invariant
            last == hay@.len() - needle@.len(),
            i <= last,
            forall|j: int| 0 <= j < i ==> !occurs_at(hay@, needle@, j),
        ensures
            forall|j: int| 0 <= j <= last ==> !occurs_at(hay@, needle@, j),
        decreases last - i,
    {
        if occurs_at_exec(hay, needle, i) {
            return true;
        }
        if i == last {
            break;
        }
        i = i + 1;
    }
    assert forall|j: int| !occurs_at(hay@, needle@, j) by {
        if 0 <= j && j + needle@.len() <= hay@.len() {
            assert(j <= last);
        }
    }
    false
}

/// Whether `needle` occurs somewhere in `hay`.
pub fn contains_str(hay: &str, needle: &str) -> (r: bool)
    ensures
        r == contains(hay@, needle@),
{
    let h = chars_of(hay);
    let n = chars_of(needle);
    contains_chars(&h, &n)
}

/// Whether `s` ends with `suffix`.
pub open spec fn ends_with(s: Seq<char>, suffix: Seq<char>) -> bool {
    suffix.len() <= s.len() && s.subrange(s.len() - suffix.len(), s.len() as int) == suffix
}

/// Whether `s` ends with `suffix`.
pub fn ends_with_chars(s: &Vec<char>, suffix: &Vec<char>) -> (r: bool)
    ensures
        r == ends_with(s@, suffix@),
{
    if suffix.len() > s.len() {
        return false;
    }
    occurs_at_exec(s, suffix, s.len() - suffix.len())
}

// ---------------------------------------------------------------------------
// Lines
// ---------------------------------------------------------------------------

/// A line without the carriage return that ends it, if it has one.
pub open spec fn strip_cr(l: Seq<char>) -> Seq<char> {
    if l.len() > 0 && l.last() == '\r' {
        l.drop_last()
    } else {
        l
    }
}

/// The lines of `s[start..]`, where `s[start..j]` is known to hold no line
/// feed.
pub open spec fn lines_scan(s: Seq<char>, start: int, j: int) -> Seq<Seq<char>>
    decreases s.len() - j,
{
    if j >= s.len() {
        if start < s.len() {
            seq![s.subrange(start, s.len() as int)]
        } else {
            seq![]
        }
    } else if s[j] == '\n' {
        seq![strip_cr(s.subrange(start, j))] + lines_scan(s, j + 1, j + 1)
    } else {
        lines_scan(s, start, j + 1)
    }
}

/// The lines of a text: split at each line feed, with a carriage return
/// just before the line feed dropped, and no empty last line after a final
/// line feed. An empty text has no lines.
pub open spec fn lines_of(s: Seq<char>) -> Seq<Seq<char>> {
    lines_scan(s, 0, 0)
}

/// The character sequences of a sequence of strings.
pub open spec fn string_views(v: Seq<String>) -> Seq<Seq<char>> {
    v.map_values(|l: String| l@)
}

/// The lines of `content`, as [`lines_of`] describes them.
pub fn split_lines(content: &str) -> (r: Vec<String>)
    ensures
        string_views(r@) == lines_of(content@),
{
    let s = chars_of(content);
    let mut out: Vec<String> = Vec::new();
    let mut start: usize = 0;
    let mut j: usize = 0;
    while j < s.len()
        invariant
            start <= j <= s@.len(),
            s@ == content@,
            string_views(out@) + lines_scan(s@, start as int, j as int) == lines_of(s@),
        decreases s@.len() - j,
    {
        if s[j] == '\n' {
            let mut end: usize = j;
            if end > start && s[end - 1] == '\r' {
                end = end - 1;
            }
            let piece = copy_range(&s, start, end);
            assert(piece@ == strip_cr(s@.subrange(start as int, j as int))) by {
                if j > start && s@[j - 1] == '\r' {
                    assert(s@.subrange(start as int, j as int).drop_last()
                        =~= s@.subrange(start as int, j - 1));
                }
            }
            let ghost before = out@;
            out.push(string_of(piece));
            assert(string_views(out@) =~= string_views(before).push(piece@));
            assert(lines_scan(s@, start as int, j as int) == seq![piece@] + lines_scan(
                s@,
                j + 1,
                j + 1,
            ));
            assert(string_views(out@) + lines_scan(s@, j + 1, j + 1) =~= string_views(before)
                + lines_scan(s@, start as int, j as int));
            j = j + 1;
            start = j;
        } else {
            j = j + 1;
        }
    }
    if start < s.len() {
        let piece = copy_range(&s, start, s.len());
        let ghost before = out@;
        out.push(string_of(piece));
        assert(string_views(out@) =~= string_views(before).push(piece@));
        assert(string_views(out@) =~= string_views(before) + lines_scan(
            s@,
            start as int,
            j as int,
        ));
    } else {
        assert(string_views(out@) =~= string_views(out@) + lines_scan(
            s@,
            start as int,
            j as int,
        ));
    }
    out
}

// ---------------------------------------------------------------------------
// Matching lines
// ---------------------------------------------------------------------------

/// One matching line of a file: its number, counted from zero, and its text
/// as it stands in the file.
#[derive(Debug)]
pub struct MatchLine {
    pub line_number: usize,
    pub line_string: String,
}

impl MatchLine {
    pub fn new(line_number: usize, line_string: String) -> (r: MatchLine)
        ensures
            r.line_number == line_number,
            r.line_string == line_string,
    {
        MatchLine { line_number, line_string }
    }
}

/// The length of a line in bytes, as UTF-8.
pub open spec fn byte_len(line: Seq<char>) -> nat {
    encode_utf8(line).len()
}

/// The line holds the search text: as written, or, in case-insensitive
/// mode, once both are lower-cased.
pub open spec fn holds_search_text(line: Seq<char>, o: &Options) -> bool {
    if o.ignore_case {
        contains(lower_of(line), lower_of(o.search_text@))
    } else {
        contains(line, o.search_text@)
    }
}

/// A line is reported when it is not skipped as too long, holds the search
/// text, and, where a line-content filter is set, holds that filter too.
pub open spec fn line_matches(line: Seq<char>, o: &Options) -> bool {
    &&& !(o.filter_large_line && byte_len(line) >= o.parsed_large_line_size)
    &&& holds_search_text(line, o)
    &&& (o.filter_line_content@.len() == 0 || contains(line, o.filter_line_content@))
}

/// The matching lines among the first `n` of `lines`, in order, each with
/// its number.
pub open spec fn matches_upto(lines: Seq<Seq<char>>, n: nat, o: &Options) -> Seq<(nat, Seq<char>)>
    decreases n,
{
    if n == 0 {
        seq![]
    } else {
        let before = matches_upto(lines, (n - 1) as nat, o);
        if line_matches(lines[n - 1], o) {
            before.push(((n - 1) as nat, lines[n - 1]))
        } else {
            before
        }
    }
}

/// The matching lines of a file's content, in order, each with its number.
pub open spec fn matched_lines(content: Seq<char>, o: &Options) -> Seq<(nat, Seq<char>)> {
    matches_upto(lines_of(content), lines_of(content).len(), o)
}

/// The numbers and texts of a sequence of matching lines.
pub open spec fn match_line_views(v: Seq<MatchLine>) -> Seq<(nat, Seq<char>)> {
    v.map_values(|m: MatchLine| (m.line_number as nat, m.line_string@))
}

proof fn lemma_matches_upto_match(lines: Seq<Seq<char>>, n: nat, o: &Options)
    requires
        n <= lines.len(),
    ensures
        forall|k: int|
            0 <= k < matches_upto(lines, n, o).len() ==> {
                let m = #[trigger] matches_upto(lines, n, o)[k];
                &&& m.0 < n
                &&& m.1 == lines[m.0 as int]
                &&& line_matches(m.1, o)
            },
    decreases n,
{
    if n > 0 {
        lemma_matches_upto_match(lines, (n - 1) as nat, o);
        let before = matches_upto(lines, (n - 1) as nat, o);
        let all = matches_upto(lines, n, o);
        assert forall|k: int| 0 <= k < all.len() implies {
            let m = #[trigger] all[k];
            &&& m.0 < n
            &&& m.1 == lines[m.0 as int]
            &&& line_matches(m.1, o)
        } by {
            if k < before.len() {
                assert(all[k] == before[k]);
            }
        }
    }
}

/// Every reported line is a line of the content, under its own number, that
/// meets the matching rule. So, where long lines are filtered, no line of
/// `parsed_large_line_size` bytes or more is ever reported, whatever it
/// holds.
pub proof fn lemma_reported_lines_match(content: Seq<char>, o: &Options, k: int)
    requires
        0 <= k < matched_lines(content, o).len(),
    ensures
        matched_lines(content, o)[k].0 < lines_of(content).len(),
        matched_lines(content, o)[k].1 == lines_of(content)[matched_lines(content, o)[k].0 as int],
        line_matches(matched_lines(content, o)[k].1, o),
        o.filter_large_line ==> byte_len(matched_lines(content, o)[k].1) < o.parsed_large_line_size,
{
    lemma_matches_upto_match(lines_of(content), lines_of(content).len(), o);
}

/// The search text as it is compared: lower-cased in case-insensitive mode.
pub open spec fn effective_search_text(o: &Options) -> Seq<char> {
    if o.ignore_case {
        lower_of(o.search_text@)
    } else {
        o.search_text@
    }
}

fn line_is_match(line: &str, term: &Vec<char>, filter: &Vec<char>, o: &Options) -> (r: bool)
    requires
        term@ == effective_search_text(o),
        filter@ == o.filter_line_content@,
    ensures
        r == line_matches(line@, o),
{
    if o.filter_large_line && (line.as_bytes().len() as u64) >= o.parsed_large_line_size {
        return false;
    }
    let chars = chars_of(line);
    let hit = if o.ignore_case {
        let low = lowercase(line);
        let low_chars = chars_of(low.as_str());
        contains_chars(&low_chars, term)
    } else {
        contains_chars(&chars, term)
    };
    if !hit {
        return false;
    }
    if filter.len() == 0 {
        true
    } else {
        contains_chars(&chars, filter)
    }
}

/// The lines of `content` that match under `options`, in order, each with
/// its number counted from zero and its text as it stands in the content.
pub fn match_lines(content: &str, options: &Options) -> (r: Vec<MatchLine>)
    ensures
        match_line_views(r@) == matched_lines(content@, options),
{
    let lines = split_lines(content);
    let term = if options.ignore_case {
        let low = lowercase(options.search_text.as_str());
        chars_of(low.as_str())
    } else {
        chars_of(options.search_text.as_str())
    };
    let filter = chars_of(options.filter_line_content.as_str());
    let ghost all = lines_of(content@);
    let mut out: Vec<MatchLine> = Vec::new();
    let mut i: usize = 0;
    while i < lines.len()
        invariant
            string_views(lines@) == all,
            all == lines_of(content@),
            i <= lines@.len(),
            term@ == effective_search_text(options),
            filter@ == options.filter_line_content@,
            match_line_views(out@) == matches_upto(all, i as nat, options),
        decreases lines@.len() - i,
    {
        let line = &lines[i];
        assert(line@ == all[i as int]);
        if line_is_match(line.as_str(), &term, &filter, options) {
            let ghost before = out@;
            out.push(MatchLine::new(i, line.clone()));
            assert(match_line_views(out@) =~= match_line_views(before).push((i as nat, all[i as int])));
        }
        i = i + 1;
    }
    out
}

// ---------------------------------------------------------------------------
// Highlighting
// ---------------------------------------------------------------------------

/// The pieces of `s[start..]` between the occurrences of `t`, found left to
/// right without overlap, where no occurrence starts in `s[start..j]`.
pub open spec fn split_scan(s: Seq<char>, t: Seq<char>, start: int, j: int) -> Seq<Seq<char>>
    decreases s.len() - j,
{
    if t.len() == 0 || j + t.len() > s.len() {
        seq![s.subrange(start, s.len() as int)]
    } else if occurs_at(s, t, j) {
        seq![s.subrange(start, j)] + split_scan(s, t, j + t.len(), j + t.len())
    } else {
        split_scan(s, t, start, j + 1)
    }
}

/// The pieces of `s` between the occurrences of `t`, found left to right
/// without overlap. An empty `t` leaves `s` whole.
pub open spec fn split_on(s: Seq<char>, t: Seq<char>) -> Seq<Seq<char>> {
    split_scan(s, t, 0, 0)
}

/// The pieces joined, with `sep` between each two of them.
pub open spec fn join_with(parts: Seq<Seq<char>>, sep: Seq<char>) -> Seq<char>
    decreases parts.len(),
{
    if parts.len() == 0 {
        seq![]
    } else if parts.len() == 1 {
        parts[0]
    } else {
        parts[0] + sep + join_with(parts.drop_first(), sep)
    }
}

proof fn lemma_split_scan_rejoins(s: Seq<char>, t: Seq<char>, start: int, j: int)
    requires
        0 <= start <= j <= s.len(),
    ensures
        split_scan(s, t, start, j).len() >= 1,
        join_with(split_scan(s, t, start, j), t) == s.subrange(start, s.len() as int),
    decreases s.len() - j,
{
    if t.len() == 0 || j + t.len() > s.len() {
    } else if occurs_at(s, t, j) {
        let m = t.len() as int;
        lemma_split_scan_rejoins(s, t, j + m, j + m);
        let rest = split_scan(s, t, j + m, j + m);
        let parts = split_scan(s, t, start, j);
        assert(parts == seq![s.subrange(start, j)] + rest);
        assert(parts.drop_first() =~= rest);
        assert(s.subrange(start, j) + t + s.subrange(j + m, s.len() as int) =~= s.subrange(
            start,
            s.len() as int,
        ));
    } else {
        lemma_split_scan_rejoins(s, t, start, j + 1);
    }
}

/// Joining the pieces of a line, split at each occurrence of a search
/// text, with that search text between them gives back the line exactly.
pub proof fn lemma_highlight_rejoins(line: Seq<char>, search: Seq<char>)
    ensures
        join_with(split_on(line, search), search) == line,
{
    lemma_split_scan_rejoins(line, search, 0, 0);
    assert(line.subrange(0, line.len() as int) =~= line);
}

/// The pieces of `text` between the occurrences of `sep`, found left to
/// right without overlap, as [`split_on`] describes them.
pub fn split_text(text: &str, sep: &str) -> (r: Vec<String>)
    ensures
        string_views(r@) == split_on(text@, sep@),
{
    let s = chars_of(text);
    let t = chars_of(sep);
    let mut out: Vec<String> = Vec::new();
    let mut start: usize = 0;
    let mut j: usize = 0;
    if t.len() > 0 {
        while t.len() <= s.len() - j
            invariant
                start <= j <= s@.len(),
                s@ == text@,
                t@ == sep@,
                t@.len() > 0,
                string_views(out@) + split_scan(s@, t@, start as int, j as int) == split_on(
                    s@,
                    t@,
                ),
            decreases s@.len() - j,
        {
            if occurs_at_exec(&s, &t, j) {
                let piece = copy_range(&s, start, j);
                let ghost before = out@;
                out.push(string_of(piece));
                assert(string_views(out@) =~= string_views(before).push(piece@));
                let next = j + t.len();
                assert(string_views(out@) + split_scan(s@, t@, next as int, next as int)
                    =~= string_views(before) + split_scan(s@, t@, start as int, j as int));
                j = next;
                start = next;
            } else {
                j = j + 1;
            }
        }
    }
    let piece = copy_range(&s, start, s.len());
    let ghost before = out@;
    out.push(string_of(piece));
    assert(string_views(out@) =~= string_views(before).push(piece@));
    assert(string_views(out@) =~= string_views(before) + split_scan(
        s@,
        t@,
        start as int,
        j as int,
    ));
    out
}

impl MatchLine {
    /// The pieces in which this line is shown. In case-insensitive mode the
    /// line is shown whole, with nothing highlighted; otherwise it is split
    /// at each occurrence of the search text, which is shown highlighted
    /// between each two pieces.
    pub fn display_parts(&self, options: &Options) -> (r: Vec<String>)
        ensures
            string_views(r@) == (if options.ignore_case {
                seq![self.line_string@]
            } else {
                split_on(self.line_string@, options.search_text@)
            }),
    {
        if options.ignore_case {
            let mut r: Vec<String> = Vec::new();
            r.push(self.line_string.clone());
            assert(string_views(r@) =~= seq![self.line_string@]);
            r
        } else {
            split_text(self.line_string.as_str(), options.search_text.as_str())
        }
    }
}

} // verus!
