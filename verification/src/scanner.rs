//! Splits a file's content into lines, collects its source symbols, and finds
//! the symbol that encloses a range of lines.

use crate::bytes::{
    first_index_from, is_ascii_ws, law_trim_line_trims, spec_strip_line_ending, spec_trim_line, strip_line_ending, trim_line, LF,
};
use crate::language::{
    is_comment_line, law_comment_syntax, spec_is_c_style_comment_line, spec_is_comment_line,
    spec_starts_with_keyword, SourceLanguage,
};
use crate::matcher::{
    law_shared_extensions, patterns_compile, spec_is_source_symbol, PatternError, SymbolMatcher,
    OBJC_KEYWORDS,
};
use crate::pattern::{regex_compiles, regex_is_match, OBJC_PATTERN};
use core::ops::Range;
use vstd::prelude::*;

verus! {

/// The index just past the line that starts at `start`: past its `\n`, or
/// the end of the content.
pub open spec fn line_end(s: Seq<u8>, start: int) -> int {
    let k = first_index_from(s, LF, start);
    if k < s.len() {
        k + 1
    } else {
        s.len() as int
    }
}

/// The lines of `s` from index `start` on, each with its `\n` where it has one
/// (as `split_inclusive` on `\n` cuts them).
pub open spec fn lines_from(s: Seq<u8>, start: int) -> Seq<Seq<u8>>
    decreases s.len() - start,
{
    if start < 0 || start >= s.len() {
        seq![]
    } else {
        let e = line_end(s, start);
        if e <= start || e > s.len() {
            seq![]
        } else {
            seq![s.subrange(start, e)] + lines_from(s, e)
        }
    }
}

/// The lines of a file's content. Empty content has none; content that ends
/// with `\n` has no empty last line.
pub open spec fn split_lines(s: Seq<u8>) -> Seq<Seq<u8>> {
    lines_from(s, 0)
}

/// The text that stands for a line that is a symbol: the line without its
/// ending and surrounding ASCII whitespace.
pub open spec fn symbol_text(raw: Seq<u8>) -> Seq<u8> {
    spec_trim_line(spec_strip_line_ending(raw))
}

/// Whether a line of a file is a source symbol: its trimmed text is no
/// comment, and the language's rule takes it. The C-like rules see the line
/// with its leading whitespace kept, so that indented calls and control flow
/// inside a function are not taken for symbols.
pub open spec fn line_is_symbol(language: SourceLanguage, raw: Seq<u8>) -> bool {
    let line = spec_strip_line_ending(raw);
    let trimmed = spec_trim_line(line);
    let to_match = if language is CLike || language is CLikeOrObjC {
        line
    } else {
        trimmed
    };
    !spec_is_comment_line(trimmed, language) && spec_is_source_symbol(language, to_match)
}

/// The symbols among `lines`: for each line that is a symbol, in order, its
/// index and its text.
pub open spec fn symbols_of_lines(lines: Seq<Seq<u8>>, language: SourceLanguage) -> Seq<
    (int, Seq<u8>),
>
    decreases lines.len(),
{
    if lines.len() == 0 {
        seq![]
    } else {
        let before = symbols_of_lines(lines.drop_last(), language);
        let i = lines.len() - 1;
        if line_is_symbol(language, lines[i]) {
            before.push((i, symbol_text(lines[i])))
        } else {
            before
        }
    }
}

/// The source symbols of a file's content: (zero-based line index, text).
pub open spec fn spec_source_symbols(content: Seq<u8>, language: SourceLanguage) -> Seq<
    (int, Seq<u8>),
> {
    symbols_of_lines(split_lines(content), language)
}

/// A list of symbols as line indices and byte strings.
pub open spec fn symbols_view(v: Seq<(usize, &[u8])>) -> Seq<(int, Seq<u8>)> {
    v.map_values(|e: (usize, &[u8])| (e.0 as int, e.1@))
}

/// Whether the symbols' line indices strictly increase.
pub open spec fn lines_increase(s: Seq<(int, Seq<u8>)>) -> bool {
    forall|i: int, j: int| 0 <= i < j < s.len() ==> #[trigger] s[i].0 < #[trigger] s[j].0
}

proof fn lemma_first_index_bounds(s: Seq<u8>, b: u8, i: int)
    requires
        0 <= i <= s.len(),
    ensures
        i <= first_index_from(s, b, i) <= s.len(),
        first_index_from(s, b, i) < s.len() ==> s[first_index_from(s, b, i)] == b,
        forall|k: int| i <= k < first_index_from(s, b, i) ==> s[k] != b,
    decreases s.len() - i,
{
    if i < s.len() && s[i] != b {
        lemma_first_index_bounds(s, b, i + 1);
    }
}

/// Every symbol of `lines` has a line index in range, and the indices
/// strictly increase.
proof fn lemma_symbols_of_lines_ordered(lines: Seq<Seq<u8>>, language: SourceLanguage)
    ensures
        lines_increase(symbols_of_lines(lines, language)),
        forall|k: int|
            0 <= k < symbols_of_lines(lines, language).len() ==> 0 <= (
            #[trigger] symbols_of_lines(lines, language)[k]).0 < lines.len(),
    decreases lines.len(),
{
    if lines.len() > 0 {
        lemma_symbols_of_lines_ordered(lines.drop_last(), language);
    }
}

/// Collects the source symbols of `content`: for each line that is a symbol,
/// its zero-based index and its trimmed text.
pub fn source_symbols<'a>(content: &'a [u8], matcher: &SymbolMatcher) -> (r: Vec<(usize, &'a [u8])>)
    ensures
        symbols_view(r@) == spec_source_symbols(content@, matcher@),
{
    let language = matcher.language();
    let len = content.len();
    let mut symbols: Vec<(usize, &'a [u8])> = Vec::new();
    let mut pos: usize = 0;
    let mut index: usize = 0;
    let ghost mut done: Seq<Seq<u8>> = seq![];
    assert(symbols_view(symbols@) =~= seq![]);
    while pos < len
        invariant
            len == content@.len(),
            pos <= len,
            index == done.len(),
            index <= pos,
            language == matcher@,
            done + lines_from(content@, pos as int) == split_lines(content@),
            symbols_view(symbols@) == symbols_of_lines(done, language),
        decreases len - pos,
    {
        let mut j: usize = pos;
        while j < len && content[j] != LF
            invariant
                pos <= j <= len,
                len == content@.len(),
                first_index_from(content@, LF, pos as int) == first_index_from(
                    content@,
                    LF,
                    j as int,
                ),
            decreases len - j,
        {
            j = j + 1;
        }
        let end = if j < len {
            j + 1
        } else {
            len
        };
        proof {
            lemma_first_index_bounds(content@, LF, pos as int);
        }
        assert(end == line_end(content@, pos as int));
        let raw = &content[pos..end];
        let ghost rest = lines_from(content@, end as int);
        assert(lines_from(content@, pos as int) == seq![raw@] + rest);
        assert(done.push(raw@) + rest =~= done + (seq![raw@] + rest));
        let line = strip_line_ending(raw);
        let trimmed = trim_line(line);
        let to_match = match language {
            SourceLanguage::CLike | SourceLanguage::CLikeOrObjC => line,
            _ => trimmed,
        };
        let is_symbol = !is_comment_line(trimmed, language) && matcher.is_source_symbol(to_match);
        proof {
            assert(done.push(raw@).drop_last() =~= done);
        }
        if is_symbol {
            let ghost old_symbols = symbols@;
            symbols.push((index, trimmed));
            assert(symbols_view(symbols@) =~= symbols_view(old_symbols).push(
                (index as int, trimmed@),
            ));
        }
        proof {
            done = done.push(raw@);
        }
        pos = end;
        index = index + 1;
    }
    assert(done =~= split_lines(content@));
    symbols
}

/// Whether entry `i` is the symbol closest before line `start`: the one with
/// the greatest line index below `start`.
pub open spec fn closest_before(s: Seq<(int, Seq<u8>)>, start: int, i: int) -> bool {
    &&& 0 <= i < s.len()
    &&& s[i].0 < start
    &&& forall|j: int| 0 <= j < s.len() && #[trigger] s[j].0 < start ==> s[j].0 <= s[i].0
}

/// Whether entry `i` is the first symbol within lines `start..end`.
pub open spec fn first_within(s: Seq<(int, Seq<u8>)>, start: int, end: int, i: int) -> bool {
    &&& 0 <= i < s.len()
    &&& start <= s[i].0 < end
    &&& forall|j: int| 0 <= j < s.len() && start <= #[trigger] s[j].0 < end ==> s[i].0 <= s[j].0
}

/// Whether a symbol sits on line `line`.
pub open spec fn symbol_on(s: Seq<(int, Seq<u8>)>, line: int) -> bool {
    exists|i: int| 0 <= i < s.len() && #[trigger] s[i].0 == line
}

/// The symbol for the lines `start..end`: the symbol on the first line of
/// the range where the range is nonempty; else the closest symbol strictly
/// before the range; else, for a range that adds new lines, the first symbol
/// within it; else none.
pub open spec fn enclosing_symbol(s: Seq<(int, Seq<u8>)>, start: int, end: int) -> Option<
    Seq<u8>,
> {
    if start < end && symbol_on(s, start) {
        Some(s[choose|i: int| 0 <= i < s.len() && #[trigger] s[i].0 == start].1)
    } else if exists|i: int| closest_before(s, start, i) {
        Some(s[choose|i: int| closest_before(s, start, i)].1)
    } else if exists|i: int| first_within(s, start, end, i) {
        Some(s[choose|i: int| first_within(s, start, end, i)].1)
    } else {
        None
    }
}

/// Finds source symbols near line ranges in one version of a file.
///
/// A scanner holds the symbols of a single file content, so it can also
/// serve diffs with more than two sides.
pub struct SourceSymbolScanner<'a> {
    symbols: Vec<(usize, &'a [u8])>,
}

impl<'a> View for SourceSymbolScanner<'a> {
    type V = Seq<(int, Seq<u8>)>;

    closed spec fn view(&self) -> Seq<(int, Seq<u8>)> {
        symbols_view(self.symbols@)
    }
}

impl<'a> SourceSymbolScanner<'a> {
    #[verifier::type_invariant]
    closed spec fn ordered(self) -> bool {
        lines_increase(symbols_view(self.symbols@))
    }

    /// Collects the symbols of `content` by the rule of `matcher`.
    pub fn with_matcher(matcher: &SymbolMatcher, content: &'a [u8]) -> (r: Self)
        ensures
            r@ == spec_source_symbols(content@, matcher@),
    {
        let symbols = source_symbols(content, matcher);
        proof {
            lemma_symbols_of_lines_ordered(split_lines(content@), matcher@);
        }
        SourceSymbolScanner { symbols }
    }

    /// Collects the symbols of `content` in `language`. Fails where `regex`
    /// refuses one of the language's patterns.
    pub fn new(language: SourceLanguage, content: &'a [u8]) -> (r: Result<Self, PatternError>)
        ensures
            r is Ok <==> patterns_compile(language),
            r matches Ok(scanner) ==> scanner@ == spec_source_symbols(content@, language),
            r matches Err(e) ==> !regex_compiles(e.pattern@),
    {
        let matcher = SymbolMatcher::new(language)?;
        Ok(Self::with_matcher(&matcher, content))
    }

    /// Finds a symbol on the first line of a nonempty range, or the closest
    /// symbol strictly before the range.
    ///
    /// If there is no preceding symbol, the first symbol in the changed range
    /// is returned. This is useful for newly-added sections.
    pub fn find(&self, line_range: &Range<usize>) -> (r: Option<&'a [u8]>)
        ensures
            match r {
                Some(text) => enclosing_symbol(
                    self@,
                    line_range.start as int,
                    line_range.end as int,
                ) == Some(text@),
                None => enclosing_symbol(
                    self@,
                    line_range.start as int,
                    line_range.end as int,
                ) is None,
            },
    {
        proof {
            use_type_invariant(self);
        }
        let ghost s = self@;
        let start = line_range.start;
        let end = line_range.end;
        let n = self.symbols.len();
        let mut lo: usize = 0;
        let mut hi: usize = n;
        while lo < hi
            invariant
                lo <= hi <= n,
                n == s.len(),
                s == symbols_view(self.symbols@),
                lines_increase(s),
                forall|i: int| 0 <= i < lo ==> #[trigger] s[i].0 < start,
                forall|i: int| hi <= i < n ==> #[trigger] s[i].0 >= start,
            decreases hi - lo,
        {
            let mid = lo + (hi - lo) / 2;
            assert(s[mid as int].0 == self.symbols@[mid as int].0);
            if self.symbols[mid].0 < start {
                assert forall|i: int| 0 <= i < mid + 1 implies #[trigger] s[i].0 < start by {
                    if i < mid {
                        assert(s[i].0 < s[mid as int].0);
                    }
                }
                lo = mid + 1;
            } else {
                assert forall|i: int| mid <= i < n implies #[trigger] s[i].0 >= start by {
                    if i > mid {
                        assert(s[mid as int].0 < s[i].0);
                    }
                }
                hi = mid;
            }
        }
        let p = lo;
        if p < n && self.symbols[p].0 == start && start < end {
            assert(s[p as int].0 == start);
            let ghost c = choose|i: int| 0 <= i < s.len() && #[trigger] s[i].0 == start;
            assert(c == p as int) by {
                if c < p {
                    assert(s[c].0 < s[p as int].0);
                } else if c > p {
                    assert(s[p as int].0 < s[c].0);
                }
            }
            return Some(self.symbols[p].1);
        }
        assert(!(start < end && symbol_on(s, start as int))) by {
            if start < end && symbol_on(s, start as int) {
                let c = choose|i: int| 0 <= i < s.len() && #[trigger] s[i].0 == start;
                if c > p {
                    assert(s[p as int].0 < s[c].0);
                }
            }
        }
        if p > 0 {
            let q = p - 1;
            assert(closest_before(s, start as int, q as int)) by {
                assert forall|j: int| 0 <= j < s.len() && #[trigger] s[j].0 < start implies s[j].0
                    <= s[q as int].0 by {
                    if j > q {
                        assert(s[j].0 >= start);
                    } else if j < q {
                        assert(s[j].0 < s[q as int].0);
                    }
                }
            }
            let ghost c = choose|i: int| closest_before(s, start as int, i);
            assert(c == q as int) by {
                if c < q {
                    assert(s[c].0 < s[q as int].0);
                } else if c > q {
                    assert(s[q as int].0 < s[c].0);
                }
            }
            return Some(self.symbols[q].1);
        }
        assert(!exists|i: int| closest_before(s, start as int, i)) by {
            if exists|i: int| closest_before(s, start as int, i) {
                let c = choose|i: int| closest_before(s, start as int, i);
                assert(s[c].0 >= start);
            }
        }
        if p < n && self.symbols[p].0 < end {
            assert(first_within(s, start as int, end as int, 0)) by {
                assert forall|j: int| 0 <= j < s.len() && start <= #[trigger] s[j].0 < end implies s[0].0
                    <= s[j].0 by {
                    if j > 0 {
                        assert(s[0].0 < s[j].0);
                    }
                }
            }
            let ghost c = choose|i: int| first_within(s, start as int, end as int, i);
            assert(c == 0) by {
                if c > 0 {
                    assert(s[0].0 < s[c].0);
                }
            }
            return Some(self.symbols[0].1);
        }
        assert(!exists|i: int| first_within(s, start as int, end as int, i)) by {
            if exists|i: int| first_within(s, start as int, end as int, i) {
                let c = choose|i: int| first_within(s, start as int, end as int, i);
                if c > 0 {
                    assert(s[0].0 < s[c].0);
                }
                assert(s[0].0 == self.symbols@[0].0);
            }
        }
        None
    }
}

/// The symbols of a file's content have line indices that strictly increase,
/// and each indexes one of the content's lines.
pub proof fn law_symbols_ordered(content: Seq<u8>, language: SourceLanguage)
    ensures
        lines_increase(spec_source_symbols(content, language)),
        forall|k: int|
            0 <= k < spec_source_symbols(content, language).len() ==> 0 <= (
            #[trigger] spec_source_symbols(content, language)[k]).0 < split_lines(content).len(),
{
    lemma_symbols_of_lines_ordered(split_lines(content), language);
}

proof fn lemma_symbols_of_lines_members(lines: Seq<Seq<u8>>, language: SourceLanguage, i: int, text: Seq<u8>)
    ensures
        symbols_of_lines(lines, language).contains((i, text)) <==> (0 <= i < lines.len()
            && line_is_symbol(language, lines[i]) && text == symbol_text(lines[i])),
    decreases lines.len(),
{
    if lines.len() > 0 {
        let before = symbols_of_lines(lines.drop_last(), language);
        let last = lines.len() - 1;
        lemma_symbols_of_lines_members(lines.drop_last(), language, i, text);
        lemma_symbols_of_lines_ordered(lines.drop_last(), language);
        if line_is_symbol(language, lines[last]) {
            let after = before.push((last, symbol_text(lines[last])));
            if after.contains((i, text)) {
                let k = choose|k: int| 0 <= k < after.len() && after[k] == (i, text);
                if k < before.len() {
                    assert(before[k] == (i, text));
                }
            }
            if i == last && text == symbol_text(lines[last]) {
                assert(after[before.len() as int] == (i, text));
            }
            if before.contains((i, text)) {
                let k = choose|k: int| 0 <= k < before.len() && before[k] == (i, text);
                assert(after[k] == (i, text));
            }
        }
    }
}

/// A pair (line index, text) is among the symbols of a file's content exactly
/// when that line of the content is a symbol and the text is the line
/// trimmed. In particular, no comment line is ever a symbol.
pub proof fn law_symbols_are_symbol_lines(content: Seq<u8>, language: SourceLanguage, i: int, text: Seq<u8>)
    ensures
        spec_source_symbols(content, language).contains((i, text)) <==> (0 <= i < split_lines(
            content,
        ).len() && line_is_symbol(language, split_lines(content)[i]) && text == symbol_text(
            split_lines(content)[i],
        )),
        spec_source_symbols(content, language).contains((i, text)) ==> !spec_is_comment_line(
            text,
            language,
        ),
{
    lemma_symbols_of_lines_members(split_lines(content), language, i, text);
}

/// The bytes of a sequence of lines, joined.
pub open spec fn join_lines(lines: Seq<Seq<u8>>) -> Seq<u8>
    decreases lines.len(),
{
    if lines.len() == 0 {
        seq![]
    } else {
        lines[0] + join_lines(lines.drop_first())
    }
}

proof fn lemma_lines_from_join(s: Seq<u8>, start: int)
    requires
        0 <= start <= s.len(),
    ensures
        join_lines(lines_from(s, start)) == s.subrange(start, s.len() as int),
        forall|k: int|
            0 <= k < lines_from(s, start).len() ==> {
                let line = #[trigger] lines_from(s, start)[k];
                &&& line.len() > 0
                &&& forall|m: int| 0 <= m < line.len() - 1 ==> line[m] != LF
                &&& k < lines_from(s, start).len() - 1 ==> line.last() == LF
            },
    decreases s.len() - start,
{
    if start < s.len() {
        lemma_first_index_bounds(s, LF, start);
        let e = line_end(s, start);
        lemma_lines_from_join(s, e);
        let lines = lines_from(s, start);
        assert(lines.drop_first() =~= lines_from(s, e));
        assert(s.subrange(start, s.len() as int) =~= s.subrange(start, e) + s.subrange(
            e,
            s.len() as int,
        ));
        assert forall|k: int| 0 <= k < lines.len() implies {
            let line = #[trigger] lines[k];
            &&& line.len() > 0
            &&& forall|m: int| 0 <= m < line.len() - 1 ==> line[m] != LF
            &&& k < lines.len() - 1 ==> line.last() == LF
        } by {
            if k > 0 {
                assert(lines[k] == lines_from(s, e)[k - 1]);
            } else {
                let line = lines[0];
                assert forall|m: int| 0 <= m < line.len() - 1 implies line[m] != LF by {
                    assert(line[m] == s[start + m]);
                }
                if k < lines.len() - 1 {
                    assert(lines_from(s, e).len() > 0);
                    assert(e < s.len());
                }
            }
        }
    } else {
        assert(s.subrange(start, s.len() as int) =~= seq![]);
    }
}

/// The lines of a file's content, joined, are the content; each line is
/// nonempty, holds `\n` only as its last byte, and every line but the last
/// ends with `\n`.
pub proof fn law_lines_cover_content(content: Seq<u8>)
    ensures
        join_lines(split_lines(content)) == content,
        forall|k: int|
            0 <= k < split_lines(content).len() ==> {
                let line = #[trigger] split_lines(content)[k];
                &&& line.len() > 0
                &&& forall|m: int| 0 <= m < line.len() - 1 ==> line[m] != LF
                &&& k < split_lines(content).len() - 1 ==> line.last() == LF
            },
{
    lemma_lines_from_join(content, 0);
    assert(content.subrange(0, content.len() as int) =~= content);
}

/// On a nonempty range, a symbol on the range's first line is the one found,
/// ahead of any symbol before the range.
pub proof fn law_symbol_on_first_line_wins(s: Seq<(int, Seq<u8>)>, start: int, end: int, i: int)
    requires
        lines_increase(s),
        0 <= i < s.len(),
        s[i].0 == start,
        start < end,
    ensures
        enclosing_symbol(s, start, end) == Some(s[i].1),
{
    assert(symbol_on(s, start));
    let c = choose|k: int| 0 <= k < s.len() && #[trigger] s[k].0 == start;
    if c < i {
        assert(s[c].0 < s[i].0);
    } else if c > i {
        assert(s[i].0 < s[c].0);
    }
}

/// Where no symbol sits on the first line of a nonempty range (or the range
/// is empty), the closest symbol strictly before the range is found, ahead of
/// any symbol within the range.
pub proof fn law_closest_preceding_symbol(s: Seq<(int, Seq<u8>)>, start: int, end: int, i: int)
    requires
        lines_increase(s),
        0 <= i < s.len(),
        s[i].0 < start,
        forall|j: int| 0 <= j < s.len() && #[trigger] s[j].0 < start ==> s[j].0 <= s[i].0,
        !(start < end && symbol_on(s, start)),
    ensures
        enclosing_symbol(s, start, end) == Some(s[i].1),
{
    assert(closest_before(s, start, i));
    let c = choose|k: int| closest_before(s, start, k);
    if c < i {
        assert(s[c].0 < s[i].0);
    } else if c > i {
        assert(s[i].0 < s[c].0);
    }
}

/// Where no symbol lies before the range and none on its first line, the
/// first symbol within the range is found, or none where the range holds
/// none.
pub proof fn law_first_symbol_within(s: Seq<(int, Seq<u8>)>, start: int, end: int)
    requires
        lines_increase(s),
        forall|j: int| 0 <= j < s.len() ==> #[trigger] s[j].0 >= start,
        !(start < end && symbol_on(s, start)),
    ensures
        (exists|j: int| 0 <= j < s.len() && start <= #[trigger] s[j].0 < end) ==> enclosing_symbol(
            s,
            start,
            end,
        ) == Some(s[0].1),
        !(exists|j: int| 0 <= j < s.len() && start <= #[trigger] s[j].0 < end) ==> enclosing_symbol(
            s,
            start,
            end,
        ) is None,
{
    if exists|j: int| closest_before(s, start, j) {
        let c = choose|j: int| closest_before(s, start, j);
        assert(s[c].0 >= start);
    }
    if exists|j: int| 0 <= j < s.len() && start <= #[trigger] s[j].0 < end {
        let w = choose|j: int| 0 <= j < s.len() && start <= #[trigger] s[j].0 < end;
        if w > 0 {
            assert(s[0].0 < s[w].0);
        }
        assert(first_within(s, start, end, 0)) by {
            assert forall|j: int| 0 <= j < s.len() && start <= #[trigger] s[j].0 < end implies s[0].0
                <= s[j].0 by {
                if j > 0 {
                    assert(s[0].0 < s[j].0);
                }
            }
        }
        let c = choose|j: int| first_within(s, start, end, j);
        if c > 0 {
            assert(s[0].0 < s[c].0);
        }
    } else {
        if exists|j: int| first_within(s, start, end, j) {
            let c = choose|j: int| first_within(s, start, end, j);
            assert(start <= s[c].0 < end);
        }
    }
}

/// What is found for a range `start..end` (with `start <= end`) is always
/// the text of one of the symbols, on a line before the range's end; for an
/// empty range, on a line before its start.
pub proof fn law_found_symbol_precedes_end(s: Seq<(int, Seq<u8>)>, start: int, end: int)
    requires
        start <= end,
    ensures
        enclosing_symbol(s, start, end) matches Some(text) ==> exists|i: int|
            0 <= i < s.len() && s[i].1 == text && #[trigger] s[i].0 < end && (start < end
                || s[i].0 < start),
{
    if start < end && symbol_on(s, start) {
        let c = choose|i: int| 0 <= i < s.len() && #[trigger] s[i].0 == start;
        assert(s[c].0 < end);
    } else if exists|i: int| closest_before(s, start, i) {
        let c = choose|i: int| closest_before(s, start, i);
        assert(s[c].0 < start);
    } else if exists|i: int| first_within(s, start, end, i) {
        let c = choose|i: int| first_within(s, start, end, i);
        assert(s[c].0 < end);
    }
}

/// In C-like files, a line indented by ASCII whitespace is never a symbol:
/// calls and control flow inside a function are left out, and so, by
/// design, are indented class methods and namespace members.
pub proof fn law_indented_c_like_lines_are_not_symbols(raw: Seq<u8>)
    requires
        spec_strip_line_ending(raw).len() > 0,
        is_ascii_ws(raw[0]),
    ensures
        !line_is_symbol(SourceLanguage::CLike, raw),
{
    assert(spec_strip_line_ending(raw)[0] == raw[0]);
}

/// In `.h` and `.mm` files, as in C-like files, the C-like rule sees a line
/// with its indentation kept: an indented line is a symbol exactly when its
/// trimmed text is no comment, does not open with an Objective-C statement
/// keyword, and matches the Objective-C pattern.
pub proof fn law_indented_shared_lines(raw: Seq<u8>)
    requires
        spec_strip_line_ending(raw).len() > 0,
        is_ascii_ws(raw[0]),
    ensures
        line_is_symbol(SourceLanguage::CLikeOrObjC, raw) <==> (!spec_is_c_style_comment_line(
            symbol_text(raw),
        ) && !spec_starts_with_keyword(symbol_text(raw), OBJC_KEYWORDS@) && regex_is_match(
            OBJC_PATTERN@,
            symbol_text(raw),
        )),
        !line_is_symbol(SourceLanguage::CLike, raw),
{
    let line = spec_strip_line_ending(raw);
    assert(line[0] == raw[0]);
    law_shared_extensions(line, SourceLanguage::CLikeOrObjC);
    law_trim_line_trims(line);
    assert(spec_trim_line(spec_trim_line(line)) == spec_trim_line(line));
}

/// Outside the C-like languages, a line's indentation and line ending play no
/// part: a line is a symbol exactly when its trimmed text is no comment and
/// the language's rule takes that text. In the languages without comment
/// syntax (BibTeX, device tree, HTML, INI, Markdown, MATLAB, Pascal,
/// Scheme), every line that the rule takes is a symbol.
pub proof fn law_trimmed_lines_decide(raw: Seq<u8>, language: SourceLanguage)
    requires
        !(language is CLike || language is CLikeOrObjC),
    ensures
        line_is_symbol(language, raw) <==> (!spec_is_comment_line(symbol_text(raw), language)
            && spec_is_source_symbol(language, symbol_text(raw))),
        (language is BibTeX || language is Dts || language is Html || language is Ini
            || language is Markdown || language is Matlab || language is Pascal
            || language is Scheme) ==> (line_is_symbol(language, raw) <==> spec_is_source_symbol(
            language,
            symbol_text(raw),
        )),
{
    law_comment_syntax(symbol_text(raw), language);
}

} // verus!
