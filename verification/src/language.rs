//! Languages, chosen by file name, and their comment and keyword rules.

use crate::bytes::{has_prefix, is_ascii_whitespace, is_ascii_ws};
use vstd::prelude::*;
use vstd::string::StringSliceAdditionalSpecFns;

verus! {

/// The languages whose source symbols can be found. `MatlabOrObjC` and
/// `CLikeOrObjC` stand for file extensions shared by two languages; their
/// lines are tried against both.
#[derive(Clone, Copy, Debug, PartialEq, Eq, Structural)]
pub enum SourceLanguage {
    BibTeX,
    CLike,
    CSharp,
    Dts,
    Elixir,
    Go,
    Html,
    Ini,
    Java,
    JavaScript,
    Kotlin,
    Markdown,
    Matlab,
    MatlabOrObjC,
    ObjC,
    CLikeOrObjC,
    Pascal,
    Perl,
    Php,
    Python,
    R,
    Ruby,
    Rust,
    Scheme,
    Shell,
    Tex,
}

/// File extensions and the language each one selects. `.m` is shared by
/// MATLAB and Objective-C; Objective-C++ `.mm` files and `.h` headers may
/// hold ordinary C-like symbols too.
pub const EXTENSION_LANGUAGES: [(&'static str, SourceLanguage); 69] = [
    ("bib", SourceLanguage::BibTeX),
    ("c", SourceLanguage::CLike),
    ("cc", SourceLanguage::CLike),
    ("cpp", SourceLanguage::CLike),
    ("cxx", SourceLanguage::CLike),
    ("hh", SourceLanguage::CLike),
    ("hpp", SourceLanguage::CLike),
    ("hxx", SourceLanguage::CLike),
    ("h", SourceLanguage::CLikeOrObjC),
    ("cs", SourceLanguage::CSharp),
    ("dts", SourceLanguage::Dts),
    ("dtsi", SourceLanguage::Dts),
    ("ex", SourceLanguage::Elixir),
    ("exs", SourceLanguage::Elixir),
    ("go", SourceLanguage::Go),
    ("htm", SourceLanguage::Html),
    ("html", SourceLanguage::Html),
    ("xhtml", SourceLanguage::Html),
    ("cfg", SourceLanguage::Ini),
    ("conf", SourceLanguage::Ini),
    ("config", SourceLanguage::Ini),
    ("ini", SourceLanguage::Ini),
    ("java", SourceLanguage::Java),
    ("js", SourceLanguage::JavaScript),
    ("jsx", SourceLanguage::JavaScript),
    ("mjs", SourceLanguage::JavaScript),
    ("cjs", SourceLanguage::JavaScript),
    ("ts", SourceLanguage::JavaScript),
    ("tsx", SourceLanguage::JavaScript),
    ("kt", SourceLanguage::Kotlin),
    ("kts", SourceLanguage::Kotlin),
    ("markdown", SourceLanguage::Markdown),
    ("md", SourceLanguage::Markdown),
    ("mdown", SourceLanguage::Markdown),
    ("m", SourceLanguage::MatlabOrObjC),
    ("matlab", SourceLanguage::Matlab),
    ("mm", SourceLanguage::CLikeOrObjC),
    ("p", SourceLanguage::Pascal),
    ("pas", SourceLanguage::Pascal),
    ("pl", SourceLanguage::Perl),
    ("pm", SourceLanguage::Perl),
    ("pod", SourceLanguage::Perl),
    ("psgi", SourceLanguage::Perl),
    ("t", SourceLanguage::Perl),
    ("php", SourceLanguage::Php),
    ("php3", SourceLanguage::Php),
    ("php4", SourceLanguage::Php),
    ("php5", SourceLanguage::Php),
    ("phtml", SourceLanguage::Php),
    ("py", SourceLanguage::Python),
    ("pyw", SourceLanguage::Python),
    ("r", SourceLanguage::R),
    ("R", SourceLanguage::R),
    ("rb", SourceLanguage::Ruby),
    ("rake", SourceLanguage::Ruby),
    ("gemspec", SourceLanguage::Ruby),
    ("rs", SourceLanguage::Rust),
    ("scm", SourceLanguage::Scheme),
    ("scheme", SourceLanguage::Scheme),
    ("ss", SourceLanguage::Scheme),
    ("lisp", SourceLanguage::Scheme),
    ("lsp", SourceLanguage::Scheme),
    ("sh", SourceLanguage::Shell),
    ("bash", SourceLanguage::Shell),
    ("zsh", SourceLanguage::Shell),
    ("fish", SourceLanguage::Shell),
    ("tex", SourceLanguage::Tex),
    ("ltx", SourceLanguage::Tex),
    ("latex", SourceLanguage::Tex),
];

/// Whole file names (without a known extension) and the language each one
/// selects.
pub const FILE_NAME_LANGUAGES: [(&'static str, SourceLanguage); 2] = [
    ("Gemfile", SourceLanguage::Ruby),
    ("Rakefile", SourceLanguage::Ruby),
];

/// The byte `.`.
pub const DOT: u8 = 0x2e;

/// The language of the first entry of `table`, from index `i` on, whose name
/// is `key`.
pub open spec fn lookup_from(
    table: Seq<(&'static str, SourceLanguage)>,
    key: Seq<u8>,
    i: int,
) -> Option<SourceLanguage>
    decreases table.len() - i,
{
    if i < 0 || i >= table.len() {
        None
    } else if table[i].0.spec_bytes() == key {
        Some(table[i].1)
    } else {
        lookup_from(table, key, i + 1)
    }
}

/// The index of the last `.` before index `j` of `name`, or -1.
pub open spec fn last_dot_before(name: Seq<u8>, j: int) -> int
    decreases j,
{
    if j <= 0 || j > name.len() {
        -1
    } else if name[j - 1] == DOT {
        j - 1
    } else {
        last_dot_before(name, j - 1)
    }
}

/// The bytes after the last `.` of a file name, if it has one.
pub open spec fn extension_of(name: Seq<u8>) -> Option<Seq<u8>> {
    let d = last_dot_before(name, name.len() as int);
    if d >= 0 {
        Some(name.subrange(d + 1, name.len() as int))
    } else {
        None
    }
}

/// The language that a file name selects: by its extension where that is a
/// known one, else by the whole name.
pub open spec fn spec_language_of_file_name(name: Seq<u8>) -> Option<SourceLanguage> {
    let by_extension = match extension_of(name) {
        Some(ext) => lookup_from(EXTENSION_LANGUAGES@, ext, 0),
        None => None,
    };
    if by_extension is Some {
        by_extension
    } else {
        lookup_from(FILE_NAME_LANGUAGES@, name, 0)
    }
}

/// Whether two byte strings are equal.
pub fn bytes_equal(a: &[u8], b: &[u8]) -> (r: bool)
    ensures
        r == (a@ == b@),
{
    if a.len() != b.len() {
        return false;
    }
    let mut i: usize = 0;
    while i < a.len()
        invariant
            i <= a@.len(),
            a@.len() == b@.len(),
            forall|k: int| 0 <= k < i ==> a@[k] == b@[k],
        decreases a@.len() - i,
    {
        if a[i] != b[i] {
            return false;
        }
        i = i + 1;
    }
    assert(a@ =~= b@);
    true
}

/// The language of the first entry of `table` whose name is `key`.
fn lookup(table: &[(&'static str, SourceLanguage)], key: &[u8]) -> (r: Option<SourceLanguage>)
    ensures
        r == lookup_from(table@, key@, 0),
{
    let mut i: usize = 0;
    while i < table.len()
        invariant
            i <= table@.len(),
            lookup_from(table@, key@, 0) == lookup_from(table@, key@, i as int),
        decreases table@.len() - i,
    {
        let (name, language) = table[i];
        if bytes_equal(name.as_bytes(), key) {
            return Some(language);
        }
        i = i + 1;
    }
    None
}

impl SourceLanguage {
    /// Picks the language of a file from its name: by the text after the
    /// last `.`, or, where that selects none, by the whole name.
    pub fn from_file_name(file_name: &str) -> (r: Option<SourceLanguage>)
        ensures
            r == spec_language_of_file_name(file_name.spec_bytes()),
    {
        let name = file_name.as_bytes();
        let len = name.len();
        let mut j: usize = len;
        while j > 0 && name[j - 1] != DOT
            invariant
                j <= len,
                len == name@.len(),
                last_dot_before(name@, len as int) == last_dot_before(name@, j as int),
            decreases j,
        {
            j = j - 1;
        }
        if j > 0 {
            let extension = &name[j..len];
            let table = EXTENSION_LANGUAGES;
            let by_extension = lookup(table.as_slice(), extension);
            if by_extension.is_some() {
                return by_extension;
            }
        }
        let table = FILE_NAME_LANGUAGES;
        lookup(table.as_slice(), name)
    }
}

/// The byte `/`.
pub const SLASH: u8 = 0x2f;

/// The byte `*`.
pub const STAR: u8 = 0x2a;

/// The byte `#`.
pub const HASH: u8 = 0x23;

/// The byte `%`.
pub const PERCENT: u8 = 0x25;

/// The byte `(`.
pub const OPEN_PAREN: u8 = 0x28;

/// The byte `{`.
pub const OPEN_BRACE: u8 = 0x7b;

/// The byte `;`.
pub const SEMICOLON: u8 = 0x3b;

/// Whether a line starts with `/*` or `//`. A line that starts with `*`
/// alone is not taken for a comment: it may be a pointer-returning function.
pub open spec fn spec_is_c_style_comment_line(line: Seq<u8>) -> bool {
    line.len() >= 2 && line[0] == SLASH && (line[1] == STAR || line[1] == SLASH)
}

/// Whether a (trimmed) line is a comment in `language`.
pub open spec fn spec_is_comment_line(line: Seq<u8>, language: SourceLanguage) -> bool {
    match language {
        SourceLanguage::CLike
        | SourceLanguage::CLikeOrObjC
        | SourceLanguage::CSharp
        | SourceLanguage::Go
        | SourceLanguage::Java
        | SourceLanguage::JavaScript
        | SourceLanguage::Kotlin
        | SourceLanguage::ObjC
        | SourceLanguage::Php
        | SourceLanguage::Rust
        | SourceLanguage::MatlabOrObjC => spec_is_c_style_comment_line(line),
        SourceLanguage::Elixir
        | SourceLanguage::Perl
        | SourceLanguage::Python
        | SourceLanguage::R
        | SourceLanguage::Ruby
        | SourceLanguage::Shell => line.len() > 0 && line[0] == HASH,
        SourceLanguage::Tex => line.len() > 0 && line[0] == PERCENT,
        SourceLanguage::BibTeX
        | SourceLanguage::Dts
        | SourceLanguage::Html
        | SourceLanguage::Ini
        | SourceLanguage::Markdown
        | SourceLanguage::Matlab
        | SourceLanguage::Pascal
        | SourceLanguage::Scheme => false,
    }
}

/// Whether `line` starts with `keyword` as a whole word: the keyword is
/// followed by the end of the line, ASCII whitespace, `(`, `{` or `;`.
pub open spec fn starts_with_word(line: Seq<u8>, keyword: Seq<u8>) -> bool {
    &&& keyword.is_prefix_of(line)
    &&& line.len() == keyword.len() || {
        let next = line[keyword.len() as int];
        is_ascii_ws(next) || next == OPEN_PAREN || next == OPEN_BRACE || next == SEMICOLON
    }
}

/// Whether `line` starts with one of `keywords` as a whole word.
pub open spec fn spec_starts_with_keyword(line: Seq<u8>, keywords: Seq<&str>) -> bool {
    exists|i: int| 0 <= i < keywords.len() && starts_with_word(line, (#[trigger] keywords[i]).spec_bytes())
}

/// Whether `line` starts with one of `keywords`, followed by the end of the
/// line, ASCII whitespace, `(`, `{` or `;`.
pub fn starts_with_keyword(line: &[u8], keywords: &[&str]) -> (r: bool)
    ensures
        r == spec_starts_with_keyword(line@, keywords@),
{
    let mut i: usize = 0;
    while i < keywords.len()
        invariant
            i <= keywords@.len(),
            forall|k: int| 0 <= k < i ==> !starts_with_word(line@, (#[trigger] keywords@[k]).spec_bytes()),
        decreases keywords@.len() - i,
    {
        let keyword = keywords[i].as_bytes();
        if has_prefix(line, keyword) {
            let n = keyword.len();
            if n == line.len() || is_ascii_whitespace(line[n]) || line[n] == OPEN_PAREN
                || line[n] == OPEN_BRACE || line[n] == SEMICOLON {
                assert(starts_with_word(line@, keywords@[i as int].spec_bytes()));
                return true;
            }
        }
        i = i + 1;
    }
    false
}

/// Whether a line starts with `/*` or `//`.
pub fn is_c_style_comment_line(line: &[u8]) -> (r: bool)
    ensures
        r == spec_is_c_style_comment_line(line@),
{
    line.len() >= 2 && line[0] == SLASH && (line[1] == STAR || line[1] == SLASH)
}

/// Whether a (trimmed) line is a comment in `language`.
pub fn is_comment_line(line: &[u8], language: SourceLanguage) -> (r: bool)
    ensures
        r == spec_is_comment_line(line@, language),
{
    match language {
        SourceLanguage::CLike
        | SourceLanguage::CLikeOrObjC
        | SourceLanguage::CSharp
        | SourceLanguage::Go
        | SourceLanguage::Java
        | SourceLanguage::JavaScript
        | SourceLanguage::Kotlin
        | SourceLanguage::ObjC
        | SourceLanguage::Php
        | SourceLanguage::Rust => is_c_style_comment_line(line),
        SourceLanguage::MatlabOrObjC => is_c_style_comment_line(line),
        SourceLanguage::Elixir
        | SourceLanguage::Perl
        | SourceLanguage::Python
        | SourceLanguage::R
        | SourceLanguage::Ruby
        | SourceLanguage::Shell => line.len() > 0 && line[0] == HASH,
        SourceLanguage::Tex => line.len() > 0 && line[0] == PERCENT,
        SourceLanguage::BibTeX
        | SourceLanguage::Dts
        | SourceLanguage::Html
        | SourceLanguage::Ini
        | SourceLanguage::Markdown
        | SourceLanguage::Matlab
        | SourceLanguage::Pascal
        | SourceLanguage::Scheme => false,
    }
}

proof fn lemma_lookup_first_match(
    table: Seq<(&'static str, SourceLanguage)>,
    key: Seq<u8>,
    i: int,
    k: int,
)
    requires
        0 <= i <= k < table.len(),
        table[k].0.spec_bytes() == key,
    ensures
        exists|j: int|
            i <= j <= k && (#[trigger] table[j]).0.spec_bytes() == key && lookup_from(table, key, i)
                == Some(table[j].1) && forall|m: int|
                i <= m < j ==> (#[trigger] table[m]).0.spec_bytes() != key,
    decreases k - i,
{
    if table[i].0.spec_bytes() == key {
        assert(table[i].0.spec_bytes() == key);
    } else {
        lemma_lookup_first_match(table, key, i + 1, k);
        let j = choose|j: int|
            i + 1 <= j <= k && (#[trigger] table[j]).0.spec_bytes() == key && lookup_from(
                table,
                key,
                i + 1,
            ) == Some(table[j].1) && forall|m: int|
                i + 1 <= m < j ==> (#[trigger] table[m]).0.spec_bytes() != key;
        assert(forall|m: int| i <= m < j ==> (#[trigger] table[m]).0.spec_bytes() != key);
    }
}

proof fn lemma_lookup_no_match(table: Seq<(&'static str, SourceLanguage)>, key: Seq<u8>, i: int)
    requires
        0 <= i,
        forall|m: int| i <= m < table.len() ==> (#[trigger] table[m]).0.spec_bytes() != key,
    ensures
        lookup_from(table, key, i) is None,
    decreases table.len() - i,
{
    if i < table.len() {
        lemma_lookup_no_match(table, key, i + 1);
    }
}

proof fn lemma_last_dot(name: Seq<u8>, d: int, j: int)
    requires
        0 <= d < j <= name.len(),
        name[d] == DOT,
        forall|m: int| d < m < j ==> name[m] != DOT,
    ensures
        last_dot_before(name, j) == d,
    decreases j,
{
    if j - 1 > d {
        lemma_last_dot(name, d, j - 1);
    }
}

proof fn lemma_no_dot(name: Seq<u8>, j: int)
    requires
        0 <= j <= name.len(),
        forall|m: int| 0 <= m < j ==> name[m] != DOT,
    ensures
        last_dot_before(name, j) == -1,
    decreases j,
{
    if j > 0 {
        lemma_no_dot(name, j - 1);
    }
}

/// The extension of a file name is what follows its last `.`: for any stem
/// and any extension free of `.`, the name `stem.extension` has that
/// extension; a name with no `.` has none.
pub proof fn law_extension_follows_last_dot(stem: Seq<u8>, extension: Seq<u8>)
    ensures
        !extension.contains(DOT) ==> extension_of(stem + seq![DOT] + extension) == Some(extension),
        !stem.contains(DOT) ==> extension_of(stem) is None,
{
    let name = stem + seq![DOT] + extension;
    if !extension.contains(DOT) {
        assert forall|m: int| stem.len() < m < name.len() implies name[m] != DOT by {
            assert(name[m] == extension[m - stem.len() - 1]);
        }
        lemma_last_dot(name, stem.len() as int, name.len() as int);
        assert(name.subrange(stem.len() as int + 1, name.len() as int) =~= extension);
    }
    if !stem.contains(DOT) {
        assert forall|m: int| 0 <= m < stem.len() implies stem[m] != DOT by {
            if stem[m] == DOT {
                assert(stem.contains(DOT));
            }
        }
        lemma_no_dot(stem, stem.len() as int);
    }
}

/// Every entry of the extension table is reachable: a file name whose
/// extension is the name of entry `k` selects the language of the first
/// entry with that name (entry `k` itself, unless an earlier one shares its
/// name).
pub proof fn law_known_extension_selects(name: Seq<u8>, k: int)
    requires
        0 <= k < EXTENSION_LANGUAGES@.len(),
        extension_of(name) == Some(EXTENSION_LANGUAGES@[k].0.spec_bytes()),
    ensures
        exists|j: int|
            0 <= j <= k && (#[trigger] EXTENSION_LANGUAGES@[j]).0.spec_bytes()
                == EXTENSION_LANGUAGES@[k].0.spec_bytes() && spec_language_of_file_name(name)
                == Some(EXTENSION_LANGUAGES@[j].1) && forall|m: int|
                0 <= m < j ==> (#[trigger] EXTENSION_LANGUAGES@[m]).0.spec_bytes()
                    != EXTENSION_LANGUAGES@[k].0.spec_bytes(),
{
    lemma_lookup_first_match(EXTENSION_LANGUAGES@, EXTENSION_LANGUAGES@[k].0.spec_bytes(), 0, k);
}

/// A file name with no extension, or one that no entry of the extension
/// table names, is looked up whole: it selects the language of the first
/// whole-name entry equal to it, and none where no entry is.
pub proof fn law_unknown_extension_uses_whole_name(name: Seq<u8>, k: int)
    requires
        forall|m: int|
            0 <= m < EXTENSION_LANGUAGES@.len() ==> extension_of(name) != Some(
                (#[trigger] EXTENSION_LANGUAGES@[m]).0.spec_bytes(),
            ),
    ensures
        (0 <= k < FILE_NAME_LANGUAGES@.len() && FILE_NAME_LANGUAGES@[k].0.spec_bytes() == name)
            ==> exists|j: int|
            0 <= j <= k && (#[trigger] FILE_NAME_LANGUAGES@[j]).0.spec_bytes() == name
                && spec_language_of_file_name(name) == Some(FILE_NAME_LANGUAGES@[j].1),
        (forall|m: int|
            0 <= m < FILE_NAME_LANGUAGES@.len() ==> (#[trigger] FILE_NAME_LANGUAGES@[m]).0.spec_bytes()
                != name) ==> spec_language_of_file_name(name) is None,
{
    if let Some(ext) = extension_of(name) {
        assert forall|m: int| 0 <= m < EXTENSION_LANGUAGES@.len() implies (
        #[trigger] EXTENSION_LANGUAGES@[m]).0.spec_bytes() != ext by {
            assert(extension_of(name) != Some(EXTENSION_LANGUAGES@[m].0.spec_bytes()));
        }
        lemma_lookup_no_match(EXTENSION_LANGUAGES@, ext, 0);
    }
    if 0 <= k < FILE_NAME_LANGUAGES@.len() && FILE_NAME_LANGUAGES@[k].0.spec_bytes() == name {
        lemma_lookup_first_match(FILE_NAME_LANGUAGES@, name, 0, k);
    }
    if forall|m: int|
        0 <= m < FILE_NAME_LANGUAGES@.len() ==> (#[trigger] FILE_NAME_LANGUAGES@[m]).0.spec_bytes()
            != name {
        lemma_lookup_no_match(FILE_NAME_LANGUAGES@, name, 0);
    }
}

/// Comment syntax, for every line: languages of the C family (and the shared
/// `.h`, `.mm` and `.m` extensions) comment with `/*` or `//`; Elixir, Perl,
/// Python, R, Ruby and shell with `#`; TeX with `%`; BibTeX, device tree,
/// HTML, INI, Markdown, MATLAB, Pascal and Scheme lines are never taken for
/// comments.
pub proof fn law_comment_syntax(line: Seq<u8>, language: SourceLanguage)
    ensures
        (language is BibTeX || language is Dts || language is Html || language is Ini
            || language is Markdown || language is Matlab || language is Pascal
            || language is Scheme) ==> !spec_is_comment_line(line, language),
        (language is Elixir || language is Perl || language is Python || language is R
            || language is Ruby || language is Shell) ==> (spec_is_comment_line(line, language) <==> (
        line.len() > 0 && line[0] == 0x23u8)),
        language is Tex ==> (spec_is_comment_line(line, language) <==> (line.len() > 0 && line[0]
            == 0x25u8)),
        (language is CLike || language is CLikeOrObjC || language is CSharp || language is Go
            || language is Java || language is JavaScript || language is Kotlin || language is ObjC
            || language is Php || language is Rust || language is MatlabOrObjC) ==> (
        spec_is_comment_line(line, language) <==> (line.len() >= 2 && line[0] == 0x2fu8 && (line[1]
            == 0x2au8 || line[1] == 0x2fu8))),
{
}

/// A keyword opens a line as a whole word exactly when the line starts with
/// it and it is followed by the end of the line, ASCII whitespace (space,
/// tab, line feed, form feed, carriage return), `(`, `{` or `;`; a line that
/// holds one of several keywords so is refused by all of them together.
pub proof fn law_keyword_boundary(line: Seq<u8>, keyword: Seq<u8>, keywords: Seq<&str>)
    ensures
        starts_with_word(line, keyword) <==> (keyword.len() <= line.len() && line.take(
            keyword.len() as int,
        ) == keyword && (line.len() == keyword.len() || line[keyword.len() as int] == 0x20u8
            || line[keyword.len() as int] == 0x09u8 || line[keyword.len() as int] == 0x0au8
            || line[keyword.len() as int] == 0x0cu8 || line[keyword.len() as int] == 0x0du8
            || line[keyword.len() as int] == 0x28u8 || line[keyword.len() as int] == 0x7bu8
            || line[keyword.len() as int] == 0x3bu8)),
        spec_starts_with_keyword(line, keywords) <==> exists|i: int|
            0 <= i < keywords.len() && starts_with_word(line, (#[trigger] keywords[i]).spec_bytes()),
{
}

} // verus!
