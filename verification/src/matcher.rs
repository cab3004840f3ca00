//! The rule that decides whether a line is a source symbol, per language.

use crate::bytes::{
    before_first, bstr_contains, contains_byte, contains_subslice, is_ascii_whitespace,
    is_ascii_ws, prefix_before, spec_trim_line, trim_line,
};
use crate::language::{
    spec_starts_with_keyword, starts_with_keyword, starts_with_word, SourceLanguage, OPEN_PAREN,
    SEMICOLON,
};
use crate::pattern::{
    compile, regex_compiles, regex_is_match, CompiledPattern, BIBTEX_PATTERN, C_LIKE_PATTERN,
    CSHARP_PATTERN, DTS_PATTERN, ELIXIR_PATTERN, GO_PATTERN, HTML_PATTERN, INI_PATTERN,
    JAVA_PATTERN, JAVASCRIPT_PATTERN, KOTLIN_PATTERN, MARKDOWN_PATTERN, MATLAB_PATTERN,
    OBJC_PATTERN, PASCAL_PATTERN, PERL_PATTERN, PHP_PATTERN, PYTHON_PATTERN, R_PATTERN,
    RUBY_PATTERN, RUST_PATTERN, SCHEME_PATTERN, SHELL_PATTERN, TEX_PATTERN,
};
use vstd::prelude::*;
use vstd::string::StringSliceAdditionalSpecFns;

verus! {

/// Words that open control flow, not a declaration, in C-like code.
pub const C_LIKE_KEYWORDS: [&'static str; 5] = ["do", "for", "if", "switch", "while"];

/// Words that open statements, not declarations, in C#.
pub const CSHARP_KEYWORDS: [&'static str; 16] = [
    "do",
    "while",
    "for",
    "foreach",
    "if",
    "else",
    "new",
    "default",
    "return",
    "switch",
    "case",
    "throw",
    "catch",
    "using",
    "lock",
    "fixed",
];

/// Words that open statements, not declarations, in Java.
pub const JAVA_KEYWORDS: [&'static str; 10] = [
    "catch",
    "do",
    "for",
    "if",
    "instanceof",
    "new",
    "return",
    "switch",
    "throw",
    "while",
];

/// Words that open statements, not declarations, in JavaScript.
pub const JAVASCRIPT_KEYWORDS: [&'static str; 6] = ["catch", "for", "if", "switch", "while", "with"];

/// Words that open statements, not declarations, in Objective-C.
pub const OBJC_KEYWORDS: [&'static str; 7] = ["do", "for", "if", "else", "return", "switch", "while"];

/// The byte `=`.
pub const EQUALS: u8 = 0x3d;

/// The two bytes `: `, which mark a label or an initializer, not a declaration.
pub const LABEL_SEPARATOR: &'static str = ": ";

/// The pattern of a language; for the two shared extensions, that of the
/// first language tried.
pub open spec fn pattern_of(language: SourceLanguage) -> &'static str {
    match language {
        SourceLanguage::BibTeX => BIBTEX_PATTERN,
        SourceLanguage::CLike => C_LIKE_PATTERN,
        SourceLanguage::CSharp => CSHARP_PATTERN,
        SourceLanguage::Dts => DTS_PATTERN,
        SourceLanguage::Elixir => ELIXIR_PATTERN,
        SourceLanguage::Go => GO_PATTERN,
        SourceLanguage::Html => HTML_PATTERN,
        SourceLanguage::Ini => INI_PATTERN,
        SourceLanguage::Java => JAVA_PATTERN,
        SourceLanguage::JavaScript => JAVASCRIPT_PATTERN,
        SourceLanguage::Kotlin => KOTLIN_PATTERN,
        SourceLanguage::Markdown => MARKDOWN_PATTERN,
        SourceLanguage::Matlab => MATLAB_PATTERN,
        SourceLanguage::MatlabOrObjC => MATLAB_PATTERN,
        SourceLanguage::ObjC => OBJC_PATTERN,
        SourceLanguage::CLikeOrObjC => C_LIKE_PATTERN,
        SourceLanguage::Pascal => PASCAL_PATTERN,
        SourceLanguage::Perl => PERL_PATTERN,
        SourceLanguage::Php => PHP_PATTERN,
        SourceLanguage::Python => PYTHON_PATTERN,
        SourceLanguage::R => R_PATTERN,
        SourceLanguage::Ruby => RUBY_PATTERN,
        SourceLanguage::Rust => RUST_PATTERN,
        SourceLanguage::Scheme => SCHEME_PATTERN,
        SourceLanguage::Shell => SHELL_PATTERN,
        SourceLanguage::Tex => TEX_PATTERN,
    }
}

/// Whether a language stands for an extension shared by two languages, whose
/// second is Objective-C.
pub open spec fn is_shared(language: SourceLanguage) -> bool {
    language is MatlabOrObjC || language is CLikeOrObjC
}

/// The first language tried for a language (itself, unless it is shared).
pub open spec fn first_language(language: SourceLanguage) -> SourceLanguage {
    match language {
        SourceLanguage::MatlabOrObjC => SourceLanguage::Matlab,
        SourceLanguage::CLikeOrObjC => SourceLanguage::CLike,
        _ => language,
    }
}

/// The checks that a line must pass, besides its language's pattern, to be
/// a symbol in one language: C-like lines must not be indented, hold `: `
/// before their first `(`, or open with a control-flow keyword; C#, Java,
/// JavaScript and Objective-C lines must not open with a statement keyword;
/// device tree lines must hold no `;` and no `=`.
pub open spec fn spec_passes_guards(language: SourceLanguage, line: Seq<u8>) -> bool {
    match language {
        SourceLanguage::CLike => {
            &&& !(line.len() > 0 && is_ascii_ws(line[0]))
            &&& !contains_subslice(before_first(line, OPEN_PAREN), LABEL_SEPARATOR.spec_bytes())
            &&& !spec_starts_with_keyword(line, C_LIKE_KEYWORDS@)
        },
        SourceLanguage::CSharp => !spec_starts_with_keyword(line, CSHARP_KEYWORDS@),
        SourceLanguage::Dts => !line.contains(SEMICOLON) && !line.contains(EQUALS),
        SourceLanguage::Java => !spec_starts_with_keyword(line, JAVA_KEYWORDS@),
        SourceLanguage::JavaScript => !spec_starts_with_keyword(line, JAVASCRIPT_KEYWORDS@),
        SourceLanguage::ObjC => !spec_starts_with_keyword(line, OBJC_KEYWORDS@),
        _ => true,
    }
}

/// Whether a line is a symbol by the rule of one language (the shared ones
/// are resolved by [`spec_is_source_symbol`]): it passes the language's
/// checks, and the language's pattern matches it.
pub open spec fn single_rule(language: SourceLanguage, line: Seq<u8>) -> bool {
    spec_passes_guards(language, line) && regex_is_match(pattern_of(language)@, line)
}

/// Whether a line is a source symbol in `language`. A line of a shared
/// extension is a symbol where either language takes it; for `.h` and `.mm`
/// files, the Objective-C rule sees the trimmed line.
pub open spec fn spec_is_source_symbol(language: SourceLanguage, line: Seq<u8>) -> bool {
    match language {
        SourceLanguage::MatlabOrObjC => single_rule(SourceLanguage::Matlab, line) || single_rule(
            SourceLanguage::ObjC,
            line,
        ),
        SourceLanguage::CLikeOrObjC => single_rule(SourceLanguage::CLike, line) || single_rule(
            SourceLanguage::ObjC,
            spec_trim_line(line),
        ),
        _ => single_rule(language, line),
    }
}

/// Whether every pattern that a language needs compiles.
pub open spec fn patterns_compile(language: SourceLanguage) -> bool {
    &&& regex_compiles(pattern_of(language)@)
    &&& is_shared(language) ==> regex_compiles(OBJC_PATTERN@)
}

/// A pattern that `regex` refused to compile.
#[derive(Debug)]
pub struct PatternError {
    pub pattern: &'static str,
}

/// The pattern of a language, as [`pattern_of`] gives it.
fn pattern_for(language: SourceLanguage) -> (r: &'static str)
    ensures
        r == pattern_of(language),
{
    match language {
        SourceLanguage::BibTeX => BIBTEX_PATTERN,
        SourceLanguage::CLike => C_LIKE_PATTERN,
        SourceLanguage::CSharp => CSHARP_PATTERN,
        SourceLanguage::Dts => DTS_PATTERN,
        SourceLanguage::Elixir => ELIXIR_PATTERN,
        SourceLanguage::Go => GO_PATTERN,
        SourceLanguage::Html => HTML_PATTERN,
        SourceLanguage::Ini => INI_PATTERN,
        SourceLanguage::Java => JAVA_PATTERN,
        SourceLanguage::JavaScript => JAVASCRIPT_PATTERN,
        SourceLanguage::Kotlin => KOTLIN_PATTERN,
        SourceLanguage::Markdown => MARKDOWN_PATTERN,
        SourceLanguage::Matlab => MATLAB_PATTERN,
        SourceLanguage::MatlabOrObjC => MATLAB_PATTERN,
        SourceLanguage::ObjC => OBJC_PATTERN,
        SourceLanguage::CLikeOrObjC => C_LIKE_PATTERN,
        SourceLanguage::Pascal => PASCAL_PATTERN,
        SourceLanguage::Perl => PERL_PATTERN,
        SourceLanguage::Php => PHP_PATTERN,
        SourceLanguage::Python => PYTHON_PATTERN,
        SourceLanguage::R => R_PATTERN,
        SourceLanguage::Ruby => RUBY_PATTERN,
        SourceLanguage::Rust => RUST_PATTERN,
        SourceLanguage::Scheme => SCHEME_PATTERN,
        SourceLanguage::Shell => SHELL_PATTERN,
        SourceLanguage::Tex => TEX_PATTERN,
    }
}

/// Compiles a pattern, naming it in the error.
fn compile_named(pattern: &'static str) -> (r: Result<CompiledPattern, PatternError>)
    ensures
        r is Ok <==> regex_compiles(pattern@),
        r matches Ok(c) ==> c@ == pattern@,
        r matches Err(e) ==> e.pattern == pattern,
{
    match compile(pattern) {
        Ok(c) => Ok(c),
        Err(_) => Err(PatternError { pattern }),
    }
}

/// Whether a line passes the checks, besides the pattern, of one language's
/// rule.
pub fn passes_guards(language: SourceLanguage, line: &[u8]) -> (r: bool)
    ensures
        r == spec_passes_guards(language, line@),
{
    match language {
        SourceLanguage::CLike => {
            let keywords = C_LIKE_KEYWORDS;
            !(line.len() > 0 && is_ascii_whitespace(line[0]))
                && !bstr_contains(prefix_before(line, OPEN_PAREN), LABEL_SEPARATOR.as_bytes())
                && !starts_with_keyword(line, keywords.as_slice())
        },
        SourceLanguage::CSharp => {
            let keywords = CSHARP_KEYWORDS;
            !starts_with_keyword(line, keywords.as_slice())
        },
        SourceLanguage::Dts => !contains_byte(line, SEMICOLON) && !contains_byte(line, EQUALS),
        SourceLanguage::Java => {
            let keywords = JAVA_KEYWORDS;
            !starts_with_keyword(line, keywords.as_slice())
        },
        SourceLanguage::JavaScript => {
            let keywords = JAVASCRIPT_KEYWORDS;
            !starts_with_keyword(line, keywords.as_slice())
        },
        SourceLanguage::ObjC => {
            let keywords = OBJC_KEYWORDS;
            !starts_with_keyword(line, keywords.as_slice())
        },
        _ => true,
    }
}

/// Applies the rule of one language to a line, given that language's
/// compiled pattern. The pattern runs only on lines that pass the checks.
fn single_rule_holds(language: SourceLanguage, pattern: &CompiledPattern, line: &[u8]) -> (r: bool)
    requires
        pattern@ == pattern_of(language)@,
    ensures
        r == single_rule(language, line@),
{
    passes_guards(language, line) && pattern.is_match(line)
}

/// The compiled rule of one language: decides, line by line, whether a line
/// is a source symbol.
pub struct SymbolMatcher {
    language: SourceLanguage,
    first: CompiledPattern,
    objc: Option<CompiledPattern>,
}

impl View for SymbolMatcher {
    type V = SourceLanguage;

    closed spec fn view(&self) -> SourceLanguage {
        self.language
    }
}

impl SymbolMatcher {
    #[verifier::type_invariant]
    closed spec fn patterns_fit(self) -> bool {
        &&& self.first@ == pattern_of(self.language)@
        &&& is_shared(self.language) ==> (self.objc matches Some(p) && p@ == OBJC_PATTERN@)
    }

    /// Compiles the patterns of `language`. Fails, naming the pattern, where
    /// `regex` refuses one.
    pub fn new(language: SourceLanguage) -> (r: Result<SymbolMatcher, PatternError>)
        ensures
            r is Ok <==> patterns_compile(language),
            r matches Ok(m) ==> m@ == language,
            r matches Err(e) ==> !regex_compiles(e.pattern@) && (e.pattern == pattern_of(language)
                || e.pattern == OBJC_PATTERN),
    {
        let first = compile_named(pattern_for(language))?;
        let objc = match language {
            SourceLanguage::MatlabOrObjC | SourceLanguage::CLikeOrObjC => {
                Some(compile_named(OBJC_PATTERN)?)
            },
            _ => None,
        };
        Ok(SymbolMatcher { language, first, objc })
    }

    /// The language whose rule this is.
    pub fn language(&self) -> (r: SourceLanguage)
        ensures
            r == self@,
    {
        self.language
    }

    /// Whether `line` is a source symbol in this matcher's language.
    pub fn is_source_symbol(&self, line: &[u8]) -> (r: bool)
        ensures
            r == spec_is_source_symbol(self@, line@),
    {
        proof {
            use_type_invariant(self);
        }
        match self.language {
            SourceLanguage::MatlabOrObjC => {
                if single_rule_holds(SourceLanguage::Matlab, &self.first, line) {
                    return true;
                }
                match &self.objc {
                    Some(objc) => single_rule_holds(SourceLanguage::ObjC, objc, line),
                    None => false,
                }
            },
            SourceLanguage::CLikeOrObjC => {
                if single_rule_holds(SourceLanguage::CLike, &self.first, line) {
                    return true;
                }
                match &self.objc {
                    Some(objc) => single_rule_holds(SourceLanguage::ObjC, objc, trim_line(line)),
                    None => false,
                }
            },
            language => single_rule_holds(language, &self.first, line),
        }
    }
}

impl SourceLanguage {
    /// Whether `line` is a source symbol in this language. Compiles the
    /// language's patterns first, and fails where `regex` refuses one; to
    /// test many lines, build a [`SymbolMatcher`] once.
    pub fn is_source_symbol(self, line: &[u8]) -> (r: Result<bool, PatternError>)
        ensures
            r is Ok <==> patterns_compile(self),
            r matches Ok(b) ==> b == spec_is_source_symbol(self, line@),
            r matches Err(e) ==> !regex_compiles(e.pattern@),
    {
        let matcher = SymbolMatcher::new(self)?;
        Ok(matcher.is_source_symbol(line))
    }
}

/// The label separator is the two bytes `:` and space.
proof fn lemma_label_separator_bytes()
    ensures
        LABEL_SEPARATOR.spec_bytes() == seq![0x3au8, 0x20u8],
{
    reveal_strlit(": ");
    vstd::string::is_ascii_spec_bytes(LABEL_SEPARATOR);
    assert(LABEL_SEPARATOR.spec_bytes() =~= seq![0x3au8, 0x20u8]);
}

/// The checks besides the pattern, for every line: an indented C-like line,
/// one with `: ` before its first `(`, or one that opens with any of the
/// control-flow words is refused; C#, Java, JavaScript and Objective-C lines
/// that open with any word of their whole statement-keyword table are
/// refused, and all others pass; device tree lines holding `;` or `=` are
/// refused; every other language has no such check.
pub proof fn law_guards(line: Seq<u8>, language: SourceLanguage)
    ensures
        C_LIKE_KEYWORDS@.len() == 5,
        CSHARP_KEYWORDS@.len() == 16,
        JAVA_KEYWORDS@.len() == 10,
        JAVASCRIPT_KEYWORDS@.len() == 6,
        OBJC_KEYWORDS@.len() == 7,
        line.len() > 0 && is_ascii_ws(line[0]) ==> !spec_passes_guards(SourceLanguage::CLike, line),
        contains_subslice(before_first(line, 0x28u8), seq![0x3au8, 0x20u8]) ==> !spec_passes_guards(
            SourceLanguage::CLike,
            line,
        ),
        forall|i: int|
            0 <= i < 5 && starts_with_word(line, (#[trigger] C_LIKE_KEYWORDS@[i]).spec_bytes())
                ==> !spec_passes_guards(SourceLanguage::CLike, line),
        forall|i: int|
            0 <= i < 16 && starts_with_word(line, (#[trigger] CSHARP_KEYWORDS@[i]).spec_bytes())
                ==> !spec_passes_guards(SourceLanguage::CSharp, line),
        (forall|i: int|
            0 <= i < 16 ==> !starts_with_word(line, (#[trigger] CSHARP_KEYWORDS@[i]).spec_bytes()))
            ==> spec_passes_guards(SourceLanguage::CSharp, line),
        forall|i: int|
            0 <= i < 10 && starts_with_word(line, (#[trigger] JAVA_KEYWORDS@[i]).spec_bytes())
                ==> !spec_passes_guards(SourceLanguage::Java, line),
        (forall|i: int|
            0 <= i < 10 ==> !starts_with_word(line, (#[trigger] JAVA_KEYWORDS@[i]).spec_bytes()))
            ==> spec_passes_guards(SourceLanguage::Java, line),
        forall|i: int|
            0 <= i < 6 && starts_with_word(line, (#[trigger] JAVASCRIPT_KEYWORDS@[i]).spec_bytes())
                ==> !spec_passes_guards(SourceLanguage::JavaScript, line),
        (forall|i: int|
            0 <= i < 6 ==> !starts_with_word(line, (#[trigger] JAVASCRIPT_KEYWORDS@[i]).spec_bytes()))
            ==> spec_passes_guards(SourceLanguage::JavaScript, line),
        forall|i: int|
            0 <= i < 7 && starts_with_word(line, (#[trigger] OBJC_KEYWORDS@[i]).spec_bytes())
                ==> !spec_passes_guards(SourceLanguage::ObjC, line),
        (forall|i: int|
            0 <= i < 7 ==> !starts_with_word(line, (#[trigger] OBJC_KEYWORDS@[i]).spec_bytes()))
            ==> spec_passes_guards(SourceLanguage::ObjC, line),
        spec_passes_guards(SourceLanguage::Dts, line) <==> !line.contains(0x3bu8) && !line.contains(
            0x3du8,
        ),
        !(language is CLike || language is CSharp || language is Dts || language is Java
            || language is JavaScript || language is ObjC) ==> spec_passes_guards(language, line),
{
    lemma_label_separator_bytes();
}

/// A line is a symbol in a language exactly when it passes that language's
/// checks and the language's pattern matches it; for the shared extensions,
/// `.m` lines are symbols where MATLAB or Objective-C takes them, and `.h` and
/// `.mm` lines where the C-like rule takes the line as it stands (indentation
/// kept) or the Objective-C rule takes it trimmed. An indented line is never
/// a C-like symbol, so for `.h` and `.mm` it can only be one by the
/// Objective-C pattern on its trimmed text.
pub proof fn law_shared_extensions(line: Seq<u8>, language: SourceLanguage)
    ensures
        !is_shared(language) ==> (spec_is_source_symbol(language, line) <==> (spec_passes_guards(
            language,
            line,
        ) && regex_is_match(pattern_of(language)@, line))),
        spec_is_source_symbol(SourceLanguage::MatlabOrObjC, line) <==> (spec_is_source_symbol(
            SourceLanguage::Matlab,
            line,
        ) || spec_is_source_symbol(SourceLanguage::ObjC, line)),
        spec_is_source_symbol(SourceLanguage::CLikeOrObjC, line) <==> (spec_is_source_symbol(
            SourceLanguage::CLike,
            line,
        ) || spec_is_source_symbol(SourceLanguage::ObjC, spec_trim_line(line))),
        line.len() > 0 && is_ascii_ws(line[0]) ==> !spec_is_source_symbol(SourceLanguage::CLike, line),
        line.len() > 0 && is_ascii_ws(line[0]) ==> (spec_is_source_symbol(
            SourceLanguage::CLikeOrObjC,
            line,
        ) <==> (regex_is_match(OBJC_PATTERN@, spec_trim_line(line)) && !spec_starts_with_keyword(
            spec_trim_line(line),
            OBJC_KEYWORDS@,
        ))),
        spec_is_source_symbol(SourceLanguage::CLike, line) ==> regex_is_match(C_LIKE_PATTERN@, line),
        spec_is_source_symbol(SourceLanguage::Matlab, line) ==> regex_is_match(MATLAB_PATTERN@, line),
        spec_is_source_symbol(SourceLanguage::ObjC, line) ==> regex_is_match(OBJC_PATTERN@, line),
{
}

/// Each language's own pattern, and its statement-keyword table word by
/// word.
pub proof fn law_language_tables()
    ensures
        pattern_of(SourceLanguage::BibTeX) == BIBTEX_PATTERN,
        pattern_of(SourceLanguage::CLike) == C_LIKE_PATTERN,
        pattern_of(SourceLanguage::CSharp) == CSHARP_PATTERN,
        pattern_of(SourceLanguage::Dts) == DTS_PATTERN,
        pattern_of(SourceLanguage::Elixir) == ELIXIR_PATTERN,
        pattern_of(SourceLanguage::Go) == GO_PATTERN,
        pattern_of(SourceLanguage::Html) == HTML_PATTERN,
        pattern_of(SourceLanguage::Ini) == INI_PATTERN,
        pattern_of(SourceLanguage::Java) == JAVA_PATTERN,
        pattern_of(SourceLanguage::JavaScript) == JAVASCRIPT_PATTERN,
        pattern_of(SourceLanguage::Kotlin) == KOTLIN_PATTERN,
        pattern_of(SourceLanguage::Markdown) == MARKDOWN_PATTERN,
        pattern_of(SourceLanguage::Matlab) == MATLAB_PATTERN,
        pattern_of(SourceLanguage::ObjC) == OBJC_PATTERN,
        pattern_of(SourceLanguage::Pascal) == PASCAL_PATTERN,
        pattern_of(SourceLanguage::Perl) == PERL_PATTERN,
        pattern_of(SourceLanguage::Php) == PHP_PATTERN,
        pattern_of(SourceLanguage::Python) == PYTHON_PATTERN,
        pattern_of(SourceLanguage::R) == R_PATTERN,
        pattern_of(SourceLanguage::Ruby) == RUBY_PATTERN,
        pattern_of(SourceLanguage::Rust) == RUST_PATTERN,
        pattern_of(SourceLanguage::Scheme) == SCHEME_PATTERN,
        pattern_of(SourceLanguage::Shell) == SHELL_PATTERN,
        pattern_of(SourceLanguage::Tex) == TEX_PATTERN,
        C_LIKE_KEYWORDS@ == seq!["do", "for", "if", "switch", "while"],
        CSHARP_KEYWORDS@ == seq![
            "do",
            "while",
            "for",
            "foreach",
            "if",
            "else",
            "new",
            "default",
            "return",
            "switch",
            "case",
            "throw",
            "catch",
            "using",
            "lock",
            "fixed",
        ],
        JAVA_KEYWORDS@ == seq![
            "catch",
            "do",
            "for",
            "if",
            "instanceof",
            "new",
            "return",
            "switch",
            "throw",
            "while",
        ],
        JAVASCRIPT_KEYWORDS@ == seq!["catch", "for", "if", "switch", "while", "with"],
        OBJC_KEYWORDS@ == seq!["do", "for", "if", "else", "return", "switch", "while"],
{
    assert(C_LIKE_KEYWORDS@ =~= seq!["do", "for", "if", "switch", "while"]);
    assert(CSHARP_KEYWORDS@ =~= seq![
        "do",
        "while",
        "for",
        "foreach",
        "if",
        "else",
        "new",
        "default",
        "return",
        "switch",
        "case",
        "throw",
        "catch",
        "using",
        "lock",
        "fixed",
    ]);
    assert(JAVA_KEYWORDS@ =~= seq![
        "catch",
        "do",
        "for",
        "if",
        "instanceof",
        "new",
        "return",
        "switch",
        "throw",
        "while",
    ]);
    assert(JAVASCRIPT_KEYWORDS@ =~= seq!["catch", "for", "if", "switch", "while", "with"]);
    assert(OBJC_KEYWORDS@ =~= seq!["do", "for", "if", "else", "return", "switch", "while"]);
}

} // verus!
