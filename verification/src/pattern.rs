//! Compiled line patterns, backed by the `regex` crate.

use regex::bytes::Regex;
use vstd::prelude::*;

verus! {

/// Matches BibTeX entries such as `@article{key,`.
pub const BIBTEX_PATTERN: &'static str = r#"^@[A-Za-z]+[ \t]*\{?[ \t]*[^ \t"@',\\#}{~%]*"#;
/// Matches C and C++ declarations: a type and name followed by `(`.
pub const C_LIKE_PATTERN: &'static str = r"^(?:[A-Za-z_][\w:<>,~]*|[*&]|\[[^\]]*\]|\s+)+[A-Za-z_~][\w:~]*\s*\([^;{}]*";
/// Matches C# methods, type declarations and namespaces.
pub const CSHARP_PATTERN: &'static str = r"^(?:(?:[\w@_.]+(?:<[\w@_, \t<>]+>)?)(?:\s+[\w@_.]+(?:<[\w@_, \t<>]+>)?)+\s*\([^;]*|(?:(?:static|public|internal|private|protected|new|unsafe|sealed|abstract|partial)\s+)*(?:class|enum|interface|struct|record)\s+.*|namespace\s+.*)$";
/// Matches device tree nodes.
pub const DTS_PATTERN: &'static str = r"^(?:/[ \t]*\{|&?[A-Za-z_].*)";
/// Matches Elixir `def`, `defp`, `defmodule` and the like, and `test` blocks.
pub const ELIXIR_PATTERN: &'static str = r"^(?:def(?:macro|module|impl|protocol|p)?|test)\s+.*";
/// Matches Go functions and `struct` or `interface` types.
pub const GO_PATTERN: &'static str = r"^(?:func\s*.*(?:\{\s*)?|type\s+.*(?:struct|interface)\s*(?:\{\s*)?)$";
/// Matches HTML headings `<h1>` to `<h6>`.
pub const HTML_PATTERN: &'static str = r"^<[Hh][1-6](?:\s.*)?>.*";
/// Matches INI section headers such as `[section]`.
pub const INI_PATTERN: &'static str = r"^\[[^]]+\]";
/// Matches Java type declarations and methods.
pub const JAVA_PATTERN: &'static str = r"^(?:(?:[a-z-]+\s+)*(?:class|enum|interface|record)\s+.*|(?:[A-Za-z_<>&][\]?&<>.,A-Za-z_0-9]*\s+)+[A-Za-z_][A-Za-z_0-9]*\s*\([^;]*)$";
/// Matches JavaScript functions, classes, methods and function-valued bindings.
pub const JAVASCRIPT_PATTERN: &'static str = r"^(?:(?:export|default|async|static|get|set)\s+)*(?:function\b|class\b|[A-Za-z_$][\w$]*\s*\([^)]*\)\s*\{|[A-Za-z_$][\w$]*\s*[:=]\s*(?:async\s*)?(?:function\b|\([^)]*\)\s*=>))";
/// Matches Kotlin functions, classes and interfaces.
pub const KOTLIN_PATTERN: &'static str = r"^(?:[a-z]+\s+)*(?:fun|class|interface)\s+.*";
/// Matches Markdown ATX headings.
pub const MARKDOWN_PATTERN: &'static str = r"^#{1,6}\s+.*";
/// Matches MATLAB functions, class definitions and `%%` sections.
pub const MATLAB_PATTERN: &'static str = r"^(?:(?:classdef|function)\s+.*|(?:%%%?|##)\s+.*)$";
/// Matches Objective-C methods, C functions and `@interface` and the like.
pub const OBJC_PATTERN: &'static str = r"^(?:[-+]\s*\(\s*[A-Za-z_][A-Za-z_0-9* \t]*\)\s*[A-Za-z_].*|(?:[A-Za-z_][A-Za-z_0-9]*\s+)+[A-Za-z_][A-Za-z_0-9]*\s*\([^;]*|@(?:implementation|interface|protocol)\s+.*)$";
/// Matches Pascal procedures, functions, unit sections and class or record types.
pub const PASCAL_PATTERN: &'static str = r"^(?:(?:(?:class\s+)?(?:procedure|function)|constructor|destructor|interface|implementation|initialization|finalization)\s*.*|.*=\s*(?:class|record).*)$";
/// Matches Perl packages, subroutines, special blocks and POD headings.
pub const PERL_PATTERN: &'static str = r"^(?:package .*|sub [[:alnum:]_':]+[ \t]*(?:\([^)]*\)[ \t]*)?(?::[^;#]*)?(?:\{[ \t]*)?(?:#.*)?|(?:BEGIN|END|INIT|CHECK|UNITCHECK|AUTOLOAD|DESTROY)[ \t]*(?:\{[ \t]*)?(?:#.*)?|=head[0-9] .*)$";
/// Matches PHP functions, classes, enums, interfaces and traits.
pub const PHP_PATTERN: &'static str = r"^(?:(?:(?:public|protected|private|static|abstract|final)\s+)*function.*|(?:(?:(?:final|abstract)\s+)?class|enum|interface|trait).*)$";
/// Matches Python functions and classes.
pub const PYTHON_PATTERN: &'static str = r"^(?:async\s+def|def|class)\s+\w+";
/// Matches R functions bound with `<-` or `=`.
pub const R_PATTERN: &'static str = r"^[A-Za-z][A-Za-z0-9_.]*\s*(?:<-|=)\s*function.*$";
/// Matches Ruby classes, modules and methods.
pub const RUBY_PATTERN: &'static str = r"^(?:class|module|def)\s+.*";
/// Matches Rust items: `fn`, `struct`, `enum`, `impl`, `trait`, `mod`, `type`, `union`, `macro_rules!`.
pub const RUST_PATTERN: &'static str = r#"^(?:(?:pub(?:\([^)]*\))?|const|async|unsafe|extern(?:\s+"[^"]+")?)\s+)*(?:(?:fn|struct|enum|impl|trait|mod|type|union)\b|macro_rules!\s*)"#;
/// Matches Scheme and Lisp definitions.
pub const SCHEME_PATTERN: &'static str = r"^(?:\((?:(?:define|def(?:struct|syntax|class|method|rules|record|proto|alias)?)[-*/ \t]|(?:library|module|struct|class)[*+ \t]).*|[Dd][Ee][Ff].*)$";
/// Matches Shell functions.
pub const SHELL_PATTERN: &'static str = r"^(?:[A-Za-z_][A-Za-z0-9_]*\s*\(\s*\)|function\s+[A-Za-z_][A-Za-z0-9_]*(?:(?:\s*\(\s*\))|\s+)).*$";
/// Matches TeX sectioning commands.
pub const TEX_PATTERN: &'static str = r"^\\(?:(?:sub)*section|chapter|part)\*?\{.*";

#[verifier::external_type_specification]
#[verifier::external_body]
pub struct ExRegex(Regex);

#[verifier::external_type_specification]
#[verifier::external_body]
pub struct ExRegexError(regex::Error);

/// Whether `regex::bytes::Regex::new` accepts the pattern (it rejects
/// invalid syntax and patterns over its default size limit).
pub uninterp spec fn regex_compiles(pattern: Seq<char>) -> bool;

/// Whether the regex compiled from `pattern` matches anywhere in `haystack`,
/// as `regex::bytes::Regex::is_match` answers.
pub uninterp spec fn regex_is_match(pattern: Seq<char>, haystack: Seq<u8>) -> bool;

/// A pattern together with the regex compiled from it.
///
/// Values are made only by [`compile`], so `regex` is always the
/// compilation of `pattern`.
pub struct CompiledPattern {
    pattern: &'static str,
    regex: Regex,
}

impl View for CompiledPattern {
    type V = Seq<char>;

    closed spec fn view(&self) -> Seq<char> {
        self.pattern@
    }
}

/// Calls `regex::bytes::Regex::new` on `pattern`. Trusted: it succeeds exactly
/// when the pattern compiles, and on success the value holds `pattern`
/// beside the compiled regex.
#[verifier::external_body]
pub(crate) fn compile(pattern: &'static str) -> (r: Result<CompiledPattern, regex::Error>)
    ensures
        r is Ok <==> regex_compiles(pattern@),
        r matches Ok(c) ==> c@ == pattern@,
{
    match Regex::new(pattern) {
        Ok(regex) => Ok(CompiledPattern { pattern, regex }),
        Err(e) => Err(e),
    }
}

impl CompiledPattern {
    /// Calls `regex::bytes::Regex::is_match`. Trusted: the answer is the
    /// named result for this pattern and haystack.
    #[verifier::external_body]
    pub(crate) fn is_match(&self, haystack: &[u8]) -> (r: bool)
        ensures
            r == regex_is_match(self@, haystack@),
    {
        self.regex.is_match(haystack)
    }
}

} // verus!
