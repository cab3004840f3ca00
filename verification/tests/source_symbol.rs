use bstr::BStr;
use source_symbol::{source_symbols, SourceLanguage, SourceSymbolScanner, SymbolMatcher};

fn collect_source_symbols(content: &[u8], language: SourceLanguage) -> Vec<(usize, &[u8])> {
    let matcher = SymbolMatcher::new(language).unwrap();
    source_symbols(content, &matcher)
}

#[test]
fn test_source_symbol_patterns() {
    let samples: &[(SourceLanguage, &[&str])] = &[
        (
            SourceLanguage::BibTeX,
            &[
                "@article{example,",
                "@string { name = value }",
                "plain text",
            ],
        ),
        (
            SourceLanguage::CLike,
            &[
                "static int example(int value)",
                "void *pointer(void)",
                "    call(value)",
                "if (condition)",
                "label: call()",
            ],
        ),
        (
            SourceLanguage::CSharp,
            &[
                "public class Example",
                "namespace Example.Core",
                "public async Task<int> Run(int value)",
                "if (condition)",
            ],
        ),
        (
            SourceLanguage::Dts,
            &["/ {", "device_node {", "property = <1>;"],
        ),
        (
            SourceLanguage::Elixir,
            &["defmodule Example do", "defp run(value) do", "if ready do"],
        ),
        (
            SourceLanguage::Go,
            &[
                "func Example(value int) int {",
                "type Example struct {",
                "var example = func() {}",
            ],
        ),
        (
            SourceLanguage::Html,
            &[
                "<h2 class=\"title\">Example</h2>",
                "<H1>Title</H1>",
                "<p>text</p>",
            ],
        ),
        (
            SourceLanguage::Ini,
            &["[section]", "[section.subsection] value", "key = value"],
        ),
        (
            SourceLanguage::Java,
            &[
                "public class Example",
                "public static String run(int value)",
                "if (condition)",
            ],
        ),
        (
            SourceLanguage::JavaScript,
            &[
                "export async function example() {",
                "class Example {",
                "handler = async (event) => {",
                "if (condition) {",
            ],
        ),
        (
            SourceLanguage::Kotlin,
            &[
                "public fun example(value: Int)",
                "data class Example",
                "if (condition)",
            ],
        ),
        (
            SourceLanguage::Markdown,
            &["# Title", "###### Detail", "plain text", "#missing-space"],
        ),
        (
            SourceLanguage::Matlab,
            &[
                "function y = example(x)",
                "classdef Example",
                "%% Section",
                "y = x + 1;",
            ],
        ),
        (
            SourceLanguage::ObjC,
            &[
                "- (void)example:(id)value",
                "@interface Example : NSObject",
                "if (condition)",
            ],
        ),
        (
            SourceLanguage::Pascal,
            &[
                "function Example(Value: Integer): Integer;",
                "TExample = class(TObject)",
                "var Value: Integer;",
            ],
        ),
        (
            SourceLanguage::Perl,
            &[
                "package Example;",
                "sub example : prototype($) {",
                "BEGIN {",
                "=head1 Documentation",
                "my $value = 1;",
            ],
        ),
        (
            SourceLanguage::Php,
            &[
                "public static function example($value) {",
                "final class Example {",
                "if ($condition) {",
            ],
        ),
        (
            SourceLanguage::Python,
            &[
                "async def example(value):",
                "class Example:",
                "if condition:",
            ],
        ),
        (
            SourceLanguage::R,
            &[
                "example <- function(value) {",
                "example.name = function(value) {",
                "if (condition) {",
            ],
        ),
        (
            SourceLanguage::Ruby,
            &["module Example", "def example(value)", "if condition"],
        ),
        (
            SourceLanguage::Rust,
            &[
                "pub(crate) async fn example(value: i32) -> i32 {",
                "impl<T> Example<T> {",
                "macro_rules! example {",
                "if condition {",
            ],
        ),
        (
            SourceLanguage::Scheme,
            &[
                "(define (example value)",
                "(module example scheme",
                "(display value)",
                "display value",
            ],
        ),
        (
            SourceLanguage::Shell,
            &["example() {", "function example {", "if condition; then"],
        ),
        (
            SourceLanguage::Tex,
            &[
                "\\section{Example}",
                "\\subsubsection*{Detail}",
                "plain text",
            ],
        ),
    ];

    let results = samples
        .iter()
        .flat_map(|(language, lines)| {
            lines.iter().map(move |line| {
                format!(
                    "{language:?}: {:?} = {}",
                    BStr::new(line),
                    language.is_source_symbol(line.as_bytes()).unwrap()
                )
            })
        })
        .collect::<Vec<_>>();
    let expected = [
        "BibTeX: \"@article{example,\" = true",
        "BibTeX: \"@string { name = value }\" = true",
        "BibTeX: \"plain text\" = false",
        "CLike: \"static int example(int value)\" = true",
        "CLike: \"void *pointer(void)\" = true",
        "CLike: \"    call(value)\" = false",
        "CLike: \"if (condition)\" = false",
        "CLike: \"label: call()\" = false",
        "CSharp: \"public class Example\" = true",
        "CSharp: \"namespace Example.Core\" = true",
        "CSharp: \"public async Task<int> Run(int value)\" = true",
        "CSharp: \"if (condition)\" = false",
        "Dts: \"/ {\" = true",
        "Dts: \"device_node {\" = true",
        "Dts: \"property = <1>;\" = false",
        "Elixir: \"defmodule Example do\" = true",
        "Elixir: \"defp run(value) do\" = true",
        "Elixir: \"if ready do\" = false",
        "Go: \"func Example(value int) int {\" = true",
        "Go: \"type Example struct {\" = true",
        "Go: \"var example = func() {}\" = false",
        "Html: \"<h2 class=\\\"title\\\">Example</h2>\" = true",
        "Html: \"<H1>Title</H1>\" = true",
        "Html: \"<p>text</p>\" = false",
        "Ini: \"[section]\" = true",
        "Ini: \"[section.subsection] value\" = true",
        "Ini: \"key = value\" = false",
        "Java: \"public class Example\" = true",
        "Java: \"public static String run(int value)\" = true",
        "Java: \"if (condition)\" = false",
        "JavaScript: \"export async function example() {\" = true",
        "JavaScript: \"class Example {\" = true",
        "JavaScript: \"handler = async (event) => {\" = true",
        "JavaScript: \"if (condition) {\" = false",
        "Kotlin: \"public fun example(value: Int)\" = true",
        "Kotlin: \"data class Example\" = true",
        "Kotlin: \"if (condition)\" = false",
        "Markdown: \"# Title\" = true",
        "Markdown: \"###### Detail\" = true",
        "Markdown: \"plain text\" = false",
        "Markdown: \"#missing-space\" = false",
        "Matlab: \"function y = example(x)\" = true",
        "Matlab: \"classdef Example\" = true",
        "Matlab: \"%% Section\" = true",
        "Matlab: \"y = x + 1;\" = false",
        "ObjC: \"- (void)example:(id)value\" = true",
        "ObjC: \"@interface Example : NSObject\" = true",
        "ObjC: \"if (condition)\" = false",
        "Pascal: \"function Example(Value: Integer): Integer;\" = true",
        "Pascal: \"TExample = class(TObject)\" = true",
        "Pascal: \"var Value: Integer;\" = false",
        "Perl: \"package Example;\" = true",
        "Perl: \"sub example : prototype($) {\" = true",
        "Perl: \"BEGIN {\" = true",
        "Perl: \"=head1 Documentation\" = true",
        "Perl: \"my $value = 1;\" = false",
        "Php: \"public static function example($value) {\" = true",
        "Php: \"final class Example {\" = true",
        "Php: \"if ($condition) {\" = false",
        "Python: \"async def example(value):\" = true",
        "Python: \"class Example:\" = true",
        "Python: \"if condition:\" = false",
        "R: \"example <- function(value) {\" = true",
        "R: \"example.name = function(value) {\" = true",
        "R: \"if (condition) {\" = false",
        "Ruby: \"module Example\" = true",
        "Ruby: \"def example(value)\" = true",
        "Ruby: \"if condition\" = false",
        "Rust: \"pub(crate) async fn example(value: i32) -> i32 {\" = true",
        "Rust: \"impl<T> Example<T> {\" = true",
        "Rust: \"macro_rules! example {\" = true",
        "Rust: \"if condition {\" = false",
        "Scheme: \"(define (example value)\" = true",
        "Scheme: \"(module example scheme\" = true",
        "Scheme: \"(display value)\" = false",
        "Scheme: \"display value\" = false",
        "Shell: \"example() {\" = true",
        "Shell: \"function example {\" = true",
        "Shell: \"if condition; then\" = false",
        "Tex: \"\\\\section{Example}\" = true",
        "Tex: \"\\\\subsubsection*{Detail}\" = true",
        "Tex: \"plain text\" = false",
    ];
    assert_eq!(results, expected);
}

#[test]
fn test_collect_source_symbols_ignores_c_comments_and_indentation() {
    let content = BStr::new(
        b"void outer(void)\n/*\n * misleading(comment)\n */\n    call(value);\nextern int actual(int value);\n",
    );
    let symbols = collect_source_symbols(content, SourceLanguage::CLike)
        .into_iter()
        .map(|(line, symbol)| (line, BStr::new(symbol)))
        .collect::<Vec<_>>();
    assert_eq!(
        symbols,
        vec![
            (0, BStr::new("void outer(void)")),
            (5, BStr::new("extern int actual(int value);")),
        ]
    );
}

#[test]
fn test_source_symbol_scanner_finds_pointer_returning_c_function() {
    let content = BStr::new(b"int\n*foo(void) {\n    return 0;\n}\n");
    for language in [SourceLanguage::CLike, SourceLanguage::CLikeOrObjC] {
        let scanner = SourceSymbolScanner::new(language, content).unwrap();
        assert_eq!(scanner.find(&(2..3)), Some(&b"*foo(void) {"[..]));
    }
}

#[test]
fn test_source_symbol_scanner_uses_first_symbol_in_range() {
    let scanner = SourceSymbolScanner::new(
        SourceLanguage::Rust,
        BStr::new(b"preamble\n\nfn first() {\n}\n\nfn second() {\n}\n"),
    )
    .unwrap();

    assert_eq!(scanner.find(&(1..7)), Some(&b"fn first() {"[..]));
    assert_eq!(scanner.find(&(1..2)), None);
}

#[test]
fn test_source_symbol_scanner_range_start() {
    let scanner = SourceSymbolScanner::new(
        SourceLanguage::Rust,
        BStr::new(b"fn first() {\n}\n\nfn second() {\n}\n"),
    )
    .unwrap();

    // An exact match takes precedence over the preceding symbol.
    assert_eq!(scanner.find(&(3..4)), Some(&b"fn second() {"[..]));
    // Empty ranges exclude the symbol at their start.
    assert_eq!(scanner.find(&(3..3)), Some(&b"fn first() {"[..]));
    assert_eq!(scanner.find(&(0..0)), None);
    // A preceding symbol takes precedence over a later symbol in the range.
    assert_eq!(scanner.find(&(2..5)), Some(&b"fn first() {"[..]));
}

#[test]
fn test_source_symbol_scanner_handles_ambiguous_objc_extension() {
    let objc_scanner = SourceSymbolScanner::new(
        SourceLanguage::MatlabOrObjC,
        BStr::new(b"@implementation Example\n- (void)method {\n    value++;\n}\n@end\n"),
    )
    .unwrap();
    assert_eq!(objc_scanner.find(&(2..3)), Some(&b"- (void)method {"[..]));

    let matlab_scanner = SourceSymbolScanner::new(
        SourceLanguage::MatlabOrObjC,
        BStr::new(b"%% Section\nfunction y = example(x)\ny = x + 1;\nend\n"),
    )
    .unwrap();
    assert_eq!(matlab_scanner.find(&(0..1)), Some(&b"%% Section"[..]));
    assert_eq!(
        matlab_scanner.find(&(2..3)),
        Some(&b"function y = example(x)"[..])
    );
}
