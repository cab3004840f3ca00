use source_symbol::{
    passes_guards, is_c_style_comment_line, is_comment_line, source_symbols, starts_with_keyword,
    strip_line_ending, trim_line, SourceLanguage, SourceSymbolScanner, SymbolMatcher,
};

#[test]
fn from_file_name_by_extension() {
    assert_eq!(SourceLanguage::from_file_name("main.rs"), Some(SourceLanguage::Rust));
    assert_eq!(SourceLanguage::from_file_name("a.b.h"), Some(SourceLanguage::CLikeOrObjC));
    assert_eq!(SourceLanguage::from_file_name("x.mm"), Some(SourceLanguage::CLikeOrObjC));
    assert_eq!(SourceLanguage::from_file_name("x.m"), Some(SourceLanguage::MatlabOrObjC));
    assert_eq!(SourceLanguage::from_file_name("x.matlab"), Some(SourceLanguage::Matlab));
    assert_eq!(SourceLanguage::from_file_name("x.R"), Some(SourceLanguage::R));
    assert_eq!(SourceLanguage::from_file_name("x.r"), Some(SourceLanguage::R));
    assert_eq!(SourceLanguage::from_file_name("x.tsx"), Some(SourceLanguage::JavaScript));
    assert_eq!(SourceLanguage::from_file_name("x.latex"), Some(SourceLanguage::Tex));
    assert_eq!(SourceLanguage::from_file_name("x.gemspec"), Some(SourceLanguage::Ruby));
    assert_eq!(SourceLanguage::from_file_name("x.t"), Some(SourceLanguage::Perl));
    assert_eq!(SourceLanguage::from_file_name("dir/config.ini"), Some(SourceLanguage::Ini));
}

#[test]
fn from_file_name_without_known_extension() {
    assert_eq!(SourceLanguage::from_file_name("Gemfile"), Some(SourceLanguage::Ruby));
    assert_eq!(SourceLanguage::from_file_name("Rakefile"), Some(SourceLanguage::Ruby));
    assert_eq!(SourceLanguage::from_file_name("old.Gemfile"), None);
    assert_eq!(SourceLanguage::from_file_name("README"), None);
    assert_eq!(SourceLanguage::from_file_name("x.tar.gz"), None);
    assert_eq!(SourceLanguage::from_file_name("file."), None);
    assert_eq!(SourceLanguage::from_file_name(".bashrc"), None);
    assert_eq!(SourceLanguage::from_file_name("x.RS"), None);
    assert_eq!(SourceLanguage::from_file_name(""), None);
    assert_eq!(SourceLanguage::from_file_name("héllo.rs"), Some(SourceLanguage::Rust));
}

#[test]
fn strip_line_ending_removes_one_ending() {
    assert_eq!(strip_line_ending(b"a\r\n"), b"a");
    assert_eq!(strip_line_ending(b"a\n"), b"a");
    assert_eq!(strip_line_ending(b"a\r"), b"a");
    assert_eq!(strip_line_ending(b"a\n\r"), b"a\n");
    assert_eq!(strip_line_ending(b"a\r\r\n"), b"a\r");
    assert_eq!(strip_line_ending(b"a\n\n"), b"a\n");
    assert_eq!(strip_line_ending(b""), b"");
    assert_eq!(strip_line_ending(b"\n"), b"");
}

#[test]
fn trim_line_removes_ending_and_ascii_whitespace() {
    assert_eq!(trim_line(b"  \tfoo bar \r\n"), b"foo bar");
    assert_eq!(trim_line(b"\x0cfoo\x0c"), b"foo");
    assert_eq!(trim_line(b"\x0bfoo"), b"\x0bfoo");
    assert_eq!(trim_line(b" \t \r\n"), b"");
    assert_eq!(trim_line(b""), b"");
    assert_eq!(trim_line(trim_line(b" a b \n")), trim_line(b" a b \n"));
}

#[test]
fn starts_with_keyword_needs_a_word_boundary() {
    assert!(starts_with_keyword(b"if(x)", &["if"]));
    assert!(starts_with_keyword(b"if", &["if"]));
    assert!(starts_with_keyword(b"for;", &["do", "for"]));
    assert!(starts_with_keyword(b"do{", &["do"]));
    assert!(starts_with_keyword(b"while\tx", &["while"]));
    assert!(!starts_with_keyword(b"iffy", &["if"]));
    assert!(!starts_with_keyword(b"if.x", &["if"]));
    assert!(!starts_with_keyword(b" if x", &["if"]));
    assert!(!starts_with_keyword(b"if x", &[]));
}

#[test]
fn comment_lines_by_language() {
    assert!(is_c_style_comment_line(b"/* x"));
    assert!(is_c_style_comment_line(b"// x"));
    assert!(!is_c_style_comment_line(b"* x"));
    assert!(!is_c_style_comment_line(b"/"));
    assert!(is_comment_line(b"// x", SourceLanguage::Rust));
    assert!(is_comment_line(b"// x", SourceLanguage::MatlabOrObjC));
    assert!(!is_comment_line(b"# x", SourceLanguage::Rust));
    assert!(is_comment_line(b"# x", SourceLanguage::Python));
    assert!(is_comment_line(b"#x", SourceLanguage::Shell));
    assert!(is_comment_line(b"% x", SourceLanguage::Tex));
    assert!(!is_comment_line(b"%% Section", SourceLanguage::Matlab));
    assert!(!is_comment_line(b"// x", SourceLanguage::Html));
    assert!(!is_comment_line(b"", SourceLanguage::Python));
}

#[test]
fn label_separator_only_counts_before_the_paren() {
    let matcher = SymbolMatcher::new(SourceLanguage::CLike).unwrap();
    assert_eq!(matcher.language(), SourceLanguage::CLike);
    assert!(!matcher.is_source_symbol(b"label: call()"));
    assert!(matcher.is_source_symbol(b"label:call()"));
    assert!(matcher.is_source_symbol(b"int f(const char *a = \"x: y\")"));
    assert!(!matcher.is_source_symbol(b"\tint f(void)"));
}

#[test]
fn shared_extensions_try_both_languages() {
    let h = SymbolMatcher::new(SourceLanguage::CLikeOrObjC).unwrap();
    assert!(h.is_source_symbol(b"    - (void)method {"));
    assert!(h.is_source_symbol(b"int main(void)"));
    assert!(!h.is_source_symbol(b"    if (x) {"));
    let c = SymbolMatcher::new(SourceLanguage::CLike).unwrap();
    assert!(!c.is_source_symbol(b"    - (void)method {"));
    let m = SymbolMatcher::new(SourceLanguage::MatlabOrObjC).unwrap();
    assert!(m.is_source_symbol(b"%% Section"));
    assert!(m.is_source_symbol(b"@interface Example : NSObject"));
    assert!(!m.is_source_symbol(b"y = x + 1;"));
}

#[test]
fn dts_rejects_statements() {
    assert_eq!(SourceLanguage::Dts.is_source_symbol(b"node {").unwrap(), true);
    assert_eq!(SourceLanguage::Dts.is_source_symbol(b"node = x").unwrap(), false);
    assert_eq!(SourceLanguage::Dts.is_source_symbol(b"node;").unwrap(), false);
}

#[test]
fn source_symbols_handle_line_endings() {
    let python = SymbolMatcher::new(SourceLanguage::Python).unwrap();
    let symbols = source_symbols(b"def a():\r\n    pass\r\n  class B:", &python);
    assert_eq!(symbols, vec![(0, &b"def a():"[..]), (2, &b"class B:"[..])]);
    assert_eq!(source_symbols(b"", &python), vec![]);
    assert_eq!(source_symbols(b"\n\n\n", &python), vec![]);
    let symbols = source_symbols(b"\n\ndef c(): pass\n", &python);
    assert_eq!(symbols, vec![(2, &b"def c(): pass"[..])]);
}

#[test]
fn source_symbols_skip_comments() {
    let rust = SymbolMatcher::new(SourceLanguage::Rust).unwrap();
    let symbols = source_symbols(b"// fn hidden() {}\nfn shown() {}\n", &rust);
    assert_eq!(symbols, vec![(1, &b"fn shown() {}"[..])]);
}

#[test]
fn find_closest_preceding_and_first_in_range() {
    let scanner = SourceSymbolScanner::new(
        SourceLanguage::Rust,
        b"fn a() {\n}\nfn b() {\n}\n\nfn c() {\n}\n",
    )
    .unwrap();
    assert_eq!(scanner.find(&(0..1)), Some(&b"fn a() {"[..]));
    assert_eq!(scanner.find(&(1..2)), Some(&b"fn a() {"[..]));
    assert_eq!(scanner.find(&(3..6)), Some(&b"fn b() {"[..]));
    assert_eq!(scanner.find(&(5..6)), Some(&b"fn c() {"[..]));
    assert_eq!(scanner.find(&(5..5)), Some(&b"fn b() {"[..]));
    assert_eq!(scanner.find(&(100..200)), Some(&b"fn c() {"[..]));
    assert_eq!(scanner.find(&(0..0)), None);

    let late = SourceSymbolScanner::new(SourceLanguage::Rust, b"x\ny\nfn z() {\n").unwrap();
    assert_eq!(late.find(&(0..2)), None);
    assert_eq!(late.find(&(0..3)), Some(&b"fn z() {"[..]));
    assert_eq!(late.find(&(1..1)), None);

    let empty = SourceSymbolScanner::new(SourceLanguage::Rust, b"").unwrap();
    assert_eq!(empty.find(&(0..10)), None);
}

#[test]
fn guards_before_the_pattern() {
    assert!(!passes_guards(SourceLanguage::CLike, b" int f(void)"));
    assert!(!passes_guards(SourceLanguage::CLike, b"case 1: f(x)"));
    assert!(passes_guards(SourceLanguage::CLike, b"f(a: b)"));
    assert!(!passes_guards(SourceLanguage::CLike, b"while (x)"));
    assert!(passes_guards(SourceLanguage::CLike, b"whileloop(x)"));
    assert!(!passes_guards(SourceLanguage::CSharp, b"foreach (var x in xs)"));
    assert!(!passes_guards(SourceLanguage::Java, b"instanceof x"));
    assert!(!passes_guards(SourceLanguage::JavaScript, b"with (x) {"));
    assert!(!passes_guards(SourceLanguage::ObjC, b"else {"));
    assert!(!passes_guards(SourceLanguage::Dts, b"a = b"));
    assert!(!passes_guards(SourceLanguage::Dts, b"a;"));
    assert!(passes_guards(SourceLanguage::Dts, b"node {"));
    assert!(passes_guards(SourceLanguage::Rust, b"    if x {"));
}
