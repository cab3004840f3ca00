# source_symbol

Finds the source symbol (function, class, section heading, ...) that encloses
a range of lines in one version of a file, for hunk headers in diffs.

- `src/bytes.rs`: line endings, ASCII trimming and small byte searches.
- `src/language.rs`: `SourceLanguage`, chosen from a file name, with its
  comment and keyword rules.
- `src/pattern.rs`: the per-language patterns, compiled and matched by the
  `regex` crate behind two trusted functions.
- `src/matcher.rs`: the rule that decides whether one line is a symbol.
- `src/scanner.rs`: splits content into lines, collects its symbols, and
  finds the symbol for a range of lines; the laws of that search.
