//! Finds the source symbol (function, class, section heading, ...) that
//! encloses a range of lines in one version of a file, by the file's
//! language.

pub mod bytes;
pub mod pattern;
pub mod language;
pub mod matcher;
pub mod scanner;

pub use bytes::{strip_line_ending, trim_line};
pub use language::{is_c_style_comment_line, is_comment_line, starts_with_keyword, SourceLanguage};
pub use matcher::{passes_guards, PatternError, SymbolMatcher};
pub use scanner::{source_symbols, SourceSymbolScanner};
