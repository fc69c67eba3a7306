//! Tokenizer for a small functional / interaction-net style language.
//!
//! The scanner turns source text into a sequence of typed tokens: keywords
//! (`let`, `dup`), identifiers, unsigned numeric literals, operators and
//! punctuation, and significant newlines.  Horizontal whitespace, line
//! comments and (arbitrarily nested) block comments are discarded.  Failures
//! are reported inline, one error value per offending lexeme, and the cursor
//! always moves forward, so scanning terminates on every input.

pub mod grammar;
pub mod scanner;
pub mod token;

pub use scanner::Scanner;
pub use scanner::tokenize;
pub use token::LexingError;
pub use token::MultiLineComment;
pub use token::Token;
