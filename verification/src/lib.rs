//! A small glob-style pattern matching engine.
//!
//! A pattern is compiled into a sequence of tokens: literal characters,
//! the single-character wildcard `?`, the multi-character wildcard `*`,
//! and bracketed groups (`[abc]`) or ranges (`[a-c]`). A matcher then
//! decides whether a candidate string can be aligned against the token
//! sequence, exploring every alignment.

mod chars;
mod laws;
mod matcher;
mod parser;
mod token;

pub use chars::char_range;
pub use chars::is_alphanum;
pub use chars::lemma_char_range_members;
pub use chars::valid_char_code;
pub use laws::lemma_plain_pattern_matches_iff_equal;
pub use laws::lemma_question_matches_one_char;
pub use laws::lemma_range_pattern_matches_members;
pub use laws::lemma_star_accepts_all;
pub use laws::range_tokens;
pub use laws::literal_tokens;
pub use laws::plain_char;
pub use laws::question_tokens;
pub use laws::star_tokens;
pub use matcher::Matcher;
pub use matcher::matches_from;
pub use matcher::pattern_matches;
pub use parser::Parser;
pub use parser::compile;
pub use parser::compile_spec;
pub use parser::enum_scan;
pub use parser::group_spec;
pub use parser::next_spec;
pub use token::ParseError;
pub use token::Token;
pub use token::TokenType;
pub use token::TokenV;
pub use token::tok_views;
pub use token::wf_tokens;
