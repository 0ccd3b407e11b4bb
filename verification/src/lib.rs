//! An extensible lexical classifier: one run of non-whitespace text becomes a
//! sequence of typed words, and the kinds of word that can be recognized are
//! registered by the caller.

use vstd::prelude::*;

pub mod default_words;
pub mod dispatch;
pub mod laws;
pub mod paragraph;
pub mod parse_result;
pub mod priority;
pub mod text;
pub mod token;
pub mod word;
pub mod word_parser;

pub use paragraph::{Paragraph, Paragraphs};
pub use parse_result::{ParseResult, Recognition};
pub use priority::Priority;
pub use token::{Token, TokenCreationError};
pub use word::{AnyWord, Normal, Word, Words};
pub use word_parser::WordParser;

verus! {

/// Adds two numbers whose sum fits in 64 bits.
pub fn add(left: u64, right: u64) -> (sum: u64)
    requires
        left + right <= u64::MAX,
    ensures
        sum == left + right,
{
    left + right
}

} // verus!
