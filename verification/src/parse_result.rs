//! What a recognizer answers for one token.

use vstd::prelude::*;
use crate::token::Token;

verus! {

/// The answer of a recognizer of words of kind `T` for one token.
pub enum ParseResult<T> {
    /// The whole token is a word of the kind.
    Matched(T),
    /// A word of the kind stands inside the token, after the first token and
    /// before the last, where they are there.
    Partial(Option<Token>, T, Option<Token>),
    /// The token, given back as it came.
    NoMatch(Token),
}

/// The text of a leftover: that of the token, or the empty text where there is none.
pub open spec fn leftover(side: Option<Token>) -> Seq<char> {
    match side {
        Some(token) => token@,
        None => Seq::empty(),
    }
}

impl<T> ParseResult<T> {
    /// This answer as texts alone, where `raw` gives the text of a word.
    pub open spec fn recognition(self, raw: spec_fn(T) -> Seq<char>) -> Recognition {
        match self {
            ParseResult::Matched(word) => Recognition::Whole { word: raw(word) },
            ParseResult::Partial(pre, word, post) => Recognition::Split {
                before: leftover(pre),
                word: raw(word),
                after: leftover(post),
            },
            ParseResult::NoMatch(_) => Recognition::Missed,
        }
    }
}

/// What a recognizer makes of a text, as texts alone.
pub enum Recognition {
    /// The whole text is taken as `word`.
    Whole { word: Seq<char> },
    /// `word` was found in the text, between `before` and `after`.
    Split { before: Seq<char>, word: Seq<char>, after: Seq<char> },
    /// Nothing was recognized.
    Missed,
}

impl Recognition {
    /// A split of `fragment` loses and gains no character, and its word is not empty.
    pub open spec fn sound_for(self, fragment: Seq<char>) -> bool {
        self matches Recognition::Split { before, word, after } ==> {
            &&& word.len() > 0
            &&& before + word + after == fragment
        }
    }
}

} // verus!
