//! Punctuation: kinds of word that are one fixed text each.

use vstd::prelude::*;
use vstd::std_specs::convert::FromSpecImpl;
use crate::parse_result::{leftover, ParseResult, Recognition};
use crate::priority::Priority;
use crate::text::{
    byte_count, byte_len, cut_at_occurrence, find, first_at, first_at_is_unique,
    first_occurrence, first_occurrence_is_first, occurs, spaceless_subrange,
};
use crate::token::Token;
use crate::word::Word;

verus! {

/// What a kind with the one text `literal` makes of `fragment`: a fragment of
/// as many bytes as the literal is taken whole as the literal; in any other
/// the literal is looked for, and the fragment is split at the first place
/// where it stands.
pub open spec fn literal_recognition(literal: Seq<char>, fragment: Seq<char>) -> Recognition {
    if byte_len(fragment) == byte_len(literal) {
        Recognition::Whole { word: literal }
    } else if occurs(literal, fragment) {
        let at = first_occurrence(literal, fragment);
        Recognition::Split {
            before: fragment.subrange(0, at),
            word: literal,
            after: fragment.subrange(at + literal.len(), fragment.len() as int),
        }
    } else {
        Recognition::Missed
    }
}

/// Where a literal is found in a fragment, the three pieces of the split are
/// the fragment, character for character; the piece before holds no earlier
/// occurrence, and one of the two leftovers is not empty.
pub proof fn literal_split_is_exact(literal: Seq<char>, fragment: Seq<char>)
    requires
        literal_recognition(literal, fragment) is Split,
    ensures
        literal_recognition(literal, fragment) matches Recognition::Split { before, word, after }
            && {
            &&& word == literal
            &&& before + literal + after == fragment
            &&& first_at(literal, fragment, before.len() as int)
            &&& before.len() + after.len() > 0
        },
{
    first_occurrence_is_first(literal, fragment);
    let at = first_occurrence(literal, fragment);
    cut_at_occurrence(literal, fragment, at);
    if fragment.subrange(0, at).len() + fragment.subrange(
        at + literal.len(),
        fragment.len() as int,
    ).len() == 0 {
        assert(fragment.subrange(at, at + literal.len()) =~= fragment);
    }
}

/// A kind of word that is one fixed text, wherever it stands in a token.
pub trait Punctuation: From<Token> {
    /// The text of this kind.
    spec fn literal() -> Seq<char> where Self: Sized;

    /// The text of a kind is not empty.
    proof fn literal_is_not_empty() where Self: Sized
        ensures
            Self::literal().len() > 0,
    ;

    /// The text this punctuation stands for.
    fn text() -> (s: &'static str) where Self: Sized
        ensures
            s@ == Self::literal(),
    ;
}

impl<P: Punctuation + 'static> Word for P {
    const MULTI_TOKEN: bool = false;

    open spec fn raw(&self) -> Seq<char> {
        P::literal()
    }

    open spec fn recognize(fragment: Seq<char>) -> Recognition {
        literal_recognition(P::literal(), fragment)
    }

    open spec fn rank() -> Priority {
        Priority::Highest
    }

    proof fn recognize_is_sound(fragment: Seq<char>) {
        P::literal_is_not_empty();
        if literal_recognition(P::literal(), fragment) is Split {
            literal_split_is_exact(P::literal(), fragment);
        }
    }

    fn is_multi_token() -> (multi: bool)
        ensures
            !multi,
    {
        false
    }

    fn try_from_token(token: Token) -> (result: ParseResult<P>) {
        let text = P::text();
        let whole = token.as_str();
        if byte_count(whole) == byte_count(text) {
            ParseResult::Matched(P::from(token))
        } else {
            match find(whole, text) {
                Some(at) => {
                    proof {
                        P::literal_is_not_empty();
                        first_occurrence_is_first(text@, whole@);
                        first_at_is_unique(
                            text@,
                            whole@,
                            at as int,
                            first_occurrence(text@, whole@),
                        );
                        spaceless_subrange(whole@, 0, at as int);
                        spaceless_subrange(whole@, at as int, at + text@.len());
                        spaceless_subrange(whole@, at + text@.len(), whole@.len() as int);
                    }
                    let length: usize = whole.unicode_len();
                    let width: usize = text.unicode_len();
                    let pre = whole.substring_char(0, at);
                    let post = whole.substring_char(at + width, length);
                    let pre_token = if pre.is_empty() {
                        None
                    } else {
                        Some(Token::new(pre))
                    };
                    let post_token = if post.is_empty() {
                        None
                    } else {
                        Some(Token::new(post))
                    };
                    assert(leftover(pre_token) =~= pre@);
                    assert(leftover(post_token) =~= post@);
                    ParseResult::Partial(pre_token, P::from(Token::new(text)), post_token)
                },
                None => ParseResult::NoMatch(token),
            }
        }
    }

    fn priority() -> (p: Priority) {
        Priority::Highest
    }

    fn raw_text(&self) -> (s: &str) {
        P::text()
    }
}

/// The exclamation mark.
#[derive(Debug)]
pub struct Exclamation;

impl Punctuation for Exclamation {
    open spec fn literal() -> Seq<char> {
        "!"@
    }

    proof fn literal_is_not_empty() {
        reveal_strlit("!");
    }

    fn text() -> (s: &'static str) {
        "!"
    }
}

impl From<Token> for Exclamation {
    fn from(_value: Token) -> (mark: Exclamation) {
        Exclamation
    }
}

impl FromSpecImpl<Token> for Exclamation {
    open spec fn obeys_from_spec() -> bool {
        true
    }

    open spec fn from_spec(_value: Token) -> Exclamation {
        Exclamation
    }
}

/// The question mark.
#[derive(Debug)]
pub struct QuestionMark;

impl Punctuation for QuestionMark {
    open spec fn literal() -> Seq<char> {
        "?"@
    }

    proof fn literal_is_not_empty() {
        reveal_strlit("?");
    }

    fn text() -> (s: &'static str) {
        "?"
    }
}

impl From<Token> for QuestionMark {
    fn from(_value: Token) -> (mark: QuestionMark) {
        QuestionMark
    }
}

impl FromSpecImpl<Token> for QuestionMark {
    open spec fn obeys_from_spec() -> bool {
        true
    }

    open spec fn from_spec(_value: Token) -> QuestionMark {
        QuestionMark
    }
}

} // verus!
