//! Words: what a kind of word has to offer, and the fallback kind.

use vstd::prelude::*;
use vstd::std_specs::convert::FromSpecImpl;
use crate::parse_result::{ParseResult, Recognition};
use crate::priority::Priority;
use crate::token::{valid_text, Token};

verus! {

/// A kind of word that can be recognized in a token.
pub trait Word {
    /// The text that this word matched.
    spec fn raw(&self) -> Seq<char>;

    /// What this kind makes of a text: recognition depends on the text alone.
    spec fn recognize(fragment: Seq<char>) -> Recognition where Self: Sized;

    /// The rank at which this kind is tried.
    spec fn rank() -> Priority where Self: Sized;

    /// Whatever this kind splits, it splits without loss.
    proof fn recognize_is_sound(fragment: Seq<char>) where Self: Sized
        requires
            valid_text(fragment),
        ensures
            Self::recognize(fragment).sound_for(fragment),
    ;

    /// Can a word of this kind span several tokens?
    fn is_multi_token() -> (multi: bool) where Self: Sized
        ensures
            multi == Self::MULTI_TOKEN,
    {
        Self::MULTI_TOKEN
    }

    /// Whether a word of this kind can span several tokens. It is the same
    /// for every word of a kind, and no kind does unless it says so.
    const MULTI_TOKEN: bool = false;

    /// Tries to read `token` as a word of this kind.
    fn try_from_token(token: Token) -> (result: ParseResult<Self>) where Self: Sized
        ensures
            result.recognition(|word: Self| word.raw()) == Self::recognize(token@),
            result matches ParseResult::NoMatch(back) ==> back@ == token@,
    ;

    /// The rank at which this kind is tried. Kinds of a higher rank are tried
    /// first; kinds of one rank are tried in the order of their registration.
    fn priority() -> (p: Priority) where Self: Sized
        ensures
            p == Self::rank(),
    ;

    /// The text that this word matched.
    fn raw_text(&self) -> (s: &str)
        ensures
            s@ == self.raw(),
    ;
}

/// The fallback: a word that is whatever text was left.
#[derive(Debug)]
pub struct Normal {
    text: String,
}

impl Normal {
    /// A fallback word of the text `tok`.
    pub fn new(tok: &str) -> (word: Normal)
        ensures
            word.raw() == tok@,
    {
        Normal { text: tok.to_owned() }
    }
}

impl Word for Normal {
    closed spec fn raw(&self) -> Seq<char> {
        self.text@
    }

    open spec fn recognize(fragment: Seq<char>) -> Recognition {
        Recognition::Whole { word: fragment }
    }

    open spec fn rank() -> Priority {
        Priority::Lowest
    }

    proof fn recognize_is_sound(fragment: Seq<char>) {
    }

    fn is_multi_token() -> (multi: bool)
        ensures
            !multi,
    {
        false
    }

    fn try_from_token(token: Token) -> (result: ParseResult<Normal>) {
        ParseResult::Matched(Normal::new(token.as_str()))
    }

    fn priority() -> (p: Priority) {
        Priority::Lowest
    }

    fn raw_text(&self) -> (s: &str) {
        self.text.as_str()
    }
}

/// What is kept of a word once its kind is forgotten.
trait Held {
    spec fn held(&self) -> Seq<char>;

    fn held_text(&self) -> (s: &str)
        ensures
            s@ == self.held(),
    ;
}

impl<W: Word> Held for W {
    closed spec fn held(&self) -> Seq<char> {
        self.raw()
    }

    fn held_text(&self) -> (s: &str) {
        self.raw_text()
    }
}

/// A word of any kind. Its view is the text that it matched.
pub struct AnyWord {
    inner: Box<dyn Held>,
}

impl View for AnyWord {
    type V = Seq<char>;

    closed spec fn view(&self) -> Seq<char> {
        self.inner.held()
    }
}

impl AnyWord {
    /// Forgets the kind of `word` and keeps the word.
    pub fn new<W: Word + 'static>(word: W) -> (any: AnyWord)
        ensures
            any@ == word.raw(),
    {
        AnyWord { inner: Box::new(word) }
    }

    /// The text that this word matched.
    pub fn raw_text(&self) -> (s: &str)
        ensures
            s@ == self@,
    {
        self.inner.held_text()
    }
}

/// The words of a text, in the order of the text.
pub struct Words(pub Vec<AnyWord>);

impl View for Words {
    type V = Seq<Seq<char>>;

    open spec fn view(&self) -> Seq<Seq<char>> {
        self.0@.map_values(|word: AnyWord| word@)
    }
}

impl Default for Words {
    fn default() -> (words: Words)
        ensures
            words@ == Seq::<Seq<char>>::empty(),
    {
        Words::new()
    }
}

impl From<Vec<AnyWord>> for Words {
    fn from(words: Vec<AnyWord>) -> (made: Words)
        ensures
            made@ == words@.map_values(|word: AnyWord| word@),
    {
        Words(words)
    }
}

impl FromSpecImpl<Vec<AnyWord>> for Words {
    open spec fn obeys_from_spec() -> bool {
        true
    }

    open spec fn from_spec(words: Vec<AnyWord>) -> Words {
        Words(words)
    }
}

impl Words {
    /// No words.
    pub fn new() -> (words: Words)
        ensures
            words@ == Seq::<Seq<char>>::empty(),
    {
        let words = Words(Vec::new());
        assert(words@ =~= Seq::<Seq<char>>::empty());
        words
    }

    /// Puts `word` behind these words.
    pub fn push(&mut self, word: AnyWord)
        ensures
            final(self)@ == old(self)@.push(word@),
    {
        self.0.push(word);
        assert(self@ =~= old(self)@.push(word@));
    }

    /// Puts the words of `rest` behind these words, in their order.
    pub fn extend(&mut self, rest: Words)
        ensures
            final(self)@ == old(self)@ + rest@,
    {
        let mut tail = rest.0;
        self.0.append(&mut tail);
        assert(self@ =~= old(self)@ + rest@);
    }

    /// The number of words.
    pub fn len(&self) -> (n: usize)
        ensures
            n == self@.len(),
    {
        self.0.len()
    }

    /// The `i`-th word.
    pub fn get(&self, i: usize) -> (word: &AnyWord)
        requires
            i < self@.len(),
        ensures
            word@ == self@[i as int],
    {
        &self.0[i]
    }
}

} // verus!
