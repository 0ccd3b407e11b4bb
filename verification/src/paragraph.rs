//! Paragraphs: tokens in the order in which they were read.

use vstd::prelude::*;
use vstd::std_specs::convert::FromSpecImpl;
use crate::token::Token;

verus! {

/// The tokens of one paragraph, in their order. Its view is their texts.
#[derive(Debug)]
pub struct Paragraph {
    elements: Vec<Token>,
}

impl View for Paragraph {
    type V = Seq<Seq<char>>;

    closed spec fn view(&self) -> Seq<Seq<char>> {
        self.elements@.map_values(|token: Token| token@)
    }
}

impl Default for Paragraph {
    fn default() -> (paragraph: Paragraph)
        ensures
            paragraph@ == Seq::<Seq<char>>::empty(),
    {
        let paragraph = Paragraph { elements: Vec::new() };
        assert(paragraph@ =~= Seq::<Seq<char>>::empty());
        paragraph
    }
}

impl Paragraph {
    /// The tokens of this paragraph.
    pub fn elements(&self) -> (tokens: &Vec<Token>)
        ensures
            tokens@.map_values(|token: Token| token@) == self@,
    {
        &self.elements
    }

    /// Puts `token` at the end of this paragraph.
    pub fn push(&mut self, token: Token)
        ensures
            final(self)@ == old(self)@.push(token@),
    {
        self.elements.push(token);
        assert(self@ =~= old(self)@.push(token@));
    }
}

/// The paragraphs of a text, in their order.
#[derive(Debug)]
pub struct Paragraphs(Vec<Paragraph>);

impl View for Paragraphs {
    type V = Seq<Seq<Seq<char>>>;

    closed spec fn view(&self) -> Seq<Seq<Seq<char>>> {
        self.0@.map_values(|paragraph: Paragraph| paragraph@)
    }
}

impl Default for Paragraphs {
    fn default() -> (paragraphs: Paragraphs)
        ensures
            paragraphs@ == Seq::<Seq<Seq<char>>>::empty(),
    {
        let paragraphs = Paragraphs(Vec::new());
        assert(paragraphs@ =~= Seq::<Seq<Seq<char>>>::empty());
        paragraphs
    }
}

impl From<Vec<Paragraph>> for Paragraphs {
    fn from(paragraphs: Vec<Paragraph>) -> (made: Paragraphs)
        ensures
            made@ == paragraphs@.map_values(|paragraph: Paragraph| paragraph@),
    {
        Paragraphs(paragraphs)
    }
}

impl FromSpecImpl<Vec<Paragraph>> for Paragraphs {
    open spec fn obeys_from_spec() -> bool {
        true
    }

    closed spec fn from_spec(paragraphs: Vec<Paragraph>) -> Paragraphs {
        Paragraphs(paragraphs)
    }
}

impl Paragraphs {
    /// The paragraphs.
    pub fn paragraphs(&self) -> (all: &Vec<Paragraph>)
        ensures
            all@.map_values(|paragraph: Paragraph| paragraph@) == self@,
    {
        &self.0
    }

    /// Puts `paragraph` behind the others.
    pub fn push(&mut self, paragraph: Paragraph)
        ensures
            final(self)@ == old(self)@.push(paragraph@),
    {
        self.0.push(paragraph);
        assert(self@ =~= old(self)@.push(paragraph@));
    }
}

} // verus!
