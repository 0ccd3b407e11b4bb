//! The token: a validated unit of text.

use vstd::prelude::*;
use vstd::std_specs::cmp::PartialEqSpecImpl;
use crate::text::{has_space, spaceless};

verus! {

/// A text can be a token: it is not empty and holds no space.
pub open spec fn valid_text(s: Seq<char>) -> bool {
    s.len() > 0 && spaceless(s)
}

/// Why a text was refused as a token.
#[derive(Clone, Copy, Debug, PartialEq, Eq, Structural)]
pub enum TokenCreationError {
    ContainsSpace,
    Empty,
    Other,
}

/// What `try_new` answers for a text.
pub open spec fn verdict(s: Seq<char>) -> Option<TokenCreationError> {
    if s.len() == 0 {
        Some(TokenCreationError::Empty)
    } else if !spaceless(s) {
        Some(TokenCreationError::ContainsSpace)
    } else {
        None
    }
}

impl TokenCreationError {
    /// The wording of this error.
    pub open spec fn wording(self) -> Seq<char> {
        match self {
            TokenCreationError::ContainsSpace => "Token contains space"@,
            TokenCreationError::Empty => "Token is empty"@,
            TokenCreationError::Other => ""@,
        }
    }

    /// The wording of this error, as a string.
    pub fn message(&self) -> (s: String)
        ensures
            s@ == self.wording(),
    {
        match self {
            TokenCreationError::ContainsSpace => "Token contains space".to_owned(),
            TokenCreationError::Empty => "Token is empty".to_owned(),
            TokenCreationError::Other => "".to_owned(),
        }
    }
}

/// A unit of text that is never empty and never holds a space.
#[derive(Debug)]
pub struct Token(String);

impl View for Token {
    type V = Seq<char>;

    closed spec fn view(&self) -> Seq<char> {
        self.0@
    }
}

impl Token {
    /// What holds of every token.
    #[verifier::type_invariant]
    pub open spec fn well_formed(self) -> bool {
        valid_text(self@)
    }

    /// A token of a text that is known to be valid.
    pub fn new(tok: &str) -> (token: Token)
        requires
            valid_text(tok@),
        ensures
            token@ == tok@,
    {
        Token(tok.to_owned())
    }

    /// A token of `tok`, or the reason why `tok` cannot be one.
    pub fn try_new(tok: &str) -> (made: Result<Token, TokenCreationError>)
        ensures
            match made {
                Ok(token) => verdict(tok@) is None && token@ == tok@,
                Err(e) => verdict(tok@) == Some(e),
            },
    {
        if tok.is_empty() {
            return Err(TokenCreationError::Empty);
        } else if has_space(tok) {
            return Err(TokenCreationError::ContainsSpace);
        }
        Ok(Token(tok.to_owned()))
    }

    /// The text of this token.
    pub fn as_str(&self) -> (s: &str)
        ensures
            s@ == self@,
            valid_text(s@),
    {
        proof {
            use_type_invariant(self);
        }
        self.0.as_str()
    }
}

impl Clone for Token {
    fn clone(&self) -> (copy: Token)
        ensures
            copy@ == self@,
    {
        proof {
            use_type_invariant(self);
        }
        Token(self.0.clone())
    }
}

impl PartialEq for Token {
    fn eq(&self, other: &Token) -> (same: bool) {
        self.0 == other.0
    }
}

impl Eq for Token {}

impl PartialEqSpecImpl for Token {
    open spec fn obeys_eq_spec() -> bool {
        true
    }

    open spec fn eq_spec(&self, other: &Token) -> bool {
        self@ == other@
    }
}

} // verus!
