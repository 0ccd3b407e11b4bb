//! Kinds of word that come with the library.

pub mod punctuation;

pub use punctuation::{literal_recognition, Exclamation, Punctuation, QuestionMark};
