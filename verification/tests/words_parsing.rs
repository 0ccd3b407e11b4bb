use novel_words::default_words::{Exclamation, QuestionMark};
use novel_words::{AnyWord, Normal, ParseResult, Priority, Token, Word, WordParser, Words};

#[test]
fn normal() {
    let parser = WordParser::new();
    assert_eq!(parser.parse(Token::new("dis")).0[0].raw_text(), "dis");
}

#[test]
fn normal_with_exclamation() {
    let mut parser = WordParser::new();
    parser.register::<Exclamation>();
    let res = parser.parse(Token::new("dis!"));
    assert_eq!(res.0[0].raw_text(), "dis");
    assert_eq!(res.0[1].raw_text(), "!");
}

#[test]
fn complex() {
    let mut parser = WordParser::new();
    parser.register::<Exclamation>();
    parser.register::<QuestionMark>();
    let res = parser.parse(Token::new("?dis!das"));
    assert_eq!(res.0[0].raw_text(), "?");
    assert_eq!(res.0[1].raw_text(), "dis");
    assert_eq!(res.0[2].raw_text(), "!");
    assert_eq!(res.0[3].raw_text(), "das");
}

fn texts(words: &Words) -> Vec<String> {
    words.0.iter().map(|w| w.raw_text().to_string()).collect()
}

fn marks() -> WordParser {
    let mut parser = WordParser::new();
    parser.register::<Exclamation>();
    parser.register::<QuestionMark>();
    parser
}

#[test]
fn recursive_decomposition() {
    let mut parser = WordParser::new();
    parser.register::<Exclamation>();
    assert_eq!(
        texts(&parser.parse(Token::new("dis!das"))),
        ["dis", "!", "das"]
    );
}

#[test]
fn boundary_cases() {
    let mut parser = WordParser::new();
    parser.register::<Exclamation>();
    assert_eq!(texts(&parser.parse(Token::new("!dis"))), ["!", "dis"]);
    assert_eq!(texts(&parser.parse(Token::new("dis!"))), ["dis", "!"]);
    assert_eq!(texts(&parser.parse(Token::new("!"))), ["!"]);
    assert_eq!(texts(&WordParser::new().parse(Token::new("dis"))), ["dis"]);
}

#[test]
fn every_occurrence_is_pulled_out() {
    assert_eq!(
        texts(&marks().parse(Token::new("what?!no!yes"))),
        ["what", "?", "!", "no", "!", "yes"]
    );
    assert_eq!(texts(&marks().parse(Token::new("ab!!cd"))), ["ab", "!", "!", "cd"]);
}

#[test]
fn words_rebuild_the_text() {
    for text in ["dis", "dis!das", "?dis!das", "ab!!cd", "né!où?oui", "what?!no!yes"] {
        let words = marks().parse(Token::new(text));
        assert!(words.len() > 0);
        assert_eq!(texts(&words).concat(), text);
    }
}

#[test]
fn text_without_a_mark_is_one_fallback() {
    for text in ["dis", "née", "a.b,c"] {
        let words = marks().parse(Token::new(text));
        assert_eq!(words.len(), 1);
        assert_eq!(words.get(0).raw_text(), text);
    }
}

#[test]
fn the_higher_rank_decides() {
    let mut parser = WordParser::new();
    parser.register::<Normal>();
    assert_eq!(texts(&parser.parse(Token::new("dis!das"))), ["dis!das"]);
    parser.register::<Exclamation>();
    assert_eq!(
        texts(&parser.parse(Token::new("dis!das"))),
        ["dis", "!", "das"]
    );
}

#[test]
fn kinds_of_one_rank_are_tried_as_registered() {
    let mut first = WordParser::new();
    first.register::<Exclamation>();
    first.register::<QuestionMark>();
    assert_eq!(texts(&first.parse(Token::new("xy?yz!"))), ["xy", "?", "yz", "!"]);
    let mut second = WordParser::new();
    second.register::<QuestionMark>();
    second.register::<Exclamation>();
    assert_eq!(texts(&second.parse(Token::new("xy?yz!"))), ["xy", "?", "yz", "!"]);
    // A leftover of the length of a mark is taken whole by the first kind tried.
    assert_eq!(texts(&first.parse(Token::new("ab?c"))), ["ab", "?", "!"]);
    assert_eq!(texts(&second.parse(Token::new("ab?c"))), ["ab", "?", "?"]);
}

#[test]
fn a_kind_may_be_registered_twice() {
    let mut parser = WordParser::new();
    parser.register::<Exclamation>();
    parser.register::<Exclamation>();
    assert_eq!(texts(&parser.parse(Token::new("dis!"))), ["dis", "!"]);
}

#[test]
fn resolve_puts_the_word_between_its_leftovers() {
    let parser = marks();
    let found = ParseResult::Partial(
        Some(Token::new("ab?cd")),
        AnyWord::new(Normal::new("-")),
        Some(Token::new("ef!")),
    );
    assert_eq!(
        texts(&parser.resolve(found)),
        ["ab", "?", "cd", "-", "ef", "!"]
    );
    let whole = ParseResult::Matched(AnyWord::new(Normal::new("dis")));
    assert_eq!(texts(&parser.resolve(whole)), ["dis"]);
    let none = ParseResult::NoMatch(Token::new("dis"));
    assert_eq!(parser.resolve(none).len(), 0);
}

#[test]
fn fallback_takes_any_token() {
    match Normal::try_from_token(Token::new("dis!")) {
        ParseResult::Matched(word) => assert_eq!(word.raw_text(), "dis!"),
        _ => panic!(),
    }
    assert_eq!(Normal::priority(), Priority::Lowest);
    assert!(!Normal::is_multi_token());
    assert_eq!(Normal::is_multi_token(), Normal::MULTI_TOKEN);
    assert_eq!(Normal::new("dis").raw_text(), "dis");
}

#[test]
fn words_are_kept_in_order() {
    let mut words = Words::new();
    assert_eq!(words.len(), 0);
    words.push(AnyWord::new(Normal::new("a")));
    let mut rest = Words::default();
    rest.push(AnyWord::new(Normal::new("b")));
    rest.push(AnyWord::new(Exclamation::from(Token::new("!"))));
    words.extend(rest);
    assert_eq!(texts(&words), ["a", "b", "!"]);
    let made = Words::from(vec![AnyWord::new(Normal::new("c"))]);
    assert_eq!(texts(&made), ["c"]);
}
