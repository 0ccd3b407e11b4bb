use novel_words::default_words::{Exclamation, Punctuation, QuestionMark};
use novel_words::{ParseResult, Priority, Token, Word};

#[test]
fn right_exclamation() {
    if let ParseResult::Matched(mark) = Exclamation::try_from_token(Token::new("!")) {
        assert_eq!(mark.raw_text(), "!");
    } else {
        panic!()
    }
}

#[test]
fn first_part_right_exclamation() {
    if let ParseResult::Partial(Some(dis), mark, None) =
        Exclamation::try_from_token(Token::new("dis!"))
    {
        assert_eq!(mark.raw_text(), "!", "Mark is not `!`");
        assert_eq!(dis.as_str(), "dis", "Rest is not `dis`");
    } else {
        panic!()
    }
}

#[test]
fn second_part_right_exclamation() {
    if let ParseResult::Partial(None, mark, Some(dis)) =
        Exclamation::try_from_token(Token::new("!dis"))
    {
        assert_eq!(mark.raw_text(), "!", "Mark is not `!`");
        assert_eq!(dis.as_str(), "dis", "Rest is not `dis`");
    } else {
        panic!()
    }
}

#[test]
fn both_part_right_exclamation() {
    if let ParseResult::Partial(Some(dis), mark, Some(dis2)) =
        Exclamation::try_from_token(Token::new("dis!dis2"))
    {
        assert_eq!(mark.raw_text(), "!", "Mark is not `!`");
        assert_eq!(dis.as_str(), "dis", "Rest is not `dis`");
        assert_eq!(dis2.as_str(), "dis2", "Rest is not `dis`");
    } else {
        panic!()
    }
}

#[test]
fn no_match_exclamation() {
    assert!(matches!(
        Exclamation::try_from_token(Token::new("dis")),
        ParseResult::NoMatch(_token)
    ))
}

fn texts_of_split(token: &str) -> (String, String, String) {
    match Exclamation::try_from_token(Token::new(token)) {
        ParseResult::Partial(pre, mark, post) => (
            pre.map(|t| t.as_str().to_string()).unwrap_or_default(),
            mark.raw_text().to_string(),
            post.map(|t| t.as_str().to_string()).unwrap_or_default(),
        ),
        _ => panic!(),
    }
}

#[test]
fn split_is_at_the_first_occurrence() {
    assert_eq!(
        texts_of_split("a!b!c"),
        ("a".to_string(), "!".to_string(), "b!c".to_string())
    );
    assert_eq!(
        texts_of_split("!!"),
        ("".to_string(), "!".to_string(), "!".to_string())
    );
}

#[test]
fn split_loses_no_character() {
    for text in ["dis!", "!dis", "dis!das", "a!b!c", "né!né", "!!", "x!!"] {
        let (pre, mark, post) = texts_of_split(text);
        assert_eq!(format!("{pre}{mark}{post}"), text);
    }
}

#[test]
fn split_counts_in_characters() {
    assert_eq!(
        texts_of_split("né!où"),
        ("né".to_string(), "!".to_string(), "où".to_string())
    );
}

#[test]
fn token_of_the_length_of_the_mark_is_taken_whole() {
    match Exclamation::try_from_token(Token::new("a")) {
        ParseResult::Matched(mark) => assert_eq!(mark.raw_text(), "!"),
        _ => panic!(),
    }
}

#[test]
fn length_is_counted_in_bytes() {
    assert!(matches!(
        Exclamation::try_from_token(Token::new("é")),
        ParseResult::NoMatch(_)
    ));
}

#[test]
fn no_match_gives_the_token_back() {
    match Exclamation::try_from_token(Token::new("dis")) {
        ParseResult::NoMatch(token) => assert_eq!(token.as_str(), "dis"),
        _ => panic!(),
    }
}

#[test]
fn question_mark_is_found() {
    match QuestionMark::try_from_token(Token::new("why?no")) {
        ParseResult::Partial(Some(pre), mark, Some(post)) => {
            assert_eq!(pre.as_str(), "why");
            assert_eq!(mark.raw_text(), "?");
            assert_eq!(post.as_str(), "no");
        }
        _ => panic!(),
    }
}

#[test]
fn punctuation_is_of_the_highest_rank() {
    assert_eq!(Exclamation::priority(), Priority::Highest);
    assert_eq!(QuestionMark::priority(), Priority::Highest);
    assert!(!Exclamation::is_multi_token());
    assert_eq!(QuestionMark::is_multi_token(), QuestionMark::MULTI_TOKEN);
    assert_eq!(Exclamation::text(), "!");
    assert_eq!(QuestionMark::text(), "?");
}
