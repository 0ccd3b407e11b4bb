use novel_words::{Token, TokenCreationError};

#[test]
fn empty_text_is_refused() {
    assert_eq!(Token::try_new("").unwrap_err(), TokenCreationError::Empty);
}

#[test]
fn text_with_space_is_refused() {
    assert_eq!(
        Token::try_new("a b").unwrap_err(),
        TokenCreationError::ContainsSpace
    );
    assert_eq!(
        Token::try_new(" ").unwrap_err(),
        TokenCreationError::ContainsSpace
    );
    assert_eq!(
        Token::try_new("ab ").unwrap_err(),
        TokenCreationError::ContainsSpace
    );
}

#[test]
fn valid_text_is_accepted() {
    let token = Token::try_new("ok").unwrap();
    assert_eq!(token.as_str(), "ok");
}

#[test]
fn other_whitespace_is_no_space() {
    let token = Token::try_new("a\tb").unwrap();
    assert_eq!(token.as_str(), "a\tb");
}

#[test]
fn new_keeps_the_text() {
    assert_eq!(Token::new("dis!das").as_str(), "dis!das");
    assert_eq!(Token::new("né").as_str(), "né");
}

#[test]
fn tokens_are_equal_by_content() {
    assert_eq!(Token::new("dis"), Token::new("dis"));
    assert_ne!(Token::new("dis"), Token::new("das"));
    let token = Token::new("dis");
    assert_eq!(token.clone(), token);
}

#[test]
fn each_error_has_its_wording() {
    assert_eq!(
        TokenCreationError::ContainsSpace.message(),
        "Token contains space"
    );
    assert_eq!(TokenCreationError::Empty.message(), "Token is empty");
    assert_eq!(TokenCreationError::Other.message(), "");
}
