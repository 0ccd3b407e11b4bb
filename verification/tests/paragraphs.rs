use novel_words::{Paragraph, Paragraphs, Token};

#[test]
fn paragraph_keeps_its_tokens_in_order() {
    let mut paragraph = Paragraph::default();
    assert!(paragraph.elements().is_empty());
    paragraph.push(Token::new("dis"));
    paragraph.push(Token::new("das!"));
    let texts: Vec<&str> = paragraph.elements().iter().map(|t| t.as_str()).collect();
    assert_eq!(texts, ["dis", "das!"]);
}

#[test]
fn paragraphs_keep_their_order() {
    let mut first = Paragraph::default();
    first.push(Token::new("a"));
    let mut all = Paragraphs::from(vec![first]);
    all.push(Paragraph::default());
    assert_eq!(all.paragraphs().len(), 2);
    assert_eq!(all.paragraphs()[0].elements()[0].as_str(), "a");
    assert!(all.paragraphs()[1].elements().is_empty());
    assert!(Paragraphs::default().paragraphs().is_empty());
}
