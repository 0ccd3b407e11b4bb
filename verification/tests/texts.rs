use novel_words::text::{byte_count, chars_of, find, has_space};

#[test]
fn find_gives_the_first_place() {
    assert_eq!(find("dis!das!", "!"), Some(3));
    assert_eq!(find("!dis", "!"), Some(0));
    assert_eq!(find("dis", "!"), None);
    assert_eq!(find("abab", "ab"), Some(0));
    assert_eq!(find("aab", "ab"), Some(1));
}

#[test]
fn find_counts_characters() {
    assert_eq!(find("né!", "!"), Some(2));
    assert_eq!("né!".find("!"), Some(3));
}

#[test]
fn find_of_a_longer_needle_is_none() {
    assert_eq!(find("ab", "abc"), None);
    assert_eq!(find("", "a"), None);
}

#[test]
fn find_of_the_empty_needle_is_the_start() {
    assert_eq!(find("ab", ""), Some(0));
    assert_eq!(find("", ""), Some(0));
}

#[test]
fn chars_are_kept_in_order() {
    assert_eq!(chars_of("né!"), vec!['n', 'é', '!']);
    assert_eq!(chars_of(""), Vec::<char>::new());
}

#[test]
fn bytes_are_counted() {
    assert_eq!(byte_count("!"), 1);
    assert_eq!(byte_count("é"), 2);
    assert_eq!(byte_count(""), 0);
}

#[test]
fn spaces_are_seen() {
    assert!(has_space("a b"));
    assert!(has_space(" "));
    assert!(!has_space("ab"));
    assert!(!has_space(""));
}
