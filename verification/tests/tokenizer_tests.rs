//! Splitting raw tool output into flag words.

use pkg_config::split_flags;

fn words(s: &str) -> Vec<String> {
    split_flags(s)
}

#[test]
fn splits_on_unescaped_whitespace() {
    assert_eq!(words("-L/usr/lib -lz"), vec!["-L/usr/lib", "-lz"]);
    assert_eq!(words("a  b\t c\nd\re"), vec!["a", "b", "c", "d", "e"]);
    assert_eq!(words("   "), Vec::<String>::new());
    assert_eq!(words(""), Vec::<String>::new());
}

#[test]
fn backslash_escapes_whitespace_into_word() {
    // an escaped space stays inside the current word
    assert_eq!(words("a\\ b"), vec!["a b"]);
    assert_eq!(words("a\\\tb"), vec!["a\tb"]);
    // an escaped backslash is a literal backslash
    assert_eq!(words("a\\\\b"), vec!["a\\b"]);
}

#[test]
fn escapes_are_preserved_literally() {
    assert_eq!(words("\\-L\\/usr\\ lib"), vec!["-L/usr lib"]);
}

#[test]
fn trailing_word_and_trailing_escape() {
    assert_eq!(words("abc"), vec!["abc"]);
    // a trailing backslash escapes nothing and the word is still emitted
    assert_eq!(words("ab\\"), vec!["ab"]);
}

#[test]
fn rejoin_roundtrip_on_clean_output() {
    // tokenizing, rejoining with single spaces, and tokenizing again yields
    // the same words when no word holds an escaped separator
    let first = words("-I/usr/include \t -L/usr/lib\n-lz");
    let rejoined = first.join(" ");
    let second = words(rejoined.as_str());
    assert_eq!(first, second);
}
