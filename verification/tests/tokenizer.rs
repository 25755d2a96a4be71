use shell_core::error::Error;
use shell_core::tokenizer::{tokenize, whitespace};

fn owned(words: &[&str]) -> Vec<String> {
    words.iter().map(|w| w.to_string()).collect()
}

#[test]
fn tokenize_splits_on_runs_of_whitespace() {
    assert_eq!(tokenize("  ls \t -l\u{3000}/tmp \n"), Ok(owned(&["ls", "-l", "/tmp"])));
}

#[test]
fn tokenize_single_word() {
    assert_eq!(tokenize("ls"), Ok(owned(&["ls"])));
    assert_eq!(tokenize("ls\n"), Ok(owned(&["ls"])));
    assert_eq!(tokenize("\tls"), Ok(owned(&["ls"])));
}

#[test]
fn tokenize_empty_line_has_no_words() {
    assert_eq!(tokenize(""), Ok(Vec::new()));
}

#[test]
fn tokenize_whitespace_only_line_has_no_words() {
    assert_eq!(tokenize(" "), Ok(Vec::new()));
    assert_eq!(tokenize(" \t\r\n\u{0B}\u{0C}"), Ok(Vec::new()));
    assert_eq!(
        tokenize("\u{85}\u{A0}\u{1680}\u{2000}\u{200A}\u{2028}\u{2029}\u{202F}\u{205F}\u{3000}"),
        Ok(Vec::new())
    );
}

#[test]
fn tokenize_does_no_quoting_escaping_or_expansion() {
    assert_eq!(
        tokenize("echo \"a b\" 'c d' e\\ f $HOME ~ *.rs a|b >out"),
        Ok(owned(&[
            "echo", "\"a", "b\"", "'c", "d'", "e\\", "f", "$HOME", "~", "*.rs", "a|b", ">out"
        ]))
    );
}

#[test]
fn tokenize_keeps_characters_outside_ascii() {
    assert_eq!(tokenize("écho  日本語\u{2003}ß"), Ok(owned(&["écho", "日本語", "ß"])));
}

#[test]
fn tokenize_does_not_cut_at_zero_width_space() {
    assert_eq!(tokenize("a\u{200B}b"), Ok(owned(&["a\u{200B}b"])));
}

#[test]
fn tokenize_refuses_nul() {
    assert_eq!(tokenize("ls a\0b"), Err(Error::InvalidArgument));
    assert_eq!(tokenize("\0"), Err(Error::InvalidArgument));
    assert_eq!(tokenize("ls \0 -l"), Err(Error::InvalidArgument));
    assert_eq!(tokenize("   \0"), Err(Error::InvalidArgument));
}

#[test]
fn tokenize_agrees_with_split_whitespace() {
    let lines = [
        "",
        "a",
        " a",
        "a ",
        "a b",
        "a  b",
        "  a\tb\n",
        "\u{2000}x\u{2001}y\u{3000}",
        "one two three four five",
        "x\u{85}y\u{A0}z",
        "trailing   ",
        "   leading",
    ];
    for line in lines {
        let expected: Vec<String> = line.split_whitespace().map(|w| w.to_string()).collect();
        assert_eq!(tokenize(line), Ok(expected), "line {:?}", line);
    }
}

#[test]
fn whitespace_is_the_unicode_property() {
    let mut code: u32 = 0;
    while code <= 0x10FFFF {
        if let Some(c) = char::from_u32(code) {
            assert_eq!(whitespace(c), c.is_whitespace(), "U+{:04X}", code);
        }
        code += 1;
    }
}

#[test]
fn whitespace_on_chosen_characters() {
    assert!(whitespace(' '));
    assert!(whitespace('\t'));
    assert!(whitespace('\n'));
    assert!(whitespace('\r'));
    assert!(whitespace('\u{3000}'));
    assert!(!whitespace('a'));
    assert!(!whitespace('\0'));
    assert!(!whitespace('/'));
    assert!(!whitespace('\u{8}'));
    assert!(!whitespace('\u{E}'));
    assert!(!whitespace('\u{200B}'));
}
