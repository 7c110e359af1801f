use task_service::text::{
    chars_of, contains, find, is_space, last_token_span, matches_at, same_text,
};

fn chars(s: &str) -> Vec<char> {
    s.chars().collect()
}

fn last_word_of(s: &str) -> Option<String> {
    let text = chars(s);
    last_token_span(&text).map(|(start, end)| text[start..end].iter().collect())
}

#[test]
fn chars_of_keeps_every_character() {
    assert_eq!(chars_of(""), Vec::<char>::new());
    assert_eq!(chars_of("abc"), vec!['a', 'b', 'c']);
    assert_eq!(chars_of("h\u{e9}llo \u{4e16}"), vec!['h', '\u{e9}', 'l', 'l', 'o', ' ', '\u{4e16}']);
}

#[test]
fn is_space_agrees_with_std_on_every_char() {
    let mut code: u32 = 0;
    while code <= 0x10ffff {
        if let Some(c) = char::from_u32(code) {
            assert_eq!(is_space(c), c.is_whitespace(), "U+{:04X}", code);
        }
        code += 1;
    }
}

#[test]
fn matches_at_compares_in_place() {
    let text = chars("two hours");
    let pattern = chars("hours");
    assert!(matches_at(&text, &pattern, 4));
    assert!(!matches_at(&text, &pattern, 3));
    assert!(!matches_at(&text, &pattern, 5));
    assert!(!matches_at(&text, &pattern, 9));
    assert!(!matches_at(&text, &pattern, usize::MAX));
    assert!(matches_at(&text, &[], 9));
    assert!(!matches_at(&text, &[], 10));
}

#[test]
fn find_gives_the_leftmost_position() {
    assert_eq!(find(&chars("hours and hours"), &chars("hours")), Some(0));
    assert_eq!(find(&chars("3 hours or 4 hours"), &chars("hours")), Some(2));
    assert_eq!(find(&chars("ends in hours"), &chars("hours")), Some(8));
    assert_eq!(find(&chars("hour"), &chars("hours")), None);
    assert_eq!(find(&chars(""), &chars("hours")), None);
    assert_eq!(find(&chars("abc"), &[]), Some(0));
    assert_eq!(find(&[], &[]), Some(0));
    assert_eq!(find(&chars("hhours"), &chars("hours")), Some(1));
}

#[test]
fn find_agrees_with_std() {
    let texts = ["", "a", "aaa", "abab", "xhoursy", "hou hours", "Low and High", "\u{e9}t\u{e9} hours"];
    let patterns = ["", "a", "ab", "hours", "High", "\u{e9}", "zzz"];
    for text in texts {
        for pattern in patterns {
            let expected = text.find(pattern).map(|byte| text[..byte].chars().count());
            assert_eq!(find(&chars(text), &chars(pattern)), expected, "{:?} in {:?}", pattern, text);
            assert_eq!(contains(&chars(text), &chars(pattern)), text.contains(pattern));
        }
    }
}

#[test]
fn same_text_is_equality() {
    assert!(same_text("", ""));
    assert!(same_text("High", "High"));
    assert!(!same_text("High", "high"));
    assert!(!same_text("High", "Hig"));
    assert!(!same_text("Hig", "High"));
    assert!(!same_text("", "Low"));
}

#[test]
fn last_token_span_finds_the_last_word() {
    assert_eq!(last_token_span(&chars("about 3 ")), Some((6, 7)));
    assert_eq!(last_token_span(&chars("about 3")), Some((6, 7)));
    assert_eq!(last_token_span(&chars("word")), Some((0, 4)));
    assert_eq!(last_token_span(&chars("  word \t\n")), Some((2, 6)));
    assert_eq!(last_token_span(&chars("")), None);
    assert_eq!(last_token_span(&chars(" \t \u{a0}\u{3000}")), None);
}

#[test]
fn last_token_span_agrees_with_split_whitespace() {
    let texts = [
        "",
        " ",
        "a",
        " a",
        "a ",
        "one two  three",
        "one two  three \u{2003}",
        "tab\tseparated\twords\t",
        "line\nbreak",
        "no\u{a0}break space",
        "\u{1680}ogham\u{1680}",
        "zero\u{200b}width is no space",
        "about 3 ",
    ];
    for text in texts {
        let expected = text.split_whitespace().last().map(|word| word.to_string());
        assert_eq!(last_word_of(text), expected, "{:?}", text);
    }
}
