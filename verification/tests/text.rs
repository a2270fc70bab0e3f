use ctrl::text::{
    chars_of, copy_texts, framed, framed_pair, holds_text, join_texts, joined,
    position_of, same_text, space, split_words,
};

fn texts(items: &[&str]) -> Vec<String> {
    items.iter().map(|t| t.to_string()).collect()
}

#[test]
fn equality_and_joining() {
    assert!(same_text("abc", "abc"));
    assert!(!same_text("abc", "abd"));
    assert!(!same_text("abc", "ab"));
    assert!(same_text("", ""));
    assert_eq!(joined("ab", "cd"), "abcd");
    assert_eq!(joined("", ""), "");
    assert_eq!(framed("<", "x", ">"), "<x>");
    assert_eq!(framed_pair("a", "1", "b", "2", "c"), "a1b2c");
    assert_eq!(chars_of("hé!"), vec!['h', 'é', '!']);
}

#[test]
fn searching_a_list_of_texts() {
    let list = texts(&["a", "b", "a", "c"]);
    assert_eq!(position_of(&list, "a"), Some(0));
    assert_eq!(position_of(&list, "c"), Some(3));
    assert_eq!(position_of(&list, "d"), None);
    assert!(holds_text(&list, "b"));
    assert!(!holds_text(&list, "B"));
    assert_eq!(copy_texts(&list), list);
}

#[test]
fn join_puts_the_separator_between() {
    assert_eq!(join_texts(&texts(&[]), ", "), "");
    assert_eq!(join_texts(&texts(&["a"]), ", "), "a");
    assert_eq!(join_texts(&texts(&["a", "b", "c"]), ", "), "a, b, c");
    assert_eq!(join_texts(&texts(&["", ""]), "-"), "-");
}

#[test]
fn white_space_is_what_std_calls_white_space() {
    let mut c = 0u32;
    while c <= 0x10ffff {
        if let Some(ch) = char::from_u32(c) {
            assert_eq!(space(ch), ch.is_whitespace(), "U+{:04X}", c);
        }
        c += 1;
    }
}

#[test]
fn words_are_the_runs_between_white_space() {
    assert_eq!(split_words("create proj1"), vec!["create", "proj1"]);
    assert_eq!(split_words("  me \t github\n octo  "), vec!["me", "github", "octo"]);
    assert_eq!(split_words("one"), vec!["one"]);
    assert_eq!(split_words("a\u{a0}b\u{3000}c\u{2003}d"), vec!["a", "b", "c", "d"]);
    assert_eq!(split_words("é ü"), vec!["é", "ü"]);
    assert!(split_words("").is_empty());
    assert!(split_words(" \t\r\n").is_empty());
    let long = "add <@U1|x y> extra";
    assert_eq!(split_words(long), long.split_whitespace().collect::<Vec<&str>>());
}
