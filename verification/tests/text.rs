use sheesy_vault::recipients::{text_ends_with, text_starts_with};
use sheesy_vault::text::{
    chars_of, concat2, concat3, decimal, find_char, join_texts, parse_index, same_text, slice_text,
    write_lines,
};

#[test]
fn numbers_are_written_in_decimal() {
    assert_eq!(decimal(0), "0");
    assert_eq!(decimal(7), "7");
    assert_eq!(decimal(10), "10");
    assert_eq!(decimal(120), "120");
    assert_eq!(decimal(9876543210), "9876543210");
    assert_eq!(decimal(usize::MAX), usize::MAX.to_string());
}

#[test]
fn indices_are_read_like_unsigned_numbers() {
    assert_eq!(parse_index("0"), Some(0));
    assert_eq!(parse_index("007"), Some(7));
    assert_eq!(parse_index("+15"), Some(15));
    assert_eq!(parse_index(&usize::MAX.to_string()), Some(usize::MAX));
    assert_eq!(parse_index("340282366920938463463374607431768211456"), None);
    assert_eq!(parse_index(""), None);
    assert_eq!(parse_index("+"), None);
    assert_eq!(parse_index("-1"), None);
    assert_eq!(parse_index("1 "), None);
    assert_eq!(parse_index("١٢"), None);
    assert_eq!(parse_index("1e3"), None);
    for text in ["0", "12", "+3", "x", "", "18446744073709551616", "00"] {
        assert_eq!(parse_index(text), text.parse::<usize>().ok());
    }
}

#[test]
fn texts_are_cut_and_joined_by_characters() {
    assert_eq!(chars_of("aé:"), vec!['a', 'é', ':']);
    assert_eq!(find_char(&chars_of("aé:b:"), ':'), 2);
    assert_eq!(find_char(&chars_of("aéb"), ':'), 3);
    assert_eq!(slice_text("aé:b", 1, 3), "é:");
    assert_eq!(slice_text("aé:b", 4, 4), "");
    assert_eq!(concat2("a", "b"), "ab");
    assert_eq!(concat3("a", "", "c"), "ac");
    assert!(same_text("é", "é"));
    assert!(!same_text("e", "é"));
    let items = vec!["a".to_string(), "".to_string(), "c".to_string()];
    assert_eq!(join_texts(&items, ", "), "a, , c");
    assert_eq!(join_texts(&vec![], ", "), "");
    assert_eq!(join_texts(&items[..1].to_vec(), ", "), "a");
    assert_eq!(write_lines(&items), "a\n\nc\n");
    assert_eq!(write_lines(&vec![]), "");
}

#[test]
fn starts_and_ends_are_compared_by_characters() {
    let text = chars_of("ABCDEF");
    assert!(text_ends_with(&text, &chars_of("DEF")));
    assert!(text_ends_with(&text, &chars_of("")));
    assert!(text_ends_with(&text, &text));
    assert!(!text_ends_with(&text, &chars_of("DE")));
    assert!(!text_ends_with(&text, &chars_of("XABCDEF")));
    assert!(text_starts_with(&text, &chars_of("ABC")));
    assert!(text_starts_with(&text, &chars_of("")));
    assert!(!text_starts_with(&text, &chars_of("BC")));
    assert!(!text_starts_with(&text, &chars_of("ABCDEFG")));
}
