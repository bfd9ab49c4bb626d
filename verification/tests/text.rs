use mdbook_section_validator::text::{chars_of, find_char, join_strings, same_text};

fn strings(parts: &[&str]) -> Vec<String> {
    parts.iter().map(|part| part.to_string()).collect()
}

#[test]
fn chars_of_gives_characters_not_bytes() {
    assert_eq!(chars_of(""), Vec::<char>::new());
    assert_eq!(chars_of("abc"), vec!['a', 'b', 'c']);
    assert_eq!(chars_of("é🚨\n!"), vec!['é', '🚨', '\n', '!']);
}

#[test]
fn find_char_gives_the_first_index_or_the_length() {
    let text = chars_of("a,b,,c");
    assert_eq!(find_char(&text, ',', 0), 1);
    assert_eq!(find_char(&text, ',', 1), 1);
    assert_eq!(find_char(&text, ',', 2), 3);
    assert_eq!(find_char(&text, ',', 4), 4);
    assert_eq!(find_char(&text, ',', 5), 6);
    assert_eq!(find_char(&text, ',', 6), 6);
    assert_eq!(find_char(&text, 'x', 0), 6);
    assert_eq!(find_char(&chars_of(""), 'x', 0), 0);
    assert_eq!(find_char(&chars_of("éé,"), ',', 0), 2);
}

#[test]
fn same_text_compares_all_characters() {
    assert!(same_text("", ""));
    assert!(same_text("open", "open"));
    assert!(!same_text("open", "opex"));
    assert!(!same_text("open", "ope"));
    assert!(!same_text("ope", "open"));
    assert!(!same_text("Open", "open"));
    assert!(same_text("é🚨", "é🚨"));
}

#[test]
fn join_strings_puts_the_separator_between_neighbours() {
    assert_eq!(join_strings(&strings(&[]), ", "), "");
    assert_eq!(join_strings(&strings(&["a"]), ", "), "a");
    assert_eq!(join_strings(&strings(&["a", "b"]), ", "), "a, b");
    assert_eq!(join_strings(&strings(&["a", "", "c"]), ","), "a,,c");
    assert_eq!(join_strings(&strings(&["", ""]), "-"), "-");
    assert_eq!(join_strings(&strings(&["a", "b", "c"]), ""), "abc");
}
