use secrets_manager::text::{
    chars_of, next_line, same_text, space, split_lines, string_of, sub_vec, trim_bounds,
};

fn lines_as_strings(text: &str) -> Vec<String> {
    split_lines(text).iter().map(|line| line.iter().collect()).collect()
}

#[test]
fn whitespace_agrees_with_std_on_every_char() {
    let mut code: u32 = 0;
    while code <= 0x10FFFF {
        if let Some(c) = char::from_u32(code) {
            assert_eq!(space(c), c.is_whitespace(), "U+{:04X}", code);
        }
        code += 1;
    }
}

#[test]
fn trim_bounds_agree_with_std_trim() {
    for sample in ["", "   ", "a", "  a b \n", "\t\u{3000}x\r\n", "x  ", "\n\nx y\u{2028}"] {
        let chars = chars_of(sample);
        let (a, b) = trim_bounds(&chars);
        assert_eq!(string_of(&chars, a, b), sample.trim(), "{:?}", sample);
    }
}

#[test]
fn split_lines_agrees_with_std_lines() {
    for sample in [
        "",
        "\n",
        "a",
        "a\n",
        "a\nb",
        "a\r\nb\r\n",
        "a\r",
        "a\r\r\n",
        "\r\n",
        "\n\n",
        "a\n\nb\n",
        "é\nü\n",
    ] {
        let expected: Vec<String> = sample.lines().map(str::to_owned).collect();
        assert_eq!(lines_as_strings(sample), expected, "{:?}", sample);
    }
}

#[test]
fn split_lines_keeps_a_bare_carriage_return_at_the_end() {
    assert_eq!(lines_as_strings("a\r"), vec!["a\r".to_owned()]);
    assert_eq!(lines_as_strings("a\r\n"), vec!["a".to_owned()]);
}

#[test]
fn next_line_gives_the_bounds_of_each_line() {
    let chars = chars_of("ab\r\ncd");
    assert_eq!(next_line(&chars, 0), (2, 4));
    assert_eq!(next_line(&chars, 4), (6, 6));
}

#[test]
fn chars_and_strings_convert_both_ways() {
    let chars = chars_of("héllo");
    assert_eq!(chars, vec!['h', 'é', 'l', 'l', 'o']);
    assert_eq!(string_of(&chars, 1, 4), "éll");
    assert_eq!(sub_vec(&chars, 0, 2), vec!['h', 'é']);
    assert_eq!(string_of(&chars, 2, 2), "");
}

#[test]
fn same_text_compares_characters() {
    assert!(same_text("alice", "alice"));
    assert!(!same_text("alice", "alicE"));
    assert!(!same_text("alice", "alic"));
    assert!(same_text("", ""));
}
