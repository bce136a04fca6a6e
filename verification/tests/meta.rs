use secrets_manager::effects::FileMeta;
use secrets_manager::meta::{
    digit, digit_of, find_digits_end, parse_meta, parse_number, render_meta, render_number,
};

fn number(text: &str) -> Option<u32> {
    let chars: Vec<char> = text.chars().collect();
    parse_number(&chars, 0, chars.len())
}

#[test]
fn render_number_writes_decimal_digits() {
    for n in [0u32, 7, 10, 42, 384, 1000, 65534, u32::MAX] {
        assert_eq!(render_number(n), n.to_string());
    }
}

#[test]
fn parse_number_reads_what_fits_32_bits() {
    assert_eq!(number("0"), Some(0));
    assert_eq!(number("007"), Some(7));
    assert_eq!(number("4294967295"), Some(u32::MAX));
    assert_eq!(number("4294967296"), None);
    assert_eq!(number("99999999999999999999999999"), None);
    assert_eq!(number(""), None);
    assert_eq!(number("12a"), None);
    assert_eq!(number("-1"), None);
    assert_eq!(number("+1"), None);
    assert_eq!(number(" 1"), None);
}

#[test]
fn parse_number_reads_a_stretch_of_the_text() {
    let chars: Vec<char> = "ab123cd".chars().collect();
    assert_eq!(parse_number(&chars, 2, 5), Some(123));
    assert_eq!(parse_number(&chars, 2, 6), None);
    assert_eq!(find_digits_end(&chars, 2), 5);
    assert_eq!(find_digits_end(&chars, 0), 0);
    assert_eq!(find_digits_end(&chars, 7), 7);
}

#[test]
fn digits_convert_both_ways() {
    for d in 0..10u32 {
        assert_eq!(digit(d), char::from_digit(d, 10).unwrap());
        assert_eq!(digit_of(digit(d)), Some(d));
    }
    for c in ['a', ' ', '/', ':', '\u{0661}'] {
        assert_eq!(digit_of(c), None);
    }
}

#[test]
fn render_meta_writes_one_line_of_three_numbers() {
    assert_eq!(render_meta(FileMeta { uid: 1000, gid: 100, mode: 0o640 }), "1000 100 416\n");
    assert_eq!(render_meta(FileMeta { uid: 0, gid: 0, mode: 0o600 }), "0 0 384\n");
}

#[test]
fn parse_meta_reads_what_render_meta_wrote() {
    for meta in [
        FileMeta { uid: 0, gid: 0, mode: 0 },
        FileMeta { uid: 1000, gid: 100, mode: 0o640 },
        FileMeta { uid: u32::MAX, gid: u32::MAX, mode: 0o7777 },
    ] {
        assert_eq!(parse_meta(&render_meta(meta)), Some(meta));
    }
    assert_eq!(parse_meta("1 2 3"), Some(FileMeta { uid: 1, gid: 2, mode: 3 }));
}

#[test]
fn parse_meta_refuses_any_other_text() {
    for text in [
        "", "\n", "1 2", "1 2 3 4", "1  2 3", " 1 2 3", "1 2 3 ", "1 2 3\n\n", "1 2 x", "1,2,3",
        "1 2 4294967296", "a 2 3", "1 2 3\r\n",
    ] {
        assert_eq!(parse_meta(text), None, "{:?}", text);
    }
}
