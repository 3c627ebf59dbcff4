use cuy::text::{is_whitespace, trim};

#[test]
fn whitespace_is_what_std_says_for_every_char() {
    for c in (0..=0x10FFFFu32).filter_map(char::from_u32) {
        assert_eq!(c.is_whitespace(), is_whitespace(c), "{:?}", c);
    }
}

#[test]
fn trim_drops_unicode_white_space_at_both_ends() {
    let s: Vec<char> = "\u{3000}\t .fnstart\u{a0}\r".chars().collect();
    let expected: Vec<char> = ".fnstart".chars().collect();
    assert_eq!(expected, trim(&s));
}
