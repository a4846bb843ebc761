use html8::iter::Iter;
use html8::text::{char_is_digit, char_is_letter, char_is_whitespace, chars_of, string_of, trim};

#[test]
fn cursor_starts_at_the_first_item() {
    let it = Iter::from(vec!['a', 'b']);
    assert_eq!(it.pos, 0);
    assert_eq!(it.peek(), Some('a'));
}

#[test]
fn next_hands_out_items_in_order_and_then_nothing() {
    let mut it = Iter::from(vec![1u8, 2, 3]);
    assert_eq!(it.next(), Some(1));
    assert_eq!(it.next(), Some(2));
    assert_eq!(it.next(), Some(3));
    assert_eq!(it.next(), None);
    assert_eq!(it.next(), None);
    assert_eq!(it.pos, 3);
}

#[test]
fn peek_does_not_move() {
    let mut it = Iter::from(vec!['x', 'y']);
    assert_eq!(it.peek(), Some('x'));
    assert_eq!(it.peek(), Some('x'));
    assert_eq!(it.next(), Some('x'));
    assert_eq!(it.peek(), Some('y'));
    assert_eq!(it.next(), Some('y'));
    assert_eq!(it.peek(), None);
}

#[test]
fn step_back_rewinds_one_item() {
    let mut it = Iter::from(vec!['x', 'y']);
    it.next();
    it.next();
    it.step_back();
    assert_eq!(it.pos, 1);
    assert_eq!(it.next(), Some('y'));
}

#[test]
fn step_back_at_the_start_stays_at_the_start() {
    let mut it = Iter::from(vec!['x']);
    it.step_back();
    it.step_back();
    assert_eq!(it.pos, 0);
    assert_eq!(it.next(), Some('x'));
}

#[test]
fn cursor_over_nothing_is_at_its_end() {
    let mut it: Iter<char> = Iter::from(Vec::new());
    assert_eq!(it.peek(), None);
    assert_eq!(it.next(), None);
    it.step_back();
    assert_eq!(it.pos, 0);
}

#[test]
fn chars_of_keeps_every_character() {
    assert_eq!(chars_of("a<é>"), vec!['a', '<', 'é', '>']);
    assert_eq!(chars_of(""), Vec::<char>::new());
}

#[test]
fn string_of_takes_a_range() {
    let v = vec!['h', 'e', 'l', 'l', 'o'];
    assert_eq!(string_of(&v, 1, 4), "ell");
    assert_eq!(string_of(&v, 2, 2), "");
    assert_eq!(string_of(&v, 0, 5), "hello");
}

#[test]
fn trim_drops_white_space_at_both_ends_only() {
    assert_eq!(trim(&"  a b \n".to_string()), "a b");
    assert_eq!(trim(&"\t\r\n ".to_string()), "");
    assert_eq!(trim(&"".to_string()), "");
    assert_eq!(trim(&"x".to_string()), "x");
    assert_eq!(trim(&"\u{a0}x\u{3000}".to_string()), "x");
}

#[test]
fn trim_agrees_with_the_standard_library() {
    for text in [" a", "a ", " a  b  ", "\u{2028}q\u{85}", "\u{200b}z", "  "] {
        assert_eq!(trim(&text.to_string()), text.trim());
    }
}

#[test]
fn character_classes() {
    assert!(char_is_whitespace(' '));
    assert!(char_is_whitespace('\n'));
    assert!(char_is_whitespace('\u{2003}'));
    assert!(!char_is_whitespace('a'));
    assert!(!char_is_whitespace('\u{200b}'));
    assert!(char_is_digit('0'));
    assert!(char_is_digit('9'));
    assert!(!char_is_digit('a'));
    assert!(!char_is_digit('٣'));
    assert!(char_is_letter('a'));
    assert!(char_is_letter('Z'));
    assert!(!char_is_letter('_'));
    assert!(!char_is_letter('é'));
}

#[test]
fn white_space_is_what_the_standard_library_calls_white_space() {
    let mut n: u32 = 0;
    while n < 0x3100 {
        if let Some(c) = char::from_u32(n) {
            assert_eq!(char_is_whitespace(c), c.is_whitespace());
        }
        n += 1;
    }
}
