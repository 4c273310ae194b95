use shell::fmt::{bell, new_line_raw, NewLine};
use shell::text::{
    ends_with, join, parse_usize, remove_first, sort_dedup, split_char, starts_with, str_lt, trim,
    trim_end_matches, usize_to_string,
};

#[test]
fn numbers_parse_like_usize() {
    assert_eq!(Some(42), parse_usize("42"));
    assert_eq!(Some(7), parse_usize("+7"));
    assert_eq!(Some(0), parse_usize("000"));
    assert_eq!(None, parse_usize(""));
    assert_eq!(None, parse_usize("+"));
    assert_eq!(None, parse_usize("-1"));
    assert_eq!(None, parse_usize("1a"));
    assert_eq!(Some(usize::MAX), parse_usize(&usize::MAX.to_string()));
    assert_eq!(None, parse_usize("184467440737095516160"));
    for n in [0usize, 9, 10, 123, usize::MAX] {
        assert_eq!(n.to_string(), usize_to_string(n));
        assert_eq!(Some(n), parse_usize(&usize_to_string(n)));
    }
}

#[test]
fn text_pieces() {
    assert_eq!(vec!["a", "", "b"], split_char("a  b", ' '));
    assert_eq!(vec![""], split_char("", ' '));
    assert_eq!("a b", join(&split_char("a b", ' '), " "));
    assert_eq!("x y", trim(" \t x y \n"));
    assert_eq!("", trim("   "));
    assert_eq!("a/b", trim_end_matches("a/b///", '/'));
    assert_eq!("o", remove_first("foo", "fo"));
    assert_eq!("foo", remove_first("foxo", "x"));
    assert_eq!("foo", remove_first("foo", "z"));
    assert!(starts_with("foo", "fo"));
    assert!(!starts_with("fo", "foo"));
    assert!(ends_with("a/", "/"));
    assert!(str_lt("a", "b"));
    assert!(str_lt("ab", "abc"));
    assert!(!str_lt("b", "ab"));
    let sorted = sort_dedup(vec!["b".to_string(), "a".to_string(), "b".to_string(), "ab".to_string()]);
    assert_eq!(vec!["a", "ab", "b"], sorted);
}

#[test]
fn newline_setters_set_what_getters_give() {
    let mut n = NewLine::new();
    assert_eq!("", n.stdout_start());
    n.set_stdout_start(true);
    n.set_stderr_end(true);
    assert_eq!("\n", n.stdout_start());
    assert_eq!("", n.stdout_end());
    assert_eq!("", n.stderr_start());
    assert_eq!("\n", n.stderr_end());
    n.set_stdout_start(false);
    assert_eq!("", n.stdout_start());
    assert_eq!("\x07", bell());
    assert_eq!("\r\n", new_line_raw());
    let mut raw = shell::command::fmt::NewLine::new();
    raw.stdout_end = true;
    assert_eq!("\r\n", raw.stdout_end());
    assert_eq!("", raw.stdout_start());
}
