use minishell::text::{contains_char, is_dash, parse_i32, parses_u16, split_char, split_once_char, str_eq, trim_chars};
use minishell::utf8::{byte_offset, char_index_at, len_utf8, utf8_len_of};
use minishell::display::pad_right;

#[test]
fn integers_parse_as_std_does() {
    for s in ["0", "22", "+7", "-1", "2147483647", "-2147483648", "007", "", "-", "+", "2147483648", "1a", " 1", "--1"] {
        assert_eq!(parse_i32(s), s.parse::<i32>().ok(), "{:?}", s);
    }
    for s in ["0", "65535", "65536", "+22", "-0", "", "99999999999", "８"] {
        assert_eq!(parses_u16(s), s.parse::<u16>().is_ok(), "{:?}", s);
    }
}

#[test]
fn small_text_helpers() {
    assert!(is_dash("-"));
    assert!(!is_dash("--"));
    assert!(str_eq("Linux", "Linux"));
    assert!(!str_eq("Linux", "linux"));
    assert_eq!(trim_chars("  a b \t\n"), vec!['a', ' ', 'b']);
    assert!(trim_chars(" \u{3000} ").is_empty());
    assert!(contains_char("a b", ' '));
    assert!(!contains_char("ab", ' '));
}

#[test]
fn utf8_offsets() {
    let v: Vec<char> = "a中b".chars().collect();
    assert_eq!(len_utf8('中'), 3);
    assert_eq!(utf8_len_of(&v), 5);
    assert_eq!(byte_offset(&v, 2), 4);
    assert_eq!(char_index_at(&v, 4), 2);
    assert_eq!(char_index_at(&v, 5), 3);
}

#[test]
fn display_widths() {
    assert_eq!(pad_right("a中b", 6), "a中b  ");
    assert_eq!(pad_right("a中b", 3), "a中");
    assert_eq!(pad_right("a中b", 2), "a");
}

#[test]
fn split_char_cuts_at_every_separator() {
    assert_eq!(split_char("Delete|file|a.txt│/tmp|2 items", '|'), vec!["Delete", "file", "a.txt│/tmp", "2 items"]);
    assert_eq!(split_char("", '|'), vec![""]);
    assert_eq!(split_char("|a||", '|'), vec!["", "a", "", ""]);
}

#[test]
fn split_once_char_cuts_at_the_first_separator() {
    assert_eq!(split_once_char("a.txt│/tmp│x", '│'), Some(("a.txt".to_string(), "/tmp│x".to_string())));
    assert_eq!(split_once_char("plain", '│'), None);
    assert_eq!(split_once_char("│", '│'), Some((String::new(), String::new())));
}
