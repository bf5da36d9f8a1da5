use minishell::display::{format_size, pad_left, pad_right, truncate_to_width};

#[test]
fn test_format_size_bytes() {
    assert_eq!(format_size(0), "0 B");
    assert_eq!(format_size(1023), "1023 B");
}

#[test]
fn test_format_size_kb() {
    assert_eq!(format_size(1024), "1.00 K");
    assert_eq!(format_size(1536), "1.50 K");
}

#[test]
fn test_format_size_mb() {
    assert_eq!(format_size(1048576), "1.00 M");
}

#[test]
fn test_format_size_gb() {
    assert_eq!(format_size(1073741824), "1.00 G");
}

/// The size formatting done with floating point, as a reference.
fn float_format_size(size: u64) -> String {
    const UNITS: &[&str] = &["B", "K", "M", "G", "T"];
    let mut s = size as f64;
    let mut unit_idx = 0;
    while s >= 1024.0 && unit_idx < UNITS.len() - 1 {
        s /= 1024.0;
        unit_idx += 1;
    }
    if unit_idx == 0 {
        format!("{} B", size)
    } else if s >= 100.0 {
        format!("{:.0} {}", s, UNITS[unit_idx])
    } else if s >= 10.0 {
        format!("{:.1} {}", s, UNITS[unit_idx])
    } else {
        format!("{:.2} {}", s, UNITS[unit_idx])
    }
}

#[test]
fn format_size_matches_float_formatting_near_unit_boundaries() {
    let mut k: u64 = 1;
    for _ in 0..6 {
        for base in [k, 10 * k, 100 * k, 1000 * k, 1023 * k, 1024 * k] {
            for d in 0..4u64 {
                for v in [base.saturating_sub(d), base.saturating_add(d)] {
                    assert_eq!(format_size(v), float_format_size(v), "size {}", v);
                }
            }
        }
        k = k.saturating_mul(1024);
    }
}

#[test]
fn format_size_matches_float_formatting_on_a_spread_of_values() {
    let mut v: u64 = 1;
    while v < u64::MAX / 3 {
        assert_eq!(format_size(v), float_format_size(v), "size {}", v);
        assert_eq!(format_size(v + 7), float_format_size(v + 7), "size {}", v + 7);
        v = v * 3 + 1;
    }
    for v in [u64::MAX, u64::MAX - 1, 1 << 53, (1 << 53) + 1, (1 << 60) + 12345, 1125899906842624] {
        assert_eq!(format_size(v), float_format_size(v), "size {}", v);
    }
}

#[test]
fn format_size_rounds_ties_to_even() {
    // 1.125 K is exactly halfway between 1.12 and 1.13.
    assert_eq!(format_size(1152), "1.12 K");
    assert_eq!(format_size(1152), float_format_size(1152));
    // 10.25 K and 10.75 K at one decimal.
    assert_eq!(format_size(10496), "10.2 K");
    assert_eq!(format_size(11008), "10.8 K");
    assert_eq!(format_size(102912), "100 K");
}

#[test]
fn format_size_uses_terabytes_above() {
    assert_eq!(format_size(1u64 << 40), "1.00 T");
    assert_eq!(format_size(1u64 << 50), "1024 T");
    assert_eq!(format_size(u64::MAX), float_format_size(u64::MAX));
}

#[test]
fn pad_right_fills_with_spaces() {
    assert_eq!(pad_right("ab", 5), "ab   ");
    assert_eq!(pad_right("abcdef", 3), "abc");
    assert_eq!(pad_right("", 2), "  ");
}

#[test]
fn pad_left_fills_with_spaces() {
    assert_eq!(pad_left("ab", 5), "   ab");
    assert_eq!(pad_left("abcdef", 4), "abcd");
}

#[test]
fn padding_counts_wide_characters_twice() {
    assert_eq!(pad_right("中文", 6), "中文  ");
    assert_eq!(pad_left("中", 3), " 中");
}

#[test]
fn truncate_keeps_whole_characters() {
    assert_eq!(truncate_to_width("hello", 3), "hel");
    assert_eq!(truncate_to_width("中文字", 5), "中文");
    assert_eq!(truncate_to_width("中文字", 1), "");
    assert_eq!(truncate_to_width("abc", 10), "abc");
}

#[test]
fn entry_sizes_and_names_for_panels() {
    assert_eq!(minishell::browser::format_entry_size(1536, false), "  1.50 K");
    assert_eq!(minishell::browser::format_entry_size(1536, true), "        ");
    assert_eq!(minishell::browser::truncate_name("数据库.txt", 5), "数据");
    assert_eq!(minishell::browser::truncate_name("abc", 5), "abc");
}

#[test]
fn truncation_keeps_the_longest_fitting_start() {
    let s = "ab中cd";
    let r = truncate_to_width(s, 3);
    assert_eq!(r, "ab");
    assert!(s.starts_with(&r));
    assert_eq!(truncate_to_width(s, 4), "ab中");
    assert_eq!(truncate_to_width(s, 6), s);
    assert_eq!(truncate_to_width("\u{7}ab", 2), "\u{7}ab");
}
