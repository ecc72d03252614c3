use intellectual::utils::{borrowed_u8_eq, last_segment, parse_digits, path_from_url, pretty_format_num};

#[test]
fn path_from_url_correct_paths() {
    assert_eq!(path_from_url("https://github.com/Insprill"), "Insprill");
    assert_eq!(path_from_url("https://github.com/Insprill/"), "Insprill/");
    assert_eq!(path_from_url("https://github.com/"), String::new());
    assert_eq!(path_from_url("github.com/Insprill"), String::new());
}

#[test]
fn path_from_url_keeps_deeper_paths() {
    assert_eq!(path_from_url("https://genius.com/artists/Queen"), "artists/Queen");
    assert_eq!(path_from_url(""), String::new());
}

#[test]
fn pretty_format_num_small_counts() {
    assert_eq!(pretty_format_num(0), "0");
    assert_eq!(pretty_format_num(999), "999");
    assert_eq!(pretty_format_num(-5), "-5");
}

#[test]
fn pretty_format_num_thousands() {
    assert_eq!(pretty_format_num(1_000), "1K");
    assert_eq!(pretty_format_num(12_345), "12K");
    assert_eq!(pretty_format_num(999_999), "999K");
}

#[test]
fn pretty_format_num_millions() {
    assert_eq!(pretty_format_num(1_000_000), "1.0M");
    assert_eq!(pretty_format_num(2_460_000), "2.5M");
    assert_eq!(pretty_format_num(1_960_000), "2.0M");
    assert_eq!(pretty_format_num(i32::MAX), "2147.5M");
}

#[test]
fn borrowed_u8_eq_compares_values() {
    assert!(borrowed_u8_eq(&3, &3));
    assert!(!borrowed_u8_eq(&3, &4));
}

#[test]
fn parse_digits_bounds() {
    assert_eq!(parse_digits("42", 100), Some(42));
    assert_eq!(parse_digits("101", 100), None);
    assert_eq!(parse_digits("", 100), None);
    assert_eq!(parse_digits("4a", 100), None);
    assert_eq!(parse_digits("4294967295", u32::MAX), Some(u32::MAX));
    assert_eq!(parse_digits("4294967296", u32::MAX), None);
}

#[test]
fn last_segment_splits_at_last_separator() {
    assert_eq!(last_segment("a/b/c.png", '/'), "c.png");
    assert_eq!(last_segment("plain", '/'), "plain");
    assert_eq!(last_segment("trailing/", '/'), "");
}
