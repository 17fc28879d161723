use hydra_check::strutil;

#[test]
fn trim_strips_both_ends() {
    assert_eq!(strutil::trim("  hello \t"), "hello");
    assert_eq!(strutil::trim("hello"), "hello");
    assert_eq!(strutil::trim(" \r\n "), "");
    assert_eq!(strutil::trim(""), "");
}

#[test]
fn containment_checks() {
    assert!(strutil::contains("a full=1 link", "full=1"));
    assert!(!strutil::contains("a full= link", "full=1"));
    assert!(strutil::contains("abc", ""));
    assert!(strutil::starts_with("nixos-24.05", "nixos-"));
    assert!(!strutil::starts_with("nix", "nixos-"));
    assert!(strutil::ends_with("/job/hello/all", "/all"));
    assert!(!strutil::ends_with("/job/hello/all2", "/all"));
}

#[test]
fn parse_u64_accepts_digits_and_plus() {
    assert_eq!(strutil::parse_u64("0"), Some(0));
    assert_eq!(strutil::parse_u64("1809297"), Some(1809297));
    assert_eq!(strutil::parse_u64("+42"), Some(42));
    assert_eq!(strutil::parse_u64("18446744073709551615"), Some(u64::MAX));
    assert_eq!(strutil::parse_u64("18446744073709551616"), None);
    assert_eq!(strutil::parse_u64(""), None);
    assert_eq!(strutil::parse_u64("+"), None);
    assert_eq!(strutil::parse_u64("-1"), None);
    assert_eq!(strutil::parse_u64("12x"), None);
    assert_eq!(strutil::parse_u64(" 12"), None);
}

#[test]
fn u64_to_string_renders_decimal() {
    assert_eq!(strutil::u64_to_string(0), "0");
    assert_eq!(strutil::u64_to_string(10), "10");
    assert_eq!(strutil::u64_to_string(1809297), "1809297");
    assert_eq!(strutil::u64_to_string(u64::MAX), "18446744073709551615");
}

#[test]
fn collapse_lines_trims_and_joins() {
    assert_eq!(strutil::collapse_lines(" a \n b "), "a b");
    assert_eq!(strutil::collapse_lines("a\n\nb"), "a  b");
    assert_eq!(strutil::collapse_lines("a\n"), "a");
    assert_eq!(strutil::collapse_lines("\n"), "");
    assert_eq!(strutil::collapse_lines("plain"), "plain");
}

#[test]
fn normalize_ws_collapses_runs() {
    assert_eq!(strutil::normalize_ws("  a   b \t c  "), "a b c");
    assert_eq!(strutil::normalize_ws(""), "");
    assert_eq!(strutil::normalize_ws("   "), "");
    assert_eq!(strutil::normalize_ws("one"), "one");
}

#[test]
fn remove_all_strips_needles() {
    assert_eq!(strutil::remove_all("QueuedabcQueued", "Queued"), "abc");
    assert_eq!(strutil::remove_all("abc", "Queued"), "abc");
    assert_eq!(strutil::remove_all("abc", ""), "abc");
    assert_eq!(strutil::remove_all("aaa", "aa"), "a");
}

#[test]
fn date_part_reads_before_t() {
    assert_eq!(strutil::date_part("2024-01-01T00:00:00Z"), "2024-01-01");
    assert_eq!(strutil::date_part("2024-01-01"), "");
    assert_eq!(strutil::date_part(""), "");
}

#[test]
fn str_eq_compares_characters() {
    assert!(strutil::str_eq("abc", "abc"));
    assert!(!strutil::str_eq("abc", "abd"));
    assert!(!strutil::str_eq("abc", "ab"));
    assert!(strutil::str_eq("", ""));
}

#[test]
fn collapse_lines_handles_carriage_returns() {
    assert_eq!(strutil::collapse_lines("a\r\nb"), "a b");
    assert_eq!(strutil::collapse_lines(" a \r\n b \r\n"), "a b");
}
