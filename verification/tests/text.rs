use efm::text::{
    chars_of, decimal_text, find_text, has_infix, has_infix_folded, has_prefix, is_space, join,
    same_text, split_text, strip_prefixes, trim,
};

#[test]
fn trims_unicode_whitespace_at_both_ends() {
    assert_eq!(trim("  \t a b \n"), "a b");
    assert_eq!(trim("\u{3000}x\u{a0}"), "x");
    assert_eq!(trim("   "), "");
    assert!(is_space('\u{2028}'));
    assert!(!is_space('x'));
}

#[test]
fn finds_prefixes_and_infixes() {
    let v = chars_of("Nina Simone - Feeling Good");
    assert!(has_prefix(&v, &chars_of("Nina")));
    assert!(!has_prefix(&v, &chars_of("Simone")));
    assert!(has_infix(&v, &chars_of(" - ")));
    assert!(!has_infix(&v, &chars_of("--")));
    assert_eq!(find_text(&v, &chars_of(" - ")), Some(11));
    assert_eq!(find_text(&v, &chars_of("xyz")), None);
    assert!(has_infix_folded(&chars_of("TrackALBUM"), &chars_of("album")));
    assert!(!has_infix_folded(&chars_of("TrackALBUM"), &chars_of("artist")));
}

#[test]
fn strips_every_leading_copy_of_a_prefix() {
    assert_eq!(strip_prefixes("https://https://a", "https://"), "a");
    assert_eq!(strip_prefixes("a", ""), "a");
    assert_eq!(strip_prefixes("http://a", "https://"), "http://a");
}

#[test]
fn compares_joins_splits_and_counts() {
    assert!(same_text("αβ", "αβ"));
    assert!(!same_text("αβ", "αγ"));
    assert_eq!(decimal_text(0), "0");
    assert_eq!(decimal_text(18_446_744_073_709_551_615), "18446744073709551615");
    assert_eq!(join(&vec!["a".into(), "b".into(), "c".into()], ", "), "a, b, c");
    assert_eq!(join(&vec![], ", "), "");
    assert_eq!(split_text("a,,b,", ','), vec!["a", "", "b", ""]);
    assert_eq!(split_text("", ','), vec![""]);
}
