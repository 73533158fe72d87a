use shadowverse_collection::text::{extract_number_from_str, parse_count, parse_stat, str_contains, str_eq, take_before};

#[test]
fn digit_run_of_stat_text() {
    assert_eq!(extract_number_from_str("HP 7"), "7");
    assert_eq!(extract_number_from_str("Cost 10 / extra 3"), "10");
    assert_eq!(extract_number_from_str(""), "");
    assert_eq!(extract_number_from_str("no digits here"), "");
    assert_eq!(extract_number_from_str("042"), "042");
}

#[test]
fn stat_parsing_never_fails() {
    assert_eq!(parse_stat("HP 7"), 7);
    assert_eq!(parse_stat(""), 0);
    assert_eq!(parse_stat("abc"), 0);
    assert_eq!(parse_stat("-"), 0);
    assert_eq!(parse_stat("255"), 255);
    assert_eq!(parse_stat("256"), 0);
    assert_eq!(parse_stat("999"), 0);
    assert_eq!(parse_stat("00042"), 42);
}

#[test]
fn count_parsing() {
    assert_eq!(parse_count("123"), Some(123));
    assert_eq!(parse_count("0"), Some(0));
    assert_eq!(parse_count(""), None);
    assert_eq!(parse_count("12a"), None);
    assert_eq!(parse_count("4294967295"), Some(u32::MAX));
    assert_eq!(parse_count("4294967296"), None);
}

#[test]
fn substring_search() {
    assert!(str_contains("Evolved Follower", "Evolved"));
    assert!(!str_contains("Follower", "Evolved"));
    assert!(str_contains("anything", ""));
    assert!(!str_contains("", "x"));
    assert!(str_contains("BSF01", "BSF"));
}

#[test]
fn string_equality() {
    assert!(str_eq("Class", "Class"));
    assert!(!str_eq("Class", "Clash"));
    assert!(!str_eq("Class", "Classes"));
    assert!(str_eq("", ""));
}

#[test]
fn prefix_extraction() {
    assert_eq!(take_before("BP03-001EN", '-'), "BP03");
    assert_eq!(take_before("NODASH", '-'), "NODASH");
    assert_eq!(take_before("-leading", '-'), "");
}
