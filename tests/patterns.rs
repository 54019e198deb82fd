use ethaddrgen::pattern::{validate_prefix, ParseError, Pattern};
use ethaddrgen::pattern_vec::PatternVec;

fn strings(items: &[&str]) -> Vec<String> {
    items.iter().map(|s| s.to_string()).collect()
}

fn prefix_of(p: Result<Pattern, ParseError>) -> String {
    match p {
        Ok(Pattern::Prefix(s)) => s,
        _ => panic!("expected a prefix pattern"),
    }
}

#[test]
fn parse_rejects_invalid_characters() {
    assert_eq!(Pattern::parse("xyz", false).err(), Some(ParseError::InvalidCharacters));
}

#[test]
fn parse_rejects_forty_one_digits() {
    let raw = "a".repeat(41);
    assert_eq!(Pattern::parse(&raw, false).err(), Some(ParseError::InvalidCharacters));
}

#[test]
fn parse_accepts_forty_digits() {
    let raw = "0123456789abcdef0123456789abcdef01234567";
    assert_eq!(raw.len(), 40);
    assert_eq!(prefix_of(Pattern::parse(raw, false)), raw);
}

#[test]
fn parse_accepts_abc() {
    assert_eq!(prefix_of(Pattern::parse("abc", false)), "abc");
}

#[test]
fn parse_lowercases_prefix() {
    assert_eq!(prefix_of(Pattern::parse("C0FFEE", false)), "c0ffee");
}

#[test]
fn parse_rejects_empty_prefix() {
    assert_eq!(Pattern::parse("", false).err(), Some(ParseError::InvalidCharacters));
}

#[test]
fn validate_prefix_takes_lowercase_only() {
    assert_eq!(validate_prefix("beef").unwrap(), vec!['b', 'e', 'e', 'f']);
    assert_eq!(validate_prefix("BEEF").err(), Some(ParseError::InvalidCharacters));
    assert_eq!(validate_prefix("0x12").err(), Some(ParseError::InvalidCharacters));
}

#[test]
fn parse_regex_reports_syntax_error() {
    match Pattern::parse("(ab", true) {
        Err(ParseError::InvalidRegex(message)) => assert!(!message.is_empty()),
        _ => panic!("expected a regex error"),
    }
}

#[test]
fn prefix_matches_only_at_start() {
    let p = Pattern::parse("ab", false).unwrap();
    assert!(p.matches("ab00"));
    assert!(!p.matches("00ab"));
    assert!(!p.matches("a"));
}

#[test]
fn regex_matches_anywhere_ignoring_case() {
    let p = Pattern::parse("BE EF", true).unwrap();
    assert!(p.matches("00beef00"));
    assert!(!p.matches("00bee00f"));
    let anchored = Pattern::parse("^dead", true).unwrap();
    assert!(anchored.matches("deadbeef"));
    assert!(!anchored.matches("beefdead"));
}

#[test]
fn prefix_set_sorted_and_deduplicated() {
    let (set, skipped) = PatternVec::new(false, &strings(&["abc", "abc", "ab"]));
    assert_eq!(set.patterns(), strings(&["ab", "abc"]));
    assert_eq!(set.len(), 2);
    assert!(skipped.is_empty());
}

#[test]
fn prefix_set_lowercases_before_deduplicating() {
    let (set, _) = PatternVec::new(false, &strings(&["FF", "ff", "0a"]));
    assert_eq!(set.patterns(), strings(&["0a", "ff"]));
}

#[test]
fn prefix_set_skips_empty_and_reports_invalid() {
    let (set, skipped) = PatternVec::new(false, &strings(&["", "zz", "12", ""]));
    assert_eq!(set.patterns(), strings(&["12"]));
    assert_eq!(skipped.len(), 1);
    assert_eq!(skipped[0].raw, "zz");
    assert_eq!(skipped[0].error, ParseError::InvalidCharacters);
}

#[test]
fn regex_set_keeps_order_and_repeats() {
    let (set, skipped) = PatternVec::new(true, &strings(&["b+", "a", "(", "b+"]));
    assert_eq!(set.patterns(), strings(&["b+", "a", "b+"]));
    assert_eq!(skipped.len(), 1);
    assert_eq!(skipped[0].raw, "(");
    assert!(matches!(skipped[0].error, ParseError::InvalidRegex(_)));
}

#[test]
fn empty_set_when_nothing_parses() {
    let (set, skipped) = PatternVec::new(false, &strings(&["g", "xyz"]));
    assert!(set.is_empty());
    assert_eq!(skipped.len(), 2);
}

#[test]
fn contains_prefix_exact_cases() {
    let (set, _) = PatternVec::new(false, &strings(&["c0ffee", "dead"]));
    assert!(set.contains(&"c0ffee3bd37d408910ecab316a07269fc49a20ee".to_string()));
    assert!(set.contains(&"dead000000000000000000000000000000000000".to_string()));
    assert!(!set.contains(&"beef000000000000000000000000000000000000".to_string()));
    assert!(!set.contains(&"c0ffe".to_string()));
    assert!(!set.contains(&String::new()));
}

#[test]
fn contains_prefix_finds_shorter_pattern_before_longer_sibling() {
    let (set, _) = PatternVec::new(false, &strings(&["ab", "aba"]));
    assert!(set.contains(&"abc0000000000000000000000000000000000000".to_string()));
    assert!(set.contains(&"aba0000000000000000000000000000000000000".to_string()));
    assert!(!set.contains(&"a0000000000000000000000000000000000000000".to_string()));
}

#[test]
fn contains_prefix_full_length_pattern() {
    let address = "7e5f4552091a69125d5dfcb7b8c2659029395bdf".to_string();
    let (set, _) = PatternVec::new(false, &vec![address.clone()]);
    assert!(set.contains(&address));
    assert!(!set.contains(&"7e5f4552091a69125d5dfcb7b8c2659029395bde".to_string()));
}

#[test]
fn contains_every_digit_matches_any_address() {
    let digits: Vec<String> = "0123456789abcdef".chars().map(|c| c.to_string()).collect();
    let (set, _) = PatternVec::new(false, &digits);
    assert_eq!(set.len(), 16);
    assert!(set.contains(&"0000000000000000000000000000000000000000".to_string()));
    assert!(set.contains(&"f123456789abcdef0123456789abcdef01234567".to_string()));
}

#[test]
fn contains_regex_any_pattern() {
    let (set, _) = PatternVec::new(true, &strings(&["^00", "beef$"]));
    assert!(set.contains(&"0012".to_string()));
    assert!(set.contains(&"12beef".to_string()));
    assert!(!set.contains(&"12beef12".to_string()));
}
