use ftp_browser::text::{join_tokens_from, parse_u64, str_contains_char, tokenize, trim};

#[test]
fn trimming_strips_surrounding_whitespace() {
    assert_eq!(trim("  a b \t"), "a b");
    assert_eq!(trim(""), "");
    assert_eq!(trim(" \r\n "), "");
    assert_eq!(trim("x"), "x");
}

#[test]
fn tokenizing_splits_on_whitespace_runs() {
    assert_eq!(tokenize("a  b\tc"), vec!["a", "b", "c"]);
    assert_eq!(tokenize("  leading and trailing  "), vec!["leading", "and", "trailing"]);
    assert_eq!(tokenize(""), Vec::<String>::new());
    assert_eq!(tokenize(" \t "), Vec::<String>::new());
}

#[test]
fn joining_tokens_uses_single_spaces() {
    let toks = vec!["a".to_string(), "b".to_string(), "c".to_string()];
    assert_eq!(join_tokens_from(&toks, 0), "a b c");
    assert_eq!(join_tokens_from(&toks, 1), "b c");
    assert_eq!(join_tokens_from(&toks, 3), "");
}

#[test]
fn unsigned_tokens_parse_like_the_standard_parser() {
    assert_eq!(parse_u64("0"), Some(0));
    assert_eq!(parse_u64("4096"), Some(4096));
    assert_eq!(parse_u64("+42"), Some(42));
    assert_eq!(parse_u64("18446744073709551615"), Some(u64::MAX));
    assert_eq!(parse_u64("18446744073709551616"), None);
    assert_eq!(parse_u64(""), None);
    assert_eq!(parse_u64("+"), None);
    assert_eq!(parse_u64("-1"), None);
    assert_eq!(parse_u64("12a"), None);
    assert_eq!(parse_u64("4096"), "4096".parse::<u64>().ok());
    assert_eq!(parse_u64("+7"), "+7".parse::<u64>().ok());
    assert_eq!(parse_u64("-1"), "-1".parse::<u64>().ok());
}

#[test]
fn unicode_whitespace_separates_tokens() {
    assert_eq!(trim("\u{c}x\u{a0}"), "x");
    assert_eq!(tokenize("a\u{a0}b\u{2003}c"), vec!["a", "b", "c"]);
    // agreement with the standard library's notion of whitespace
    assert_eq!(trim(" \u{85}\u{3000}y "), " \u{85}\u{3000}y ".trim());
    assert_eq!(
        tokenize("a\u{a0}b\u{2003}c"),
        "a\u{a0}b\u{2003}c".split_whitespace().collect::<Vec<&str>>()
    );
}

#[test]
fn character_search_finds_dashes_and_colons() {
    assert!(str_contains_char("01-04-23", '-'));
    assert!(str_contains_char("09:15", ':'));
    assert!(!str_contains_char("0915", ':'));
    assert!(!str_contains_char("", '-'));
}
