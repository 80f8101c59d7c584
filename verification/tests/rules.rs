use dns_blocker::names::{chars_of, strip_root_dot};
use dns_blocker::rules::{is_whitespace, parse_rule};

#[test]
fn bare_domain_is_the_rule() {
    assert_eq!(parse_rule("tracker.net"), Some("tracker.net"));
    assert_eq!(parse_rule("  tracker.net  "), Some("tracker.net"));
    assert_eq!(parse_rule("\ttracker.net\r"), Some("tracker.net"));
}

#[test]
fn second_word_is_the_rule() {
    assert_eq!(parse_rule("0.0.0.0 ads.example.com"), Some("ads.example.com"));
    assert_eq!(parse_rule("0.0.0.0\tads.example.com"), Some("ads.example.com"));
    assert_eq!(parse_rule("  127.0.0.1   Ads.Example.com   "), Some("Ads.Example.com"));
    assert_eq!(parse_rule("a b c d"), Some("b"));
    assert_eq!(parse_rule("0.0.0.0 ads.example.com # why"), Some("ads.example.com"));
    assert_eq!(parse_rule("0.0.0.0 #x"), Some("#x"));
}

#[test]
fn blank_lines_and_comments_hold_no_rule() {
    assert_eq!(parse_rule(""), None);
    assert_eq!(parse_rule("   "), None);
    assert_eq!(parse_rule("\t\r"), None);
    assert_eq!(parse_rule("#"), None);
    assert_eq!(parse_rule("# comment"), None);
    assert_eq!(parse_rule("#0.0.0.0 ads.example.com"), None);
    assert_eq!(parse_rule("   # indented"), None);
}

#[test]
fn words_are_cut_at_unicode_spaces() {
    assert_eq!(parse_rule("\u{a0}0.0.0.0\u{3000}ads.example.com\u{2003}"), Some("ads.example.com"));
    assert_eq!(parse_rule("\u{2028}b\u{fc}cher.example\u{85}"), Some("b\u{fc}cher.example"));
    assert_eq!(parse_rule("a\u{200b}b"), Some("a\u{200b}b"));
}

#[test]
fn parse_rule_agrees_with_trim_and_split() {
    let lines = [
        "",
        " ",
        "#",
        " # x",
        "x",
        " x ",
        "x y",
        "x  y  z",
        "\tx\ty\t",
        "0.0.0.0 ads.example.com",
        "\u{1680}x\u{205f}y\u{202f}z",
        "x#y",
        "x #y",
        "\u{feff}# not a comment",
    ];
    for line in lines {
        let trimmed = line.trim();
        let expected = if trimmed.is_empty() || trimmed.starts_with('#') {
            None
        } else {
            Some(trimmed.split_whitespace().nth(1).unwrap_or(trimmed))
        };
        assert_eq!(parse_rule(line), expected, "line {:?}", line);
    }
}

#[test]
fn whitespace_is_the_unicode_property() {
    let mut code = 0u32;
    while code <= 0x10ffff {
        if let Some(c) = char::from_u32(code) {
            assert_eq!(is_whitespace(c), c.is_whitespace(), "U+{:04X}", code);
        }
        code += 1;
    }
}

#[test]
fn whitespace_of_chosen_characters() {
    assert!(is_whitespace(' '));
    assert!(is_whitespace('\t'));
    assert!(is_whitespace('\n'));
    assert!(is_whitespace('\u{b}'));
    assert!(is_whitespace('\u{c}'));
    assert!(is_whitespace('\r'));
    assert!(is_whitespace('\u{85}'));
    assert!(is_whitespace('\u{a0}'));
    assert!(is_whitespace('\u{2000}'));
    assert!(is_whitespace('\u{200a}'));
    assert!(!is_whitespace('\u{8}'));
    assert!(!is_whitespace('\u{e}'));
    assert!(!is_whitespace('\u{200b}'));
    assert!(!is_whitespace('\u{180e}'));
    assert!(!is_whitespace('a'));
    assert!(!is_whitespace('#'));
    assert!(!is_whitespace('.'));
}

#[test]
fn chars_of_gives_the_characters() {
    assert_eq!(chars_of(""), Vec::<char>::new());
    assert_eq!(chars_of("a.b"), vec!['a', '.', 'b']);
    assert_eq!(chars_of("b\u{fc}\u{10348}"), vec!['b', '\u{fc}', '\u{10348}']);
}

#[test]
fn root_dot_is_cut_off_once() {
    assert_eq!(strip_root_dot("ads.example.com."), "ads.example.com");
    assert_eq!(strip_root_dot("ads.example.com"), "ads.example.com");
    assert_eq!(strip_root_dot("example.com.."), "example.com.");
    assert_eq!(strip_root_dot("."), "");
    assert_eq!(strip_root_dot(""), "");
    assert_eq!(strip_root_dot("b\u{fc}cher."), "b\u{fc}cher");
}
