use cert_expiry::domains::{is_space_char, parse_domains};

fn names(list: &[&str]) -> Vec<String> {
    list.iter().map(|name| name.to_string()).collect()
}

#[test]
fn comments_and_blank_lines_hold_no_name() {
    let text = ["a.example", "# comment", "", "b.example"].join("\n");
    assert_eq!(parse_domains(&text), names(&["a.example", "b.example"]));
}

#[test]
fn an_empty_text_lists_nothing() {
    assert_eq!(parse_domains(""), names(&[]));
    assert_eq!(parse_domains("\n"), names(&[]));
    assert_eq!(parse_domains("\n\n\n"), names(&[]));
    assert_eq!(parse_domains("   \n\t\n"), names(&[]));
}

#[test]
fn a_single_line_needs_no_line_feed() {
    assert_eq!(parse_domains("a.example"), names(&["a.example"]));
    assert_eq!(parse_domains("a.example\n"), names(&["a.example"]));
}

#[test]
fn white_space_around_a_name_is_dropped() {
    assert_eq!(parse_domains("  a.example  \n\tb.example\t\n"), names(&["a.example", "b.example"]));
    assert_eq!(parse_domains("\u{a0}a.example\u{3000}"), names(&["a.example"]));
    assert_eq!(parse_domains("\u{2003}a.example\u{85}\u{1680}"), names(&["a.example"]));
}

#[test]
fn carriage_returns_are_white_space() {
    assert_eq!(parse_domains("a.example\r\nb.example\r\n"), names(&["a.example", "b.example"]));
    assert_eq!(parse_domains("a.example\r\n\r\n# c\r\n"), names(&["a.example"]));
}

#[test]
fn white_space_inside_a_name_stays() {
    assert_eq!(parse_domains("  a b  "), names(&["a b"]));
}

#[test]
fn a_comment_may_be_indented() {
    assert_eq!(parse_domains("  # comment\na.example"), names(&["a.example"]));
    assert_eq!(parse_domains("#"), names(&[]));
    assert_eq!(parse_domains("#a.example"), names(&[]));
}

#[test]
fn a_hash_after_the_first_character_is_part_of_the_name() {
    assert_eq!(parse_domains("a.example # primary"), names(&["a.example # primary"]));
    assert_eq!(parse_domains("a#b"), names(&["a#b"]));
}

#[test]
fn names_are_not_checked_or_changed() {
    assert_eq!(
        parse_domains("not a host name!\nEXAMPLE.com\nb\u{fc}cher.example"),
        names(&["not a host name!", "EXAMPLE.com", "b\u{fc}cher.example"])
    );
}

#[test]
fn the_order_of_the_lines_is_kept_and_repeats_stay() {
    assert_eq!(
        parse_domains("c.example\na.example\nc.example\nb.example"),
        names(&["c.example", "a.example", "c.example", "b.example"])
    );
}

#[test]
fn other_line_separators_do_not_split_lines() {
    assert_eq!(parse_domains("a\u{2028}b"), names(&["a\u{2028}b"]));
    assert_eq!(parse_domains("a\u{b}b\u{c}c"), names(&["a\u{b}b\u{c}c"]));
    assert_eq!(parse_domains("a\rb"), names(&["a\rb"]));
}

#[test]
fn parsing_agrees_with_trimming_every_line() {
    let text = " x \n\n#y\n z#\r\n\t\u{2009}w w\u{202f}\n#\n\u{feff}v\n";
    let expected: Vec<String> = text
        .lines()
        .map(|line| line.trim())
        .filter(|line| !line.is_empty() && !line.starts_with('#'))
        .map(|line| line.to_string())
        .collect();
    assert_eq!(parse_domains(text), expected);
    assert_eq!(expected.len(), 4);
}

#[test]
fn white_space_is_what_unicode_says() {
    let mut spaces = 0;
    for code in 0..=0x10ffff_u32 {
        if let Some(c) = char::from_u32(code) {
            assert_eq!(is_space_char(c), c.is_whitespace(), "U+{:04X}", code);
            if is_space_char(c) {
                spaces += 1;
            }
        }
    }
    assert_eq!(spaces, 25);
    assert!(is_space_char(' '));
    assert!(is_space_char('\n'));
    assert!(is_space_char('\u{3000}'));
    assert!(!is_space_char('\u{200b}'));
    assert!(!is_space_char('\u{feff}'));
}
