use content_hash::lines::strip_line_ends;
use content_hash::replace::replace_all;
use content_hash::text::{from_chars, to_chars};
use content_hash::trim::trim;
use content_hash::{is_whitespace, normalize_content};

fn chars(text: &str) -> Vec<char> {
    text.chars().collect()
}

fn std_normalize(content: &str) -> String {
    content
        .trim()
        .replace("\r\n", "\n")
        .lines()
        .map(|line| line.trim_end())
        .collect::<Vec<_>>()
        .join("\n")
        .split("\n\n\n")
        .collect::<Vec<_>>()
        .join("\n\n")
}

#[test]
fn test_normalize_content() {
    let content = "  Hello  \r\n\r\n\r\nWorld  ";
    let normalized = normalize_content(content);
    assert_eq!(normalized, "Hello\n\nWorld");
}

#[test]
fn normalize_of_empty_text_is_empty() {
    assert_eq!(normalize_content(""), "");
}

#[test]
fn normalize_of_whitespace_only_is_empty() {
    assert_eq!(normalize_content(" \t\r\n \n\u{3000}"), "");
}

#[test]
fn normalize_keeps_indentation() {
    assert_eq!(normalize_content("a\n    b  \n\tc\t"), "a\n    b\n\tc");
}

#[test]
fn normalize_turns_crlf_into_lf() {
    assert_eq!(normalize_content("a\r\nb\r\nc"), "a\nb\nc");
    assert_eq!(normalize_content("a\r\r\nb"), "a\nb");
    assert_eq!(normalize_content("a\rb"), "a\rb");
}

#[test]
fn normalize_collapses_three_newlines_once() {
    assert_eq!(normalize_content("a\n\n\nb"), "a\n\nb");
    assert_eq!(normalize_content("a\n\nb"), "a\n\nb");
    assert_eq!(normalize_content("a\n \n \nb"), "a\n\nb");
}

#[test]
fn normalize_is_not_idempotent_on_long_runs_of_newlines() {
    let text = "a\n\n\n\nb";
    let once = normalize_content(text);
    let twice = normalize_content(&once);
    assert_eq!(once, "a\n\n\nb");
    assert_eq!(twice, "a\n\nb");
    assert_ne!(once, twice);
    assert_eq!(normalize_content(&twice), twice);

    assert_eq!(normalize_content("a\n\n\n\n\nb"), "a\n\n\n\nb");
    assert_eq!(normalize_content("a\n\n\n\n\n\nb"), "a\n\n\n\nb");
    assert_eq!(normalize_content("a\n\n\n\n\n\n\nb"), "a\n\n\n\n\nb");
}

#[test]
fn normalize_agrees_with_the_string_methods() {
    let samples = [
        "",
        " ",
        "\n",
        "\r\n",
        "a",
        "  Hello  \r\n\r\n\r\nWorld  ",
        "a\r\r\nb",
        "a\r\n\rb\r",
        "a \r\n b \r\n",
        "\n\n\na\n\n\n",
        "a\n\n\n\n\n\n\n\nb",
        "x\n\n\n\n\ny\n\n\nz",
        "a\u{2028}\nb\u{a0}\n\u{3000}c\u{85}",
        "tab\t\n\tindent\n",
        "a\n \t \n\n \nb",
        "\u{feff}bom \n",
        "\u{200b}zero width \u{200b}\n",
        "a\r\n\r\n\r\n\r\nb",
        "a\n\r\n\n\r\nb",
        "ends with cr\r\nnext\r",
        "  \u{1F600}  \n  \u{1F600}  ",
    ];
    for text in samples {
        assert_eq!(normalize_content(text), std_normalize(text), "for {:?}", text);
    }
}

#[test]
fn whitespace_agrees_with_the_standard_library_on_every_char() {
    for code in 0..=0x10FFFFu32 {
        if let Some(c) = char::from_u32(code) {
            assert_eq!(is_whitespace(c), c.is_whitespace(), "for U+{:04X}", code);
        }
    }
}

#[test]
fn whitespace_examples() {
    for c in [' ', '\t', '\n', '\r', '\u{b}', '\u{c}', '\u{85}', '\u{a0}', '\u{2009}', '\u{3000}'] {
        assert!(is_whitespace(c));
    }
    for c in ['a', '0', '_', '\u{0}', '\u{200b}', '\u{180e}', '\u{feff}'] {
        assert!(!is_whitespace(c));
    }
}

#[test]
fn trim_strips_both_ends_only() {
    assert_eq!(trim(&chars("  a b  ")), chars("a b"));
    assert_eq!(trim(&chars("\n\ta\n")), chars("a"));
    assert_eq!(trim(&chars("a")), chars("a"));
    assert_eq!(trim(&chars("   ")), chars(""));
    assert_eq!(trim(&chars("")), chars(""));
}

#[test]
fn replace_all_goes_from_left_to_right_without_overlap() {
    assert_eq!(replace_all(&chars("aaaa"), &chars("aa"), &chars("b")), chars("bb"));
    assert_eq!(replace_all(&chars("aaa"), &chars("aa"), &chars("b")), chars("ba"));
    assert_eq!(replace_all(&chars("abc"), &chars("x"), &chars("y")), chars("abc"));
    assert_eq!(replace_all(&chars("abc"), &chars("abcd"), &chars("y")), chars("abc"));
    assert_eq!(replace_all(&chars("abab"), &chars("ab"), &chars("")), chars(""));
    assert_eq!(replace_all(&chars("aXbXc"), &chars("X"), &chars("XX")), chars("aXXbXXc"));
    assert_eq!(replace_all(&chars("abc"), &chars(""), &chars("y")), chars("abc"));
    assert_eq!(replace_all(&chars(""), &chars("a"), &chars("y")), chars(""));
    assert_eq!(
        replace_all(&chars("\n\n\n\n"), &chars("\n\n\n"), &chars("\n\n")),
        chars("\n\n\n")
    );
}

#[test]
fn strip_line_ends_trims_each_line_at_its_end() {
    assert_eq!(strip_line_ends(&chars("a  \n  b  \nc")), chars("a\n  b\nc"));
    assert_eq!(strip_line_ends(&chars("a \n")), chars("a\n"));
    assert_eq!(strip_line_ends(&chars(" \n \n ")), chars("\n\n"));
    assert_eq!(strip_line_ends(&chars("a\r\nb\r")), chars("a\nb"));
    assert_eq!(strip_line_ends(&chars("")), chars(""));
    assert_eq!(strip_line_ends(&chars("\n")), chars("\n"));
}

#[test]
fn chars_and_text_convert_both_ways() {
    assert_eq!(to_chars("a\u{e9}\u{1F600}"), vec!['a', '\u{e9}', '\u{1F600}']);
    assert_eq!(to_chars(""), Vec::<char>::new());
    assert_eq!(from_chars(&['a', '\u{e9}', '\u{1F600}']), "a\u{e9}\u{1F600}");
    assert_eq!(from_chars(&[]), "");
}

#[test]
fn normalize_ignores_surrounding_whitespace() {
    let text = "Hello\n  World";
    for (before, after) in [("", ""), ("  ", ""), ("", "\n\n"), ("\r\n\t", " \u{a0}\u{3000}\n")] {
        let padded = format!("{}{}{}", before, text, after);
        assert_eq!(normalize_content(&padded), normalize_content(text));
    }
}

#[test]
fn normalize_twice_changes_exactly_where_three_newlines_are_left() {
    let samples = [
        "",
        "a",
        "  a \r\n b  ",
        "a\n\nb",
        "a\n\n\nb",
        "a\n\n\n\nb",
        "a\n\n\n\n\nb\n\n\n\n\n\n\n\nc",
        "a \n \n \n \n b",
        "x\r\n\r\n\r\n\r\n\r\ny",
    ];
    for text in samples {
        let once = normalize_content(text);
        let twice = normalize_content(&once);
        assert_eq!(twice == once, !once.contains("\n\n\n"), "for {:?}", text);
        assert_eq!(twice, once.replace("\n\n\n", "\n\n"), "for {:?}", text);
    }
}

#[test]
fn normalized_text_has_no_whitespace_at_its_ends_or_line_ends() {
    for text in ["  a \r\n b  \n\n c\t", "\u{3000}x\u{a0}\r\r\n\u{2028}", " \n a \n "] {
        let normalized = normalize_content(text);
        assert_eq!(normalized.trim(), normalized);
        for line in normalized.split('\n') {
            assert_eq!(line.trim_end(), line);
        }
    }
}
