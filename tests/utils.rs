use prometheus_exposition::{is_valid_ident, write_escaped_string};

#[test]
fn test_is_valid_ident() {
    let valid_idents = [
        "ident_without_nums",
        "ident_with_nums_1",
        "_starting_with_underscore",
    ];

    for valid_ident in &valid_idents {
        println!("Testing valid ident: {}", valid_ident);
        assert!(is_valid_ident(valid_ident));
    }

    let invalid_idents = [
        "ident_with_invalid_chars_\n",
        "9_ident_with_leading_num",
        "__ident_with_double_underscore",
    ];

    for invalid_ident in &invalid_idents {
        println!("Testing invalid ident: {}", invalid_ident);
        assert!(!is_valid_ident(invalid_ident));
    }
}

#[test]
fn test_escaped_string() {
    let strings_to_escape = ["String with no escapes", "String with new\nline", "\n\\\""];

    let expected_strings = ["String with no escapes", "String with new\\nline", "\\n\\\\\\\""];

    for (string_to_escape, expected) in strings_to_escape.iter().zip(expected_strings.iter()) {
        let mut buffer = String::new();
        write_escaped_string(&mut buffer, string_to_escape);
        assert_eq!(buffer, *expected);
    }
}

#[test]
fn ident_edge_cases() {
    assert!(!is_valid_ident(""));
    assert!(is_valid_ident("_"));
    assert!(is_valid_ident("a"));
    assert!(is_valid_ident("_a__b"));
    assert!(is_valid_ident("Z9_"));
    assert!(!is_valid_ident("__"));
    assert!(!is_valid_ident("9"));
    assert!(!is_valid_ident("a-b"));
    assert!(!is_valid_ident("é"));
}

#[test]
fn escape_empty_and_appending() {
    let mut buffer = String::from("x");
    write_escaped_string(&mut buffer, "");
    assert_eq!(buffer, "x");
    write_escaped_string(&mut buffer, "\"\"\n");
    assert_eq!(buffer, "x\\\"\\\"\\n");
}

#[test]
fn escape_round_trip() {
    let original = "a\\n \"q\"\nb\\";
    let mut escaped = String::new();
    write_escaped_string(&mut escaped, original);
    let mut decoded = String::new();
    let mut chars = escaped.chars();
    while let Some(c) = chars.next() {
        if c == '\\' {
            match chars.next() {
                Some('n') => decoded.push('\n'),
                Some(other) => decoded.push(other),
                None => decoded.push('\\'),
            }
        } else {
            decoded.push(c);
        }
    }
    assert_eq!(decoded, original);
}
