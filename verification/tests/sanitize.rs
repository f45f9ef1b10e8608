use thunderbird_api::sanitize::{char_is_control, sanitize_json};

#[test]
fn normal_json_unchanged() {
    let input = r#"{"key": "value", "num": 42}"#;
    assert_eq!(sanitize_json(input), input);
}

#[test]
fn removes_control_chars() {
    let input = "hello\x00\x01\x02world";
    assert_eq!(sanitize_json(input), "helloworld");
}

#[test]
fn escapes_raw_newline() {
    let input = "line1\nline2";
    assert_eq!(sanitize_json(input), "line1\\nline2");
}

#[test]
fn escapes_raw_tab() {
    let input = "col1\tcol2";
    assert_eq!(sanitize_json(input), "col1\\tcol2");
}

#[test]
fn escapes_raw_carriage_return() {
    let input = "line1\rline2";
    assert_eq!(sanitize_json(input), "line1\\rline2");
}

#[test]
fn preserves_already_escaped() {
    let input = r#"already \\n escaped"#;
    assert_eq!(sanitize_json(input), input);
}

#[test]
fn already_escaped_newline_preserved() {
    let input = "test\\nvalue";
    assert_eq!(sanitize_json(input), "test\\nvalue");
}

#[test]
fn double_backslash_then_raw_newline() {
    let input = "test\\\\\nvalue";
    assert_eq!(sanitize_json(input), "test\\\\\\nvalue");
}

#[test]
fn empty_input() {
    assert_eq!(sanitize_json(""), "");
}

#[test]
fn only_control_chars() {
    let input = "\x00\x01\x02\x03";
    assert_eq!(sanitize_json(input), "");
}

#[test]
fn removes_control_chars_between_letters() {
    assert_eq!(sanitize_json("a\x00\x01\x02b"), "ab");
}

#[test]
fn removes_delete_and_the_upper_controls() {
    assert_eq!(sanitize_json("a\x7fb\u{80}c\u{85}d\u{9f}e"), "abcde");
    assert_eq!(sanitize_json("\x0b\x0c\x1b\x1f"), "");
}

#[test]
fn keeps_what_is_no_control_character() {
    let input = "caf\u{e9} \u{a0}\u{2028}\u{1f600} ~ \u{a1}";
    assert_eq!(sanitize_json(input), input);
}

#[test]
fn keeps_backslashes_in_text_without_controls() {
    let input = "a\\b\\\\c\\\"d\\";
    assert_eq!(sanitize_json(input), input);
}

#[test]
fn escape_depends_on_the_parity_of_the_backslashes() {
    assert_eq!(sanitize_json("\n"), "\\n");
    assert_eq!(sanitize_json("\\\n"), "\\\n");
    assert_eq!(sanitize_json("\\\\\n"), "\\\\\\n");
    assert_eq!(sanitize_json("\\\\\\\n"), "\\\\\\\n");
    assert_eq!(sanitize_json("\\\\\\\\\t"), "\\\\\\\\\\t");
    assert_eq!(sanitize_json("\\\r"), "\\\r");
}

#[test]
fn a_character_between_ends_the_run_of_backslashes() {
    assert_eq!(sanitize_json("\\a\n"), "\\a\\n");
    assert_eq!(sanitize_json("\\\n\n"), "\\\n\\n");
    assert_eq!(sanitize_json("\\\t\\\t"), "\\\t\\\t");
}

#[test]
fn a_removed_character_does_not_end_the_run_of_backslashes() {
    // The control character goes in the first pass, so the line feed
    // follows the backslash directly in the second.
    assert_eq!(sanitize_json("\\\x00\n"), "\\\n");
}

#[test]
fn escapes_each_raw_line_control() {
    assert_eq!(sanitize_json("a\r\nb\tc"), "a\\r\\nb\\tc");
    assert_eq!(sanitize_json("\t\t"), "\\t\\t");
}

#[test]
fn sanitizing_twice_is_sanitizing_once() {
    let inputs = [
        "",
        "plain",
        "line1\nline2",
        "\\\n",
        "\\\\\n",
        "a\x00b\x01\n\\\t\\\\\r",
        "{\"body\":\"one\ntwo\u{1}\"}",
        "\\\x00\n\n",
        "caf\u{e9}\u{85}\n",
    ];
    for input in inputs {
        let once = sanitize_json(input);
        assert_eq!(sanitize_json(&once), once);
    }
}

#[test]
fn classifies_control_characters_as_the_standard_library_does() {
    let mut c = '\0';
    loop {
        assert_eq!(char_is_control(c), c.is_control());
        if c == char::MAX {
            break;
        }
        c = char::from_u32(c as u32 + 1).unwrap_or('\u{e000}');
    }
}
