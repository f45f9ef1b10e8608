use thunderbird_api::cli::format::{
    byte_slice, char_is_whitespace, format_date, month_abbreviation, parse_month, truncate,
};

#[test]
fn format_date_valid() {
    assert_eq!(format_date("2026-02-19T14:30:00Z"), "19 Feb 2026 14:30");
}

#[test]
fn format_date_empty() {
    assert_eq!(format_date(""), "");
}

#[test]
fn format_date_short_fallback() {
    assert_eq!(format_date("2026"), "2026");
}

#[test]
fn truncate_short() {
    assert_eq!(truncate("hello", 10), "hello");
}

#[test]
fn truncate_long() {
    assert_eq!(truncate("hello world this is long", 10), "hello w...");
}

#[test]
fn truncate_empty() {
    assert_eq!(truncate("", 10), "");
}

#[test]
fn truncate_newlines() {
    assert_eq!(truncate("hello\nworld", 20), "hello world");
}

#[test]
fn format_date_names_each_month() {
    let names =
        ["Jan", "Feb", "Mar", "Apr", "May", "Jun", "Jul", "Aug", "Sep", "Oct", "Nov", "Dec"];
    for (i, name) in names.iter().enumerate() {
        let iso = format!("2026-{:02}-05T07:08:09Z", i + 1);
        assert_eq!(format_date(&iso), format!("05 {} 2026 07:08", name));
    }
}

#[test]
fn format_date_needs_sixteen_bytes() {
    assert_eq!(format_date("2026-02-19T14:3"), "2026-02-19T14:3");
    assert_eq!(format_date("2026-02-19T14:30"), "19 Feb 2026 14:30");
}

#[test]
fn format_date_rejects_what_is_no_month() {
    assert_eq!(format_date("2026-00-19T14:30:00Z"), "2026-00-19T14:30:00Z");
    assert_eq!(format_date("2026-13-19T14:30:00Z"), "2026-13-19T14:30:00Z");
    assert_eq!(format_date("2026-1x-19T14:30:00Z"), "2026-1x-19T14:30:00Z");
    assert_eq!(format_date("2026- 2-19T14:30:00Z"), "2026- 2-19T14:30:00Z");
    assert_eq!(format_date("2026--2-19T14:30:00Z"), "2026--2-19T14:30:00Z");
    assert_eq!(format_date("not a date at all"), "not a date at all");
}

#[test]
fn format_date_reads_the_month_as_a_number() {
    assert_eq!(format_date("2026-+3-19T14:30:00Z"), "19 Mar 2026 14:30");
    assert_eq!(format_date("2026-+0-19T14:30:00Z"), "2026-+0-19T14:30:00Z");
}

#[test]
fn format_date_does_not_look_at_separators_or_other_fields() {
    assert_eq!(format_date("2026x02y19z14w30"), "19 Feb 2026 14:30");
    assert_eq!(format_date("abcd-12-ef gh:ij and more"), "ef Dec abcd gh:ij");
}

#[test]
fn format_date_counts_bytes() {
    // Sixteen bytes in fifteen characters: the year field holds three.
    assert_eq!(format_date("\u{e9}26-02-19T14:30"), "19 Feb \u{e9}26 14:30");
    assert_eq!(format_date("2026-02-19T14:30\u{e9}"), "19 Feb 2026 14:30");
    // The month field is cut out of the bytes 5 and 6, which here are `-0`.
    assert_eq!(format_date("\u{e9}026-02-19T14:30"), "\u{e9}026-02-19T14:30");
}

#[test]
fn format_date_leaves_text_whose_fields_split_a_character() {
    assert_eq!(format_date("2026-02-1\u{e9}14:30"), "2026-02-1\u{e9}14:30");
    assert_eq!(format_date("202\u{e9}-02-19T14:30"), "202\u{e9}-02-19T14:30");
}

#[test]
fn truncate_cuts_to_the_limit_with_dots() {
    assert_eq!(truncate("hello", 5), "hello");
    assert_eq!(truncate("hello", 4), "h...");
    assert_eq!(truncate("hello", 3), "...");
    assert_eq!(truncate("hello", 2), "...");
    assert_eq!(truncate("hello", 0), "...");
    assert_eq!(truncate("", 0), "");
}

#[test]
fn truncate_counts_characters() {
    assert_eq!(truncate("h\u{e9}llo w\u{f6}rld", 8), "h\u{e9}llo...");
    assert_eq!(truncate("\u{1f600}\u{1f600}\u{1f600}\u{1f600}", 4), "\u{1f600}\u{1f600}\u{1f600}\u{1f600}");
    assert_eq!(truncate("\u{1f600}\u{1f600}\u{1f600}\u{1f600}\u{1f600}", 4), "\u{1f600}...");
}

#[test]
fn truncate_trims_white_space() {
    assert_eq!(truncate("  hi  ", 10), "hi");
    assert_eq!(truncate("\n\thi\r\n", 10), "hi");
    assert_eq!(truncate("\u{a0}\u{3000}hi\u{2003}\u{85}", 10), "hi");
    assert_eq!(truncate(" \n\t ", 10), "");
    assert_eq!(truncate("   abcdef   ", 6), "abcdef");
}

#[test]
fn truncate_replaces_line_feeds_only() {
    assert_eq!(truncate("a\n\nb", 10), "a  b");
    assert_eq!(truncate("a\rb\tc", 10), "a\rb\tc");
}

#[test]
fn truncate_cuts_after_trimming() {
    assert_eq!(truncate("  hello world  ", 8), "hello...");
    assert_eq!(truncate("ab   cdefgh", 7), "ab  ...");
}

#[test]
fn classifies_white_space_as_the_standard_library_does() {
    let mut c = '\0';
    loop {
        assert_eq!(char_is_whitespace(c), c.is_whitespace());
        if c == char::MAX {
            break;
        }
        c = char::from_u32(c as u32 + 1).unwrap_or('\u{e000}');
    }
}

#[test]
fn byte_slice_cuts_between_characters_only() {
    assert_eq!(byte_slice("h\u{e9}llo", 0, 1), Some("h"));
    assert_eq!(byte_slice("h\u{e9}llo", 1, 3), Some("\u{e9}"));
    assert_eq!(byte_slice("h\u{e9}llo", 1, 2), None);
    assert_eq!(byte_slice("h\u{e9}llo", 2, 3), None);
    assert_eq!(byte_slice("h\u{e9}llo", 3, 6), Some("llo"));
    assert_eq!(byte_slice("h\u{e9}llo", 3, 7), None);
    assert_eq!(byte_slice("h\u{e9}llo", 4, 3), None);
    assert_eq!(byte_slice("", 0, 0), Some(""));
}

#[test]
fn parse_month_reads_two_bytes() {
    assert_eq!(parse_month(b'0', b'1'), Some(1));
    assert_eq!(parse_month(b'1', b'2'), Some(12));
    assert_eq!(parse_month(b'+', b'9'), Some(9));
    assert_eq!(parse_month(b'1', b'3'), None);
    assert_eq!(parse_month(b'0', b'0'), None);
    assert_eq!(parse_month(b'-', b'1'), None);
    assert_eq!(parse_month(b'1', b' '), None);
    assert_eq!(parse_month(b'9', b'9'), None);
    assert_eq!(month_abbreviation(1), "Jan");
    assert_eq!(month_abbreviation(12), "Dec");
}
