use crate::json::{contents, Json, JsonNumber, JsonValue, NumberValue};
use crate::text::{decimal, decimal_text, texts};
use vstd::prelude::*;
use vstd::string::*;
use vstd::utf8::*;

verus! {

/// Whether `c` is white space: one of the code points `U+0009..=U+000D`,
/// `U+0020`, `U+0085`, `U+00A0`, `U+1680`, `U+2000..=U+200A`, `U+2028`,
/// `U+2029`, `U+202F`, `U+205F` and `U+3000`.
pub open spec fn is_whitespace(c: char) -> bool {
    let n = c as u32;
    (0x09 <= n && n <= 0x0d) || n == 0x20 || n == 0x85 || n == 0xa0 || n == 0x1680 || (0x2000 <= n
        && n <= 0x200a) || n == 0x2028 || n == 0x2029 || n == 0x202f || n == 0x205f || n == 0x3000
}

/// `s` without its leading white space.
pub open spec fn trim_start(s: Seq<char>) -> Seq<char>
    decreases s.len(),
{
    if s.len() > 0 && is_whitespace(s[0]) {
        trim_start(s.drop_first())
    } else {
        s
    }
}

/// `s` without its trailing white space.
pub open spec fn trim_end(s: Seq<char>) -> Seq<char>
    decreases s.len(),
{
    if s.len() > 0 && is_whitespace(s.last()) {
        trim_end(s.drop_last())
    } else {
        s
    }
}

/// `s` without its leading and trailing white space.
pub open spec fn trim(s: Seq<char>) -> Seq<char> {
    trim_end(trim_start(s))
}

/// `s` with every line feed replaced by a space.
pub open spec fn flatten_lines(s: Seq<char>) -> Seq<char> {
    s.map_values(|c: char| if c == '\n' { ' ' } else { c })
}

/// The one-line summary of `s` in at most `max_len` characters: line feeds
/// become spaces, surrounding white space goes, and a text that is still
/// longer than `max_len` is cut to `max_len - 3` characters (none, if
/// `max_len` is under 3) followed by three dots.
pub open spec fn truncated(s: Seq<char>, max_len: nat) -> Seq<char> {
    let t = trim(flatten_lines(s));
    if t.len() > max_len {
        t.take(if max_len >= 3 { max_len - 3 } else { 0 }) + seq!['.', '.', '.']
    } else {
        t
    }
}

/// Executable test for [`is_whitespace`].
pub fn char_is_whitespace(c: char) -> (r: bool)
    ensures
        r == is_whitespace(c),
{
    let n: u32 = c as u32;
    (0x09 <= n && n <= 0x0d) || n == 0x20 || n == 0x85 || n == 0xa0 || n == 0x1680 || (0x2000 <= n
        && n <= 0x200a) || n == 0x2028 || n == 0x2029 || n == 0x202f || n == 0x205f || n == 0x3000
}

/// Trimming the start skips the white space up to the first character that
/// is none.
proof fn lemma_trim_start_skips(s: Seq<char>, k: int)
    requires
        0 <= k <= s.len(),
        forall|i: int| 0 <= i < k ==> is_whitespace(#[trigger] s[i]),
        k < s.len() ==> !is_whitespace(s[k]),
    ensures
        trim_start(s) == s.skip(k),
    decreases k,
{
    if k > 0 {
        let rest = s.drop_first();
        assert forall|i: int| 0 <= i < k - 1 implies is_whitespace(#[trigger] rest[i]) by {
            assert(rest[i] == s[i + 1]);
        }
        lemma_trim_start_skips(rest, k - 1);
        assert(rest.skip(k - 1) =~= s.skip(k));
    } else {
        assert(s.skip(0) =~= s);
    }
}

/// Trimming the end keeps the text up to the last character that is no
/// white space.
proof fn lemma_trim_end_takes(s: Seq<char>, k: int)
    requires
        0 <= k <= s.len(),
        forall|i: int| k <= i < s.len() ==> is_whitespace(#[trigger] s[i]),
        0 < k ==> !is_whitespace(s[k - 1]),
    ensures
        trim_end(s) == s.take(k),
    decreases s.len() - k,
{
    if k < s.len() {
        let rest = s.drop_last();
        lemma_trim_end_takes(rest, k);
        assert(rest.take(k) =~= s.take(k));
    } else {
        assert(s.take(k) =~= s);
    }
}

/// Shortens `s` to a one-line summary of at most `max_len` characters,
/// counted in characters, not bytes.
pub fn truncate(s: &str, max_len: usize) -> (r: String)
    ensures
        r@ == truncated(s@, max_len as nat),
{
    let mut cleaned: Vec<char> = Vec::new();
    for c in it: s.chars()
        invariant
            it.seq() == s@,
            cleaned@ == flatten_lines(s@.take(it.index())),
    {
        assert(s@.take(it.index() + 1) =~= s@.take(it.index()).push(c));
        cleaned.push(if c == '\n' { ' ' } else { c });
        assert(cleaned@ =~= flatten_lines(s@.take(it.index() + 1)));
    }
    assert(s@.take(s@.len() as int) =~= s@);

    let mut start: usize = 0;
    while start < cleaned.len() && char_is_whitespace(cleaned[start])
        invariant
            start <= cleaned.len(),
            forall|i: int| 0 <= i < start ==> is_whitespace(#[trigger] cleaned@[i]),
        decreases cleaned.len() - start,
    {
        start += 1;
    }
    let mut end: usize = cleaned.len();
    while end > start && char_is_whitespace(cleaned[end - 1])
        invariant
            start <= end <= cleaned.len(),
            forall|i: int| end <= i < cleaned.len() ==> is_whitespace(#[trigger] cleaned@[i]),
        decreases end,
    {
        end -= 1;
    }
    let ghost trimmed = cleaned@.subrange(start as int, end as int);
    proof {
        let tail = cleaned@.skip(start as int);
        lemma_trim_start_skips(cleaned@, start as int);
        assert forall|i: int| end - start <= i < tail.len() implies is_whitespace(
            #[trigger] tail[i],
        ) by {
            assert(tail[i] == cleaned@[i + start]);
        }
        lemma_trim_end_takes(tail, end - start);
        assert(tail.take(end - start) =~= trimmed);
        assert(trimmed == trim(flatten_lines(s@)));
    }

    let count: usize = end - start;
    let keep: usize = if count <= max_len {
        count
    } else if max_len >= 3 {
        max_len - 3
    } else {
        0
    };
    let mut result = String::new();
    let mut i: usize = 0;
    while i < keep
        invariant
            i <= keep <= count,
            count == end - start,
            end <= cleaned.len(),
            trimmed == cleaned@.subrange(start as int, end as int),
            result@ == trimmed.take(i as int),
        decreases keep - i,
    {
        result.push(cleaned[start + i]);
        assert(trimmed.take(i + 1) =~= trimmed.take(i as int).push(trimmed[i as int]));
        i += 1;
    }
    if count > max_len {
        result.push('.');
        result.push('.');
        result.push('.');
        assert(result@ =~= trimmed.take(keep as int) + seq!['.', '.', '.']);
    } else {
        assert(trimmed.take(count as int) =~= trimmed);
    }
    result
}

/// The characters that the bytes `from..to` of the UTF-8 encoding of `s`
/// stand for. Meaningful where both ends fall between characters.
pub open spec fn byte_field(s: Seq<char>, from: int, to: int) -> Seq<char> {
    decode_utf8(encode_utf8(s).subrange(from, to))
}

/// Whether the bytes `from..to` of the UTF-8 encoding of `s` exist and hold
/// whole characters only.
pub open spec fn is_byte_field(s: Seq<char>, from: int, to: int) -> bool {
    &&& 0 <= from <= to <= encode_utf8(s).len()
    &&& is_char_boundary(encode_utf8(s), from)
    &&& is_char_boundary(encode_utf8(s), to)
}

/// The part of `s` between the byte offsets `from` and `to`, or `None` where
/// those offsets are out of range or fall inside a character.
pub fn byte_slice<'a>(s: &'a str, from: usize, to: usize) -> (r: Option<&'a str>)
    ensures
        r is Some <==> is_byte_field(s@, from as int, to as int),
        r matches Some(part) ==> part@ == byte_field(s@, from as int, to as int),
{
    broadcast use encode_utf8_valid_utf8, encode_utf8_decode_utf8;

    let ghost bytes = encode_utf8(s@);
    if from <= to && to <= s.as_bytes().len() && s.is_char_boundary(from) && s.is_char_boundary(to) {
        let (_, tail) = s.split_at(from);
        proof {
            let rest = bytes.subrange(from as int, bytes.len() as int);
            valid_utf8_split(bytes, from as int);
            if to < bytes.len() {
                is_char_boundary_iff_not_is_continuation_byte(bytes, to as int);
                is_char_boundary_iff_not_is_continuation_byte(rest, to - from);
            } else {
                is_char_boundary_start_end_of_seq(rest);
            }
        }
        let (part, _) = tail.split_at(to - from);
        assert(part.spec_bytes() =~= bytes.subrange(from as int, to as int));
        Some(part)
    } else {
        None
    }
}

/// Whether `b` is an ASCII decimal digit.
pub open spec fn is_digit(b: u8) -> bool {
    0x30 <= b <= 0x39
}

/// The month that the two bytes `hi` and `lo` name when read as an
/// unsigned decimal number: two digits, or a plus sign and one digit, with a
/// value from 1 to 12.
pub open spec fn month_number(hi: u8, lo: u8) -> Option<nat> {
    if is_digit(lo) && (is_digit(hi) || hi == 0x2b) {
        let tens: int = if is_digit(hi) {
            hi - 0x30
        } else {
            0
        };
        let value = 10 * tens + (lo - 0x30);
        if 1 <= value <= 12 {
            Some(value as nat)
        } else {
            None
        }
    } else {
        None
    }
}

/// The English three-letter abbreviation of month `m`, counted from 1.
pub open spec fn month_name(m: nat) -> Seq<char> {
    if m == 1 {
        "Jan"@
    } else if m == 2 {
        "Feb"@
    } else if m == 3 {
        "Mar"@
    } else if m == 4 {
        "Apr"@
    } else if m == 5 {
        "May"@
    } else if m == 6 {
        "Jun"@
    } else if m == 7 {
        "Jul"@
    } else if m == 8 {
        "Aug"@
    } else if m == 9 {
        "Sep"@
    } else if m == 10 {
        "Oct"@
    } else if m == 11 {
        "Nov"@
    } else {
        "Dec"@
    }
}

/// Whether `s` has the layout of a timestamp `YYYY-MM-DDThh:mm...`: at
/// least 16 bytes, a month number in bytes 5 and 6, and whole characters in
/// the byte ranges of year, day, hour and minute. Separators are not looked
/// at, and the fields other than the month may hold anything.
pub open spec fn has_date_layout(s: Seq<char>) -> bool {
    let bytes = encode_utf8(s);
    &&& bytes.len() >= 16
    &&& month_number(bytes[5], bytes[6]) is Some
    &&& is_byte_field(s, 0, 4)
    &&& is_byte_field(s, 8, 10)
    &&& is_byte_field(s, 11, 13)
    &&& is_byte_field(s, 14, 16)
}

/// The display form of a timestamp, `DD Mon YYYY hh:mm`; a text without the
/// layout of a timestamp stands for itself.
pub open spec fn formatted_date(s: Seq<char>) -> Seq<char> {
    let bytes = encode_utf8(s);
    if has_date_layout(s) {
        byte_field(s, 8, 10) + seq![' '] + month_name(month_number(bytes[5], bytes[6])->0) + seq![
            ' ',
        ] + byte_field(s, 0, 4) + seq![' '] + byte_field(s, 11, 13) + seq![':'] + byte_field(
            s,
            14,
            16,
        )
    } else {
        s
    }
}

/// Reads a month number from two bytes.
pub fn parse_month(hi: u8, lo: u8) -> (r: Option<usize>)
    ensures
        r is Some <==> month_number(hi, lo) is Some,
        r matches Some(m) ==> m == month_number(hi, lo)->0,
{
    if lo < 0x30 || lo > 0x39 {
        return None;
    }
    let tens: usize = if 0x30 <= hi && hi <= 0x39 {
        (hi - 0x30) as usize
    } else if hi == 0x2b {
        0
    } else {
        return None;
    };
    let value: usize = 10 * tens + (lo - 0x30) as usize;
    if 1 <= value && value <= 12 {
        Some(value)
    } else {
        None
    }
}

/// The abbreviation of month `m`.
pub fn month_abbreviation(m: usize) -> (r: &'static str)
    requires
        1 <= m <= 12,
    ensures
        r@ == month_name(m as nat),
{
    if m == 1 {
        "Jan"
    } else if m == 2 {
        "Feb"
    } else if m == 3 {
        "Mar"
    } else if m == 4 {
        "Apr"
    } else if m == 5 {
        "May"
    } else if m == 6 {
        "Jun"
    } else if m == 7 {
        "Jul"
    } else if m == 8 {
        "Aug"
    } else if m == 9 {
        "Sep"
    } else if m == 10 {
        "Oct"
    } else if m == 11 {
        "Nov"
    } else {
        "Dec"
    }
}

/// Formats an ISO 8601 timestamp such as `2026-02-19T14:30:00Z` as
/// `19 Feb 2026 14:30`. Anything that does not have the layout of a
/// timestamp, the empty text included, is returned as it is.
pub fn format_date(iso: &str) -> (r: String)
    ensures
        r@ == formatted_date(iso@),
{
    let bytes = iso.as_bytes();
    if bytes.len() < 16 {
        return iso.to_owned();
    }
    let month = match parse_month(bytes[5], bytes[6]) {
        Some(m) => m,
        None => {
            return iso.to_owned();
        },
    };
    let year = byte_slice(iso, 0, 4);
    let day = byte_slice(iso, 8, 10);
    let hour = byte_slice(iso, 11, 13);
    let minute = byte_slice(iso, 14, 16);
    match (year, day, hour, minute) {
        (Some(year), Some(day), Some(hour), Some(minute)) => {
            let mut r = day.to_owned();
            r.push(' ');
            r.append(month_abbreviation(month));
            r.push(' ');
            r.append(year);
            r.push(' ');
            r.append(hour);
            r.push(':');
            r.append(minute);
            assert(r@ =~= formatted_date(iso@));
            r
        },
        _ => iso.to_owned(),
    }
}

/// The string member `key` of `value`, or `fallback` where `value` has no
/// such member or the member is no string.
pub open spec fn text_of(value: JsonValue, key: Seq<char>, fallback: Seq<char>) -> Seq<char> {
    match value.member_text(key) {
        Some(text) => text,
        None => fallback,
    }
}

/// The member `first` of `value`, or the member `second` where there is no
/// member `first`.
pub open spec fn either_member(value: JsonValue, first: Seq<char>, second: Seq<char>) -> Option<
    JsonValue,
> {
    match value.member(first) {
        Some(found) => Some(found),
        None => value.member(second),
    }
}

/// The text of an optional member, or nothing where it is no string.
pub open spec fn text_or_empty(member: Option<JsonValue>) -> Seq<char> {
    match member {
        Some(JsonValue::String(text)) => text,
        _ => Seq::empty(),
    }
}

/// The member `key` of `value` as a count: an integer from 0 to
/// `u64::MAX`, or 0 where the member is anything else.
pub open spec fn count_of(value: JsonValue, key: Seq<char>) -> u64 {
    match value.member(key) {
        Some(JsonValue::Number(NumberValue::Integer(i))) => if 0 <= i <= u64::MAX {
            i as u64
        } else {
            0
        },
        _ => 0,
    }
}

/// Whether a message is marked as unread.
pub open spec fn is_unread(msg: JsonValue) -> bool {
    msg.member("read"@) == Some(JsonValue::Bool(false))
}

/// Whether a message is flagged.
pub open spec fn is_flagged(msg: JsonValue) -> bool {
    msg.member("flagged"@) == Some(JsonValue::Bool(true))
}

/// The marks of a message in brackets after a space, or nothing where it
/// has none.
pub open spec fn flag_suffix(msg: JsonValue) -> Seq<char> {
    if is_unread(msg) && is_flagged(msg) {
        " [UNREAD FLAGGED]"@
    } else if is_unread(msg) {
        " [UNREAD]"@
    } else if is_flagged(msg) {
        " [FLAGGED]"@
    } else {
        Seq::empty()
    }
}

/// The four rows that summarise one message of a list.
pub open spec fn message_rows(msg: JsonValue) -> Seq<Seq<char>> {
    seq![
        formatted_date(text_of(msg, "date"@, Seq::empty())) + "  "@ + truncated(
            text_or_empty(either_member(msg, "author"@, "from"@)),
            30,
        ),
        "  "@ + text_of(msg, "subject"@, "(no subject)"@) + flag_suffix(msg),
        "  id: "@ + text_of(msg, "id"@, Seq::empty()) + "  folder: "@ + text_of(
            msg,
            "folderPath"@,
            Seq::empty(),
        ),
        Seq::empty(),
    ]
}

/// The rows of all of `items`, in order.
pub open spec fn all_message_rows(items: Seq<JsonValue>) -> Seq<Seq<char>>
    decreases items.len(),
{
    if items.len() == 0 {
        Seq::empty()
    } else {
        all_message_rows(items.drop_last()) + message_rows(items.last())
    }
}

/// The rows that show a list of messages: four rows for each message and
/// the count at the end, or one row that says that there are none where
/// `messages` is no array or an empty one.
pub open spec fn messages_report(messages: JsonValue) -> Seq<Seq<char>> {
    match messages {
        JsonValue::Array(items) => if items.len() > 0 {
            all_message_rows(items).push(decimal_text(items.len()) + " message(s)"@)
        } else {
            seq!["No messages found."@]
        },
        _ => seq!["No messages found."@],
    }
}

/// Appends one row.
fn push_row(rows: &mut Vec<String>, row: String)
    ensures
        texts(final(rows)@) == texts(old(rows)@).push(row@),
{
    rows.push(row);
    assert(texts(rows@) =~= texts(old(rows)@).push(row@));
}

/// The string member `key` of `value`, or `fallback`.
fn text_member<'a>(value: &'a Json, key: &str, fallback: &'a str) -> (r: &'a str)
    ensures
        r@ == text_of(value@, key@, fallback@),
{
    match value.get_str(key) {
        Some(text) => text,
        None => fallback,
    }
}

/// The member `first` of `value`, or else the member `second`.
fn either<'a>(value: &'a Json, first: &str, second: &str) -> (r: Option<&'a Json>)
    ensures
        match r {
            Some(found) => either_member(value@, first@, second@) == Some(found@),
            None => either_member(value@, first@, second@) is None,
        },
{
    match value.get(first) {
        Some(found) => Some(found),
        None => value.get(second),
    }
}

/// The text of an optional member, or nothing where it is no string.
fn text_or_nothing<'a>(member: Option<&'a Json>) -> (r: &'a str)
    ensures
        r@ == text_or_empty(
            match member {
                Some(m) => Some(m@),
                None => None,
            },
        ),
{
    proof {
        reveal_strlit("");
    }
    match member {
        Some(m) => match m.as_str() {
            Some(text) => text,
            None => "",
        },
        None => "",
    }
}

/// The member `key` of `value` as a count.
fn count_member(value: &Json, key: &str) -> (r: u64)
    ensures
        r == count_of(value@, key@),
{
    match value.get(key) {
        Some(member) => match member.as_u64() {
            Some(n) => n,
            None => 0,
        },
        None => 0,
    }
}

/// Whether the member `key` of `value` is the boolean `wanted`.
fn bool_member_is(value: &Json, key: &str, wanted: bool) -> (r: bool)
    ensures
        r == (value@.member(key@) == Some(JsonValue::Bool(wanted))),
{
    match value.get(key) {
        Some(member) => match member.as_bool() {
            Some(b) => b == wanted,
            None => false,
        },
        None => false,
    }
}

/// The marks of a message in brackets after a space.
fn build_flags(msg: &Json) -> (r: &'static str)
    ensures
        r@ == flag_suffix(msg@),
{
    proof {
        reveal_strlit("");
    }
    let unread = bool_member_is(msg, "read", false);
    let flagged = bool_member_is(msg, "flagged", true);
    if unread && flagged {
        " [UNREAD FLAGGED]"
    } else if unread {
        " [UNREAD]"
    } else if flagged {
        " [FLAGGED]"
    } else {
        ""
    }
}

/// The rows that show a list of messages.
pub fn print_messages(messages: &Json) -> (rows: Vec<String>)
    ensures
        texts(rows@) == messages_report(messages@),
{
    let mut rows: Vec<String> = Vec::new();
    assert(texts(rows@) =~= Seq::<Seq<char>>::empty());
    let items = match messages.as_array() {
        Some(items) => items,
        None => {
            push_row(&mut rows, "No messages found.".to_owned());
            return rows;
        },
    };
    if items.len() == 0 {
        push_row(&mut rows, "No messages found.".to_owned());
        return rows;
    }
    let ghost all = contents(items@);
    let mut i: usize = 0;
    while i < items.len()
        invariant
            i <= items.len(),
            all == contents(items@),
            texts(rows@) == all_message_rows(all.take(i as int)),
        decreases items.len() - i,
    {
        let msg = &items[i];
        proof {
            assert(all.take(i + 1).drop_last() =~= all.take(i as int));
            assert(all.take(i + 1).last() == msg@);
            reveal_strlit("");
        }
        let author = text_or_nothing(either(msg, "author", "from"));
        let mut first = format_date(text_member(msg, "date", ""));
        first.append("  ");
        first.append(truncate(author, 30).as_str());
        let mut second = "  ".to_owned();
        second.append(text_member(msg, "subject", "(no subject)"));
        second.append(build_flags(msg));
        let mut third = "  id: ".to_owned();
        third.append(text_member(msg, "id", ""));
        third.append("  folder: ");
        third.append(text_member(msg, "folderPath", ""));
        let ghost before = texts(rows@);
        push_row(&mut rows, first);
        push_row(&mut rows, second);
        push_row(&mut rows, third);
        push_row(&mut rows, String::new());
        assert(texts(rows@) =~= before + message_rows(msg@));
        i += 1;
    }
    assert(all.take(items.len() as int) =~= all);
    let mut last = decimal(items.len() as u64);
    last.append(" message(s)");
    push_row(&mut rows, last);
    rows
}

/// The text that stands at place `i` of `size_texts`, or nothing where
/// there is no such place.
pub open spec fn size_text_at(size_texts: Seq<Seq<char>>, i: int) -> Seq<char> {
    if 0 <= i < size_texts.len() {
        size_texts[i]
    } else {
        Seq::empty()
    }
}

/// The numbers in the member `size` of each of `attachments`.
pub open spec fn sizes_of(attachments: Seq<JsonValue>) -> Seq<Option<NumberValue>> {
    attachments.map_values(
        |a: JsonValue|
            match a.member("size"@) {
                Some(JsonValue::Number(n)) => Some(n),
                _ => None::<NumberValue>,
            },
    )
}

/// The attachments of a message: the elements of its array member
/// `attachments`, or none.
pub open spec fn attachments_of(msg: JsonValue) -> Seq<JsonValue> {
    match msg.member("attachments"@) {
        Some(JsonValue::Array(attachments)) => attachments,
        _ => Seq::empty(),
    }
}

/// The row of one attachment: its name, then `size_text` where it has a
/// numeric size, then the path of the saved file, then the error in
/// brackets.
pub open spec fn attachment_row(attachment: JsonValue, size_text: Seq<char>) -> Seq<char> {
    "  "@ + text_of(attachment, "name"@, "unknown"@) + (match attachment.member("size"@) {
        Some(JsonValue::Number(_)) => size_text,
        _ => Seq::empty(),
    }) + (match attachment.member_text("filePath"@) {
        Some(path) => " -> "@ + path,
        None => Seq::empty(),
    }) + (match attachment.member_text("error"@) {
        Some(error) => " ["@ + error + "]"@,
        None => Seq::empty(),
    })
}

/// The rows of the first `n` of `attachments`; the size of the attachment
/// at place `i` is shown as the text at place `i` of `size_texts`.
pub open spec fn attachment_rows(
    attachments: Seq<JsonValue>,
    size_texts: Seq<Seq<char>>,
    n: int,
) -> Seq<Seq<char>>
    decreases n,
{
    if n <= 0 {
        Seq::empty()
    } else {
        attachment_rows(attachments, size_texts, n - 1).push(
            attachment_row(attachments[n - 1], size_text_at(size_texts, n - 1)),
        )
    }
}

/// The rows that show a message in full, or the text of its string member
/// `error` where it has one. The rows are: subject with marks, sender,
/// recipients, the CC list where there is one, date, identifier; where there
/// are attachments, a heading with their number and a row for each; and the
/// body after an empty line.
pub open spec fn message_report(msg: JsonValue, size_texts: Seq<Seq<char>>) -> Result<
    Seq<Seq<char>>,
    Seq<char>,
> {
    match msg.member_text("error"@) {
        Some(error) => Err(error),
        None => Ok(
            seq![
                "Subject: "@ + text_of(msg, "subject"@, "(no subject)"@) + flag_suffix(msg),
                "From:    "@ + text_of(msg, "author"@, Seq::empty()),
                "To:      "@ + text_of(msg, "recipients"@, Seq::empty()),
            ] + (match msg.member_text("ccList"@) {
                Some(cc) => seq!["CC:      "@ + cc],
                None => Seq::empty(),
            }) + seq![
                "Date:    "@ + formatted_date(text_of(msg, "date"@, Seq::empty())),
                "ID:      "@ + text_of(msg, "id"@, Seq::empty()),
            ] + (if attachments_of(msg).len() > 0 {
                seq!["\nAttachments ("@ + decimal_text(attachments_of(msg).len()) + "):"@]
                    + attachment_rows(
                    attachments_of(msg),
                    size_texts,
                    attachments_of(msg).len() as int,
                )
            } else {
                Seq::empty()
            }) + seq!["\n"@ + text_of(msg, "body"@, "(empty body)"@)],
        ),
    }
}

/// The attachments of a message.
fn attachments(msg: &Json) -> (r: Option<&Vec<Json>>)
    ensures
        match r {
            Some(found) => attachments_of(msg@) == contents(found@),
            None => attachments_of(msg@).len() == 0,
        },
{
    match msg.get("attachments") {
        Some(member) => member.as_array(),
        None => None,
    }
}

/// The contents of optional numbers, one by one.
pub open spec fn number_contents(numbers: Seq<Option<JsonNumber>>) -> Seq<Option<NumberValue>> {
    numbers.map_values(
        |n: Option<JsonNumber>|
            match n {
                Some(n) => Some(n@),
                None => None::<NumberValue>,
            },
    )
}

/// The size of each attachment of a message, where it is a number. The
/// caller turns each into the text that [`print_message`] shows.
pub fn attachment_sizes(msg: &Json) -> (sizes: Vec<Option<JsonNumber>>)
    ensures
        number_contents(sizes@) == sizes_of(attachments_of(msg@)),
{
    let mut sizes: Vec<Option<JsonNumber>> = Vec::new();
    match attachments(msg) {
        Some(found) => {
            let ghost all = contents(found@);
            assert(number_contents(sizes@) =~= sizes_of(all.take(0)));
            let mut i: usize = 0;
            while i < found.len()
                invariant
                    i <= found.len(),
                    all == contents(found@),
                    sizes@.len() == i,
                    number_contents(sizes@) == sizes_of(all.take(i as int)),
                decreases found.len() - i,
            {
                let size = match found[i].get("size") {
                    Some(Json::Number(n)) => Some(n.clone()),
                    _ => None,
                };
                proof {
                    let next = number_contents(sizes@.push(size));
                    let want = sizes_of(all.take(i + 1));
                    assert(next.len() == want.len());
                    assert forall|k: int| 0 <= k < next.len() implies next[k] == want[k] by {
                        if k < i {
                            assert(next[k] == number_contents(sizes@)[k]);
                            assert(want[k] == sizes_of(all.take(i as int))[k]);
                        } else {
                            assert(all.take(i + 1)[k] == found@[i as int]@);
                        }
                    }
                    assert(next =~= want);
                }
                sizes.push(size);
                i += 1;
            }
            assert(all.take(found.len() as int) =~= all);
        },
        None => {
            assert(number_contents(sizes@) =~= sizes_of(attachments_of(msg@)));
        },
    }
    sizes
}

/// The rows that show a message in full, or the text of its member `error`.
/// The size of the attachment at place `i` is shown as `size_texts[i]`.
pub fn print_message(msg: &Json, size_texts: &Vec<String>) -> (r: Result<Vec<String>, String>)
    ensures
        match r {
            Ok(rows) => message_report(msg@, texts(size_texts@)) == Ok::<_, Seq<char>>(
                texts(rows@),
            ),
            Err(error) => message_report(msg@, texts(size_texts@)) == Err::<Seq<Seq<char>>, _>(
                error@,
            ),
        },
{
    proof {
        reveal_strlit("");
    }
    match msg.get_str("error") {
        Some(error) => {
            return Err(error.to_owned());
        },
        None => {},
    }
    let mut rows: Vec<String> = Vec::new();
    assert(texts(rows@) =~= Seq::<Seq<char>>::empty());

    let mut subject = "Subject: ".to_owned();
    subject.append(text_member(msg, "subject", "(no subject)"));
    subject.append(build_flags(msg));
    push_row(&mut rows, subject);
    let mut from = "From:    ".to_owned();
    from.append(text_member(msg, "author", ""));
    push_row(&mut rows, from);
    let mut to = "To:      ".to_owned();
    to.append(text_member(msg, "recipients", ""));
    push_row(&mut rows, to);
    match msg.get_str("ccList") {
        Some(cc) => {
            let mut row = "CC:      ".to_owned();
            row.append(cc);
            push_row(&mut rows, row);
        },
        None => {},
    }
    let mut date = "Date:    ".to_owned();
    date.append(format_date(text_member(msg, "date", "")).as_str());
    push_row(&mut rows, date);
    let mut id = "ID:      ".to_owned();
    id.append(text_member(msg, "id", ""));
    push_row(&mut rows, id);

    match attachments(msg) {
        Some(found) => {
            if found.len() > 0 {
                let ghost all = contents(found@);
                let mut heading = "\nAttachments (".to_owned();
                heading.append(decimal(found.len() as u64).as_str());
                heading.append("):");
                push_row(&mut rows, heading);
                let ghost start = texts(rows@);
                let mut i: usize = 0;
                while i < found.len()
                    invariant
                        i <= found.len(),
                        all == contents(found@),
                        texts(rows@) == start + attachment_rows(all, texts(size_texts@), i as int),
                    decreases found.len() - i,
                {
                    proof {
                        reveal_strlit("");
                    }
                    let attachment = &found[i];
                    let mut row = "  ".to_owned();
                    row.append(text_member(attachment, "name", "unknown"));
                    match attachment.get("size") {
                        Some(Json::Number(_)) => {
                            if i < size_texts.len() {
                                row.append(size_texts[i].as_str());
                            }
                        },
                        _ => {},
                    }
                    match attachment.get_str("filePath") {
                        Some(path) => {
                            row.append(" -> ");
                            row.append(path);
                        },
                        None => {},
                    }
                    match attachment.get_str("error") {
                        Some(error) => {
                            row.append(" [");
                            row.append(error);
                            row.append("]");
                        },
                        None => {},
                    }
                    assert(row@ =~= attachment_row(
                        all[i as int],
                        size_text_at(texts(size_texts@), i as int),
                    ));
                    push_row(&mut rows, row);
                    assert(texts(rows@) =~= start + attachment_rows(
                        all,
                        texts(size_texts@),
                        i + 1,
                    ));
                    i += 1;
                }
            }
        },
        None => {},
    }
    let mut body = "\n".to_owned();
    body.append(text_member(msg, "body", "(empty body)"));
    push_row(&mut rows, body);
    assert(message_report(msg@, texts(size_texts@)) matches Ok(want) && want =~= texts(rows@));
    Ok(rows)
}

/// Two spaces for each level of `depth`.
pub open spec fn indent(depth: nat) -> Seq<char> {
    Seq::new(2 * depth, |i: int| ' ')
}

/// The number of unread messages in brackets after a space, or nothing
/// where there are none.
pub open spec fn unread_note(unread: u64) -> Seq<char> {
    if unread > 0 {
        " ("@ + decimal_text(unread as nat) + " unread)"@
    } else {
        Seq::empty()
    }
}

/// The two rows of one folder, indented by its depth in the tree: its name
/// with the numbers of messages, and its path.
pub open spec fn folder_rows(folder: JsonValue) -> Seq<Seq<char>> {
    let pad = indent((count_of(folder, "depth"@) as usize) as nat);
    seq![
        pad + text_of(folder, "name"@, Seq::empty()) + "  ["@ + decimal_text(
            count_of(folder, "totalMessages"@) as nat,
        ) + " msgs"@ + unread_note(count_of(folder, "unreadMessages"@)) + "]"@,
        pad + "  "@ + text_of(folder, "path"@, Seq::empty()),
    ]
}

/// The rows of all of `items`, in order.
pub open spec fn all_folder_rows(items: Seq<JsonValue>) -> Seq<Seq<char>>
    decreases items.len(),
{
    if items.len() == 0 {
        Seq::empty()
    } else {
        all_folder_rows(items.drop_last()) + folder_rows(items.last())
    }
}

/// The rows that show a list of folders, or one row that says that there
/// are none where `folders` is no array or an empty one.
pub open spec fn folders_report(folders: JsonValue) -> Seq<Seq<char>> {
    match folders {
        JsonValue::Array(items) => if items.len() > 0 {
            all_folder_rows(items)
        } else {
            seq!["No folders found."@]
        },
        _ => seq!["No folders found."@],
    }
}

/// Two spaces for each level of `depth`.
fn indentation(depth: usize) -> (r: String)
    ensures
        r@ == indent(depth as nat),
{
    let mut r = String::new();
    let mut level: usize = 0;
    while level < depth
        invariant
            level <= depth,
            r@ == indent(level as nat),
        decreases depth - level,
    {
        r.push(' ');
        r.push(' ');
        level += 1;
        assert(r@ =~= indent(level as nat));
    }
    r
}

/// The rows that show a list of folders.
pub fn print_folders(folders: &Json) -> (rows: Vec<String>)
    ensures
        texts(rows@) == folders_report(folders@),
{
    let mut rows: Vec<String> = Vec::new();
    assert(texts(rows@) =~= Seq::<Seq<char>>::empty());
    let items = match folders.as_array() {
        Some(items) => items,
        None => {
            push_row(&mut rows, "No folders found.".to_owned());
            return rows;
        },
    };
    if items.len() == 0 {
        push_row(&mut rows, "No folders found.".to_owned());
        return rows;
    }
    let ghost all = contents(items@);
    let mut i: usize = 0;
    while i < items.len()
        invariant
            i <= items.len(),
            all == contents(items@),
            texts(rows@) == all_folder_rows(all.take(i as int)),
        decreases items.len() - i,
    {
        let folder = &items[i];
        proof {
            assert(all.take(i + 1).drop_last() =~= all.take(i as int));
            assert(all.take(i + 1).last() == folder@);
            reveal_strlit("");
        }
        let depth = #[verifier::truncate]
        (count_member(folder, "depth") as usize);
        let unread = count_member(folder, "unreadMessages");
        let mut first = indentation(depth);
        first.append(text_member(folder, "name", ""));
        first.append("  [");
        first.append(decimal(count_member(folder, "totalMessages")).as_str());
        first.append(" msgs");
        if unread > 0 {
            first.append(" (");
            first.append(decimal(unread).as_str());
            first.append(" unread)");
        }
        first.append("]");
        let mut second = indentation(depth);
        second.append("  ");
        second.append(text_member(folder, "path", ""));
        let ghost before = texts(rows@);
        assert(first@ =~= folder_rows(folder@)[0]);
        assert(second@ =~= folder_rows(folder@)[1]);
        push_row(&mut rows, first);
        push_row(&mut rows, second);
        assert(texts(rows@) =~= before + folder_rows(folder@));
        i += 1;
    }
    assert(all.take(items.len() as int) =~= all);
    rows
}

/// The row of one identity of an account: its name and its address.
pub open spec fn identity_row(identity: JsonValue) -> Seq<char> {
    "  "@ + text_of(identity, "name"@, Seq::empty()) + " <"@ + text_of(
        identity,
        "email"@,
        Seq::empty(),
    ) + ">"@
}

/// The rows of all of `identities`, in order.
pub open spec fn all_identity_rows(identities: Seq<JsonValue>) -> Seq<Seq<char>>
    decreases identities.len(),
{
    if identities.len() == 0 {
        Seq::empty()
    } else {
        all_identity_rows(identities.drop_last()).push(identity_row(identities.last()))
    }
}

/// The identities of an account: the elements of its array member
/// `identities`, or none.
pub open spec fn identities_of(account: JsonValue) -> Seq<JsonValue> {
    match account.member("identities"@) {
        Some(JsonValue::Array(identities)) => identities,
        _ => Seq::empty(),
    }
}

/// The rows of one account: its name, or else its key, with its type; a
/// row for each identity; and an empty row.
pub open spec fn account_rows(account: JsonValue) -> Seq<Seq<char>> {
    seq![
        text_or_empty(either_member(account, "name"@, "key"@)) + " ("@ + text_of(
            account,
            "type"@,
            Seq::empty(),
        ) + ")"@,
    ] + all_identity_rows(identities_of(account)) + seq![Seq::empty()]
}

/// The rows of all of `items`, in order.
pub open spec fn all_account_rows(items: Seq<JsonValue>) -> Seq<Seq<char>>
    decreases items.len(),
{
    if items.len() == 0 {
        Seq::empty()
    } else {
        all_account_rows(items.drop_last()) + account_rows(items.last())
    }
}

/// The rows that show a list of accounts, or one row that says that there
/// are none where `accounts` is no array or an empty one.
pub open spec fn accounts_report(accounts: JsonValue) -> Seq<Seq<char>> {
    match accounts {
        JsonValue::Array(items) => if items.len() > 0 {
            all_account_rows(items)
        } else {
            seq!["No accounts found."@]
        },
        _ => seq!["No accounts found."@],
    }
}

/// The identities of an account.
fn identities(account: &Json) -> (r: Option<&Vec<Json>>)
    ensures
        match r {
            Some(found) => identities_of(account@) == contents(found@),
            None => identities_of(account@).len() == 0,
        },
{
    match account.get("identities") {
        Some(member) => member.as_array(),
        None => None,
    }
}

/// The rows that show a list of accounts.
pub fn print_accounts(accounts: &Json) -> (rows: Vec<String>)
    ensures
        texts(rows@) == accounts_report(accounts@),
{
    let mut rows: Vec<String> = Vec::new();
    assert(texts(rows@) =~= Seq::<Seq<char>>::empty());
    let items = match accounts.as_array() {
        Some(items) => items,
        None => {
            push_row(&mut rows, "No accounts found.".to_owned());
            return rows;
        },
    };
    if items.len() == 0 {
        push_row(&mut rows, "No accounts found.".to_owned());
        return rows;
    }
    let ghost all = contents(items@);
    let mut i: usize = 0;
    while i < items.len()
        invariant
            i <= items.len(),
            all == contents(items@),
            texts(rows@) == all_account_rows(all.take(i as int)),
        decreases items.len() - i,
    {
        let account = &items[i];
        proof {
            assert(all.take(i + 1).drop_last() =~= all.take(i as int));
            assert(all.take(i + 1).last() == account@);
            reveal_strlit("");
        }
        let ghost before = texts(rows@);
        let mut heading = text_or_nothing(either(account, "name", "key")).to_owned();
        heading.append(" (");
        heading.append(text_member(account, "type", ""));
        heading.append(")");
        push_row(&mut rows, heading);
        let ghost start = texts(rows@);
        match identities(account) {
            Some(found) => {
                let ghost ids = contents(found@);
                let mut k: usize = 0;
                while k < found.len()
                    invariant
                        k <= found.len(),
                        ids == contents(found@),
                        texts(rows@) == start + all_identity_rows(ids.take(k as int)),
                    decreases found.len() - k,
                {
                    let identity = &found[k];
                    proof {
                        assert(ids.take(k + 1).drop_last() =~= ids.take(k as int));
                        assert(ids.take(k + 1).last() == identity@);
                        reveal_strlit("");
                    }
                    let mut row = "  ".to_owned();
                    row.append(text_member(identity, "name", ""));
                    row.append(" <");
                    row.append(text_member(identity, "email", ""));
                    row.append(">");
                    push_row(&mut rows, row);
                    assert(texts(rows@) =~= start + all_identity_rows(ids.take(k + 1)));
                    k += 1;
                }
                assert(ids.take(found.len() as int) =~= ids);
            },
            None => {},
        }
        push_row(&mut rows, String::new());
        assert(texts(rows@) =~= before + account_rows(account@));
        i += 1;
    }
    assert(all.take(items.len() as int) =~= all);
    rows
}

/// The name under which a contact is shown: first and last name as far as
/// it has them, or else its display name.
pub open spec fn contact_name(contact: JsonValue) -> Seq<char> {
    let first = text_of(contact, "firstName"@, Seq::empty());
    let last = text_of(contact, "lastName"@, Seq::empty());
    if first.len() > 0 && last.len() > 0 {
        first + " "@ + last
    } else if first.len() > 0 {
        first
    } else if last.len() > 0 {
        last
    } else {
        text_of(contact, "displayName"@, Seq::empty())
    }
}

/// The row of one contact: its name and its address, which is the member
/// `email` or else the member `primaryEmail`.
pub open spec fn contact_row(contact: JsonValue) -> Seq<char> {
    contact_name(contact) + "  <"@ + text_or_empty(
        either_member(contact, "email"@, "primaryEmail"@),
    ) + ">"@
}

/// The rows of all of `items`, in order.
pub open spec fn all_contact_rows(items: Seq<JsonValue>) -> Seq<Seq<char>>
    decreases items.len(),
{
    if items.len() == 0 {
        Seq::empty()
    } else {
        all_contact_rows(items.drop_last()).push(contact_row(items.last()))
    }
}

/// The rows that show a list of contacts: a row for each and, after an
/// empty line, their number; or one row that says that there are none where
/// `contacts` is no array or an empty one.
pub open spec fn contacts_report(contacts: JsonValue) -> Seq<Seq<char>> {
    match contacts {
        JsonValue::Array(items) => if items.len() > 0 {
            all_contact_rows(items).push("\n"@ + decimal_text(items.len()) + " contact(s)"@)
        } else {
            seq!["No contacts found."@]
        },
        _ => seq!["No contacts found."@],
    }
}

/// The rows that show a list of contacts.
pub fn print_contacts(contacts: &Json) -> (rows: Vec<String>)
    ensures
        texts(rows@) == contacts_report(contacts@),
{
    let mut rows: Vec<String> = Vec::new();
    assert(texts(rows@) =~= Seq::<Seq<char>>::empty());
    let items = match contacts.as_array() {
        Some(items) => items,
        None => {
            push_row(&mut rows, "No contacts found.".to_owned());
            return rows;
        },
    };
    if items.len() == 0 {
        push_row(&mut rows, "No contacts found.".to_owned());
        return rows;
    }
    let ghost all = contents(items@);
    let mut i: usize = 0;
    while i < items.len()
        invariant
            i <= items.len(),
            all == contents(items@),
            texts(rows@) == all_contact_rows(all.take(i as int)),
        decreases items.len() - i,
    {
        let contact = &items[i];
        proof {
            assert(all.take(i + 1).drop_last() =~= all.take(i as int));
            assert(all.take(i + 1).last() == contact@);
            reveal_strlit("");
        }
        let first = text_member(contact, "firstName", "");
        let last = text_member(contact, "lastName", "");
        let mut row = String::new();
        if !first.is_empty() && !last.is_empty() {
            row.append(first);
            row.append(" ");
            row.append(last);
        } else if !first.is_empty() {
            row.append(first);
        } else if !last.is_empty() {
            row.append(last);
        } else {
            row.append(text_member(contact, "displayName", ""));
        }
        assert(row@ =~= contact_name(contact@));
        row.append("  <");
        row.append(text_or_nothing(either(contact, "email", "primaryEmail")));
        row.append(">");
        push_row(&mut rows, row);
        i += 1;
    }
    assert(all.take(items.len() as int) =~= all);
    let mut last = "\n".to_owned();
    last.append(decimal(items.len() as u64).as_str());
    last.append(" contact(s)");
    push_row(&mut rows, last);
    rows
}

/// The rows of one calendar: its name with its type, and its colour where
/// it has one.
pub open spec fn calendar_rows(calendar: JsonValue) -> Seq<Seq<char>> {
    seq![
        text_of(calendar, "name"@, Seq::empty()) + " ("@ + text_of(
            calendar,
            "type"@,
            "unknown"@,
        ) + ")"@,
    ] + (match calendar.member_text("color"@) {
        Some(color) => seq!["  color: "@ + color],
        None => Seq::empty(),
    })
}

/// The rows of all of `items`, in order.
pub open spec fn all_calendar_rows(items: Seq<JsonValue>) -> Seq<Seq<char>>
    decreases items.len(),
{
    if items.len() == 0 {
        Seq::empty()
    } else {
        all_calendar_rows(items.drop_last()) + calendar_rows(items.last())
    }
}

/// The rows that show a list of calendars, or one row that says that there
/// are none where `calendars` is no array or an empty one.
pub open spec fn calendars_report(calendars: JsonValue) -> Seq<Seq<char>> {
    match calendars {
        JsonValue::Array(items) => if items.len() > 0 {
            all_calendar_rows(items)
        } else {
            seq!["No calendars found."@]
        },
        _ => seq!["No calendars found."@],
    }
}

/// The rows that show a list of calendars.
pub fn print_calendars(calendars: &Json) -> (rows: Vec<String>)
    ensures
        texts(rows@) == calendars_report(calendars@),
{
    let mut rows: Vec<String> = Vec::new();
    assert(texts(rows@) =~= Seq::<Seq<char>>::empty());
    let items = match calendars.as_array() {
        Some(items) => items,
        None => {
            push_row(&mut rows, "No calendars found.".to_owned());
            return rows;
        },
    };
    if items.len() == 0 {
        push_row(&mut rows, "No calendars found.".to_owned());
        return rows;
    }
    let ghost all = contents(items@);
    let mut i: usize = 0;
    while i < items.len()
        invariant
            i <= items.len(),
            all == contents(items@),
            texts(rows@) == all_calendar_rows(all.take(i as int)),
        decreases items.len() - i,
    {
        let calendar = &items[i];
        proof {
            assert(all.take(i + 1).drop_last() =~= all.take(i as int));
            assert(all.take(i + 1).last() == calendar@);
            reveal_strlit("");
        }
        let ghost before = texts(rows@);
        let mut heading = text_member(calendar, "name", "").to_owned();
        heading.append(" (");
        heading.append(text_member(calendar, "type", "unknown"));
        heading.append(")");
        push_row(&mut rows, heading);
        match calendar.get_str("color") {
            Some(color) => {
                let mut row = "  color: ".to_owned();
                row.append(color);
                push_row(&mut rows, row);
            },
            None => {},
        }
        assert(texts(rows@) =~= before + calendar_rows(calendar@));
        i += 1;
    }
    assert(all.take(items.len() as int) =~= all);
    rows
}

} // verus!
