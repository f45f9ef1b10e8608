use thunderbird_api::cli::format::{
    attachment_sizes, print_accounts, print_calendars, print_contacts, print_folders,
    print_message, print_messages,
};
use thunderbird_api::json::{Json, JsonNumber, Member};

fn object(members: Vec<(&str, Json)>) -> Json {
    Json::Object(
        members
            .into_iter()
            .map(|(name, value)| Member { name: name.to_string(), value })
            .collect(),
    )
}

fn text(s: &str) -> Json {
    Json::String(s.to_string())
}

fn number(i: i128) -> Json {
    Json::Number(JsonNumber::Integer(i))
}

fn rows(lines: &[&str]) -> Vec<String> {
    lines.iter().map(|line| line.to_string()).collect()
}

#[test]
fn messages_without_entries() {
    assert_eq!(print_messages(&Json::Array(vec![])), rows(&["No messages found."]));
    assert_eq!(print_messages(&Json::Null), rows(&["No messages found."]));
    assert_eq!(print_messages(&object(vec![])), rows(&["No messages found."]));
}

#[test]
fn messages_show_four_rows_each_and_the_count() {
    let list = Json::Array(vec![
        object(vec![
            ("author", text("Ann <ann@example.org>")),
            ("date", text("2026-02-19T14:30:00Z")),
            ("subject", text("Invoice")),
            ("id", text("<1@example.org>")),
            ("folderPath", text("/Inbox")),
            ("read", Json::Bool(false)),
            ("flagged", Json::Bool(true)),
        ]),
        object(vec![("from", text("Bob")), ("read", Json::Bool(true))]),
    ]);
    assert_eq!(
        print_messages(&list),
        rows(&[
            "19 Feb 2026 14:30  Ann <ann@example.org>",
            "  Invoice [UNREAD FLAGGED]",
            "  id: <1@example.org>  folder: /Inbox",
            "",
            "  Bob",
            "  (no subject)",
            "  id:   folder: ",
            "",
            "2 message(s)",
        ])
    );
}

#[test]
fn message_author_is_cut_to_thirty_characters() {
    let list = Json::Array(vec![object(vec![(
        "author",
        text("A Very Long Sender Name <long.sender@example.org>"),
    )])]);
    assert_eq!(print_messages(&list)[0], "  A Very Long Sender Name <lo...");
}

#[test]
fn message_author_that_is_no_string_hides_the_sender() {
    let list = Json::Array(vec![object(vec![("author", number(1)), ("from", text("Bob"))])]);
    assert_eq!(print_messages(&list)[0], "  ");
}

#[test]
fn message_marks() {
    let unread = Json::Array(vec![object(vec![("read", Json::Bool(false))])]);
    assert_eq!(print_messages(&unread)[1], "  (no subject) [UNREAD]");
    let flagged = Json::Array(vec![object(vec![("flagged", Json::Bool(true))])]);
    assert_eq!(print_messages(&flagged)[1], "  (no subject) [FLAGGED]");
    let neither = Json::Array(vec![object(vec![
        ("read", Json::Bool(true)),
        ("flagged", Json::Bool(false)),
    ])]);
    assert_eq!(print_messages(&neither)[1], "  (no subject)");
    let no_booleans = Json::Array(vec![object(vec![("read", number(0)), ("flagged", text("x"))])]);
    assert_eq!(print_messages(&no_booleans)[1], "  (no subject)");
}

#[test]
fn message_in_full() {
    let message = object(vec![
        ("subject", text("Report")),
        ("author", text("Ann")),
        ("recipients", text("Bob, Cy")),
        ("ccList", text("Dee")),
        ("date", text("2026-12-01T08:05:00Z")),
        ("id", text("<7@example.org>")),
        ("flagged", Json::Bool(true)),
        (
            "attachments",
            Json::Array(vec![
                object(vec![
                    ("name", text("a.pdf")),
                    ("size", number(2048)),
                    ("filePath", text("/tmp/a.pdf")),
                ]),
                object(vec![("size", text("big")), ("error", text("too large"))]),
                object(vec![("name", text("c.txt")), ("size", number(10))]),
            ]),
        ),
        ("body", text("Hello,\nsee attached.")),
    ]);
    let sizes = vec![" (2.0KB)".to_string(), " (never shown)".to_string(), " (0.0KB)".to_string()];
    assert_eq!(
        print_message(&message, &sizes),
        Ok(rows(&[
            "Subject: Report [FLAGGED]",
            "From:    Ann",
            "To:      Bob, Cy",
            "CC:      Dee",
            "Date:    01 Dec 2026 08:05",
            "ID:      <7@example.org>",
            "\nAttachments (3):",
            "  a.pdf (2.0KB) -> /tmp/a.pdf",
            "  unknown [too large]",
            "  c.txt (0.0KB)",
            "\nHello,\nsee attached.",
        ]))
    );
}

#[test]
fn message_with_nothing_in_it() {
    assert_eq!(
        print_message(&object(vec![]), &vec![]),
        Ok(rows(&[
            "Subject: (no subject)",
            "From:    ",
            "To:      ",
            "Date:    ",
            "ID:      ",
            "\n(empty body)",
        ]))
    );
    assert_eq!(
        print_message(&object(vec![("attachments", Json::Array(vec![]))]), &vec![]).unwrap().len(),
        6
    );
}

#[test]
fn message_with_fewer_size_texts_than_attachments() {
    let message = object(vec![(
        "attachments",
        Json::Array(vec![
            object(vec![("name", text("a")), ("size", number(1))]),
            object(vec![("name", text("b")), ("size", number(2))]),
        ]),
    )]);
    let printed = print_message(&message, &vec![" (x)".to_string()]).unwrap();
    assert_eq!(printed[5], "\nAttachments (2):");
    assert_eq!(printed[6], "  a (x)");
    assert_eq!(printed[7], "  b");
}

#[test]
fn message_that_reports_an_error() {
    let message = object(vec![("error", text("Message not found")), ("subject", text("x"))]);
    assert_eq!(print_message(&message, &vec![]), Err("Message not found".to_string()));
    let not_a_string = object(vec![("error", number(5))]);
    assert!(print_message(&not_a_string, &vec![]).is_ok());
}

#[test]
fn attachment_sizes_are_the_numbers() {
    let message = object(vec![(
        "attachments",
        Json::Array(vec![
            object(vec![("size", number(2048))]),
            object(vec![("size", text("big"))]),
            object(vec![]),
            object(vec![("size", Json::Number(JsonNumber::Real("1.5".to_string())))]),
            Json::Null,
        ]),
    )]);
    assert_eq!(
        attachment_sizes(&message),
        vec![
            Some(JsonNumber::Integer(2048)),
            None,
            None,
            Some(JsonNumber::Real("1.5".to_string())),
            None,
        ]
    );
    assert_eq!(attachment_sizes(&object(vec![])), vec![]);
    assert_eq!(attachment_sizes(&object(vec![("attachments", text("x"))])), vec![]);
}

#[test]
fn folders_without_entries() {
    assert_eq!(print_folders(&Json::Array(vec![])), rows(&["No folders found."]));
    assert_eq!(print_folders(&text("x")), rows(&["No folders found."]));
}

#[test]
fn folders_are_indented_by_depth() {
    let list = Json::Array(vec![
        object(vec![
            ("name", text("Inbox")),
            ("path", text("/Inbox")),
            ("totalMessages", number(120)),
            ("unreadMessages", number(3)),
            ("depth", number(0)),
        ]),
        object(vec![
            ("name", text("Bills")),
            ("path", text("/Inbox/Bills")),
            ("totalMessages", number(7)),
            ("unreadMessages", number(0)),
            ("depth", number(2)),
        ]),
        object(vec![("depth", number(-1)), ("totalMessages", text("many"))]),
    ]);
    assert_eq!(
        print_folders(&list),
        rows(&[
            "Inbox  [120 msgs (3 unread)]",
            "  /Inbox",
            "    Bills  [7 msgs]",
            "      /Inbox/Bills",
            "  [0 msgs]",
            "  ",
        ])
    );
}

#[test]
fn accounts_without_entries() {
    assert_eq!(print_accounts(&Json::Array(vec![])), rows(&["No accounts found."]));
    assert_eq!(print_accounts(&object(vec![("error", text("x"))])), rows(&["No accounts found."]));
}

#[test]
fn accounts_show_their_identities() {
    let list = Json::Array(vec![
        object(vec![
            ("name", text("Work")),
            ("key", text("account1")),
            ("type", text("imap")),
            (
                "identities",
                Json::Array(vec![
                    object(vec![("name", text("Ann")), ("email", text("ann@example.org"))]),
                    object(vec![("email", text("info@example.org"))]),
                ]),
            ),
        ]),
        object(vec![("key", text("account2"))]),
        object(vec![("name", number(1)), ("key", text("account3")), ("identities", text("x"))]),
    ]);
    assert_eq!(
        print_accounts(&list),
        rows(&[
            "Work (imap)",
            "  Ann <ann@example.org>",
            "   <info@example.org>",
            "",
            "account2 ()",
            "",
            " ()",
            "",
        ])
    );
}

#[test]
fn contacts_without_entries() {
    assert_eq!(print_contacts(&Json::Array(vec![])), rows(&["No contacts found."]));
    assert_eq!(print_contacts(&Json::Null), rows(&["No contacts found."]));
}

#[test]
fn contacts_show_name_and_address() {
    let list = Json::Array(vec![
        object(vec![
            ("firstName", text("Ann")),
            ("lastName", text("Lee")),
            ("displayName", text("Annie")),
            ("email", text("ann@example.org")),
        ]),
        object(vec![("firstName", text("Bob")), ("primaryEmail", text("bob@example.org"))]),
        object(vec![("lastName", text("Cole")), ("displayName", text("C."))]),
        object(vec![("displayName", text("Dee")), ("firstName", text(""))]),
        object(vec![("email", number(1)), ("primaryEmail", text("e@example.org"))]),
    ]);
    assert_eq!(
        print_contacts(&list),
        rows(&[
            "Ann Lee  <ann@example.org>",
            "Bob  <bob@example.org>",
            "Cole  <>",
            "Dee  <>",
            "  <>",
            "\n5 contact(s)",
        ])
    );
}

#[test]
fn calendars_without_entries() {
    assert_eq!(print_calendars(&Json::Array(vec![])), rows(&["No calendars found."]));
    assert_eq!(print_calendars(&number(1)), rows(&["No calendars found."]));
}

#[test]
fn calendars_show_type_and_colour() {
    let list = Json::Array(vec![
        object(vec![("name", text("Home")), ("type", text("storage")), ("color", text("#ff0000"))]),
        object(vec![("name", text("Work"))]),
        object(vec![("color", Json::Null)]),
    ]);
    assert_eq!(
        print_calendars(&list),
        rows(&["Home (storage)", "  color: #ff0000", "Work (unknown)", " (unknown)"])
    );
}
