use thunderbird_api::cli::commands::{check_error, report, tool_call, ToolCall};
use thunderbird_api::cli::Command;
use thunderbird_api::json::{Json, JsonNumber, Member};

fn object(members: Vec<(&str, Json)>) -> Json {
    Json::Object(
        members
            .into_iter()
            .map(|(name, value)| Member { name: name.to_string(), value })
            .collect(),
    )
}

fn text(s: &str) -> Json {
    Json::String(s.to_string())
}

fn some(s: &str) -> Option<String> {
    Some(s.to_string())
}

fn call(name: &str, members: Vec<(&str, Json)>) -> ToolCall {
    ToolCall { name: name.to_string(), arguments: object(members) }
}

fn rows(lines: &[&str]) -> Vec<String> {
    lines.iter().map(|line| line.to_string()).collect()
}

fn update(read: bool, unread: bool, flag: bool, unflag: bool, trash: bool) -> Command {
    Command::Update {
        message_id: "<1@x>".to_string(),
        folder_path: "/Inbox".to_string(),
        read,
        unread,
        flag,
        unflag,
        move_to: None,
        trash,
    }
}

fn search() -> Command {
    Command::Search {
        query: "q".to_string(),
        start_date: None,
        end_date: None,
        max: None,
        sort: None,
    }
}

#[test]
fn commands_without_arguments() {
    assert_eq!(tool_call(&Command::Accounts), call("listAccounts", vec![]));
    assert_eq!(tool_call(&Command::Calendars), call("listCalendars", vec![]));
}

#[test]
fn search_hands_on_the_options_that_were_given() {
    assert_eq!(tool_call(&search()), call("searchMessages", vec![("query", text("q"))]));
    let full = Command::Search {
        query: "invoice".to_string(),
        start_date: some("2026-01-01"),
        end_date: some("2026-02-01"),
        max: Some(50),
        sort: some("asc"),
    };
    assert_eq!(
        tool_call(&full),
        call(
            "searchMessages",
            vec![
                ("query", text("invoice")),
                ("startDate", text("2026-01-01")),
                ("endDate", text("2026-02-01")),
                ("maxResults", Json::Number(JsonNumber::Integer(50))),
                ("sortOrder", text("asc")),
            ]
        )
    );
}

#[test]
fn get_names_the_message() {
    let command = Command::Get {
        message_id: "<1@x>".to_string(),
        folder_path: "/Inbox".to_string(),
        save_attachments: true,
    };
    assert_eq!(
        tool_call(&command),
        call(
            "getMessage",
            vec![
                ("messageId", text("<1@x>")),
                ("folderPath", text("/Inbox")),
                ("saveAttachments", Json::Bool(true)),
            ]
        )
    );
}

#[test]
fn folders_may_name_an_account() {
    assert_eq!(tool_call(&Command::Folders { account: None }), call("listFolders", vec![]));
    assert_eq!(
        tool_call(&Command::Folders { account: some("account1") }),
        call("listFolders", vec![("accountId", text("account1"))])
    );
}

#[test]
fn update_hands_on_the_marks() {
    let base = vec![("messageId", text("<1@x>")), ("folderPath", text("/Inbox"))];
    assert_eq!(tool_call(&update(false, false, false, false, false)), call("updateMessage", base));
    assert_eq!(
        tool_call(&update(true, false, true, false, true)),
        call(
            "updateMessage",
            vec![
                ("messageId", text("<1@x>")),
                ("folderPath", text("/Inbox")),
                ("read", Json::Bool(true)),
                ("flagged", Json::Bool(true)),
                ("trash", Json::Bool(true)),
            ]
        )
    );
}

#[test]
fn update_lets_unread_and_unflag_win() {
    assert_eq!(
        tool_call(&update(true, true, true, true, false)),
        call(
            "updateMessage",
            vec![
                ("messageId", text("<1@x>")),
                ("folderPath", text("/Inbox")),
                ("read", Json::Bool(false)),
                ("flagged", Json::Bool(false)),
            ]
        )
    );
}

#[test]
fn update_may_move_the_message() {
    let command = Command::Update {
        message_id: "<1@x>".to_string(),
        folder_path: "/Inbox".to_string(),
        read: false,
        unread: true,
        flag: false,
        unflag: false,
        move_to: some("imap://x/Archive"),
        trash: false,
    };
    assert_eq!(
        tool_call(&command),
        call(
            "updateMessage",
            vec![
                ("messageId", text("<1@x>")),
                ("folderPath", text("/Inbox")),
                ("read", Json::Bool(false)),
                ("moveTo", text("imap://x/Archive")),
            ]
        )
    );
}

#[test]
fn send_fills_in_empty_subject_and_body() {
    let command = Command::Send {
        to: "bob@example.org".to_string(),
        subject: None,
        body: None,
        cc: None,
        bcc: None,
        from: None,
        html: false,
    };
    assert_eq!(
        tool_call(&command),
        call(
            "sendMail",
            vec![
                ("to", text("bob@example.org")),
                ("subject", text("")),
                ("body", text("")),
                ("isHtml", Json::Bool(false)),
            ]
        )
    );
    let full = Command::Send {
        to: "bob@example.org".to_string(),
        subject: some("Hi"),
        body: some("<p>Hello</p>"),
        cc: some("cy@example.org"),
        bcc: some("dee@example.org"),
        from: some("id1"),
        html: true,
    };
    assert_eq!(
        tool_call(&full),
        call(
            "sendMail",
            vec![
                ("to", text("bob@example.org")),
                ("subject", text("Hi")),
                ("body", text("<p>Hello</p>")),
                ("isHtml", Json::Bool(true)),
                ("cc", text("cy@example.org")),
                ("bcc", text("dee@example.org")),
                ("from", text("id1")),
            ]
        )
    );
}

#[test]
fn reply_names_the_message_and_the_body() {
    let command = Command::Reply {
        message_id: "<1@x>".to_string(),
        folder_path: "/Inbox".to_string(),
        body: "Thanks".to_string(),
        reply_all: true,
        html: false,
        to: some("bob@example.org"),
        cc: None,
        from: some("id1"),
    };
    assert_eq!(
        tool_call(&command),
        call(
            "replyToMessage",
            vec![
                ("messageId", text("<1@x>")),
                ("folderPath", text("/Inbox")),
                ("body", text("Thanks")),
                ("replyAll", Json::Bool(true)),
                ("isHtml", Json::Bool(false)),
                ("to", text("bob@example.org")),
                ("from", text("id1")),
            ]
        )
    );
}

#[test]
fn forward_names_the_message_and_the_recipient() {
    let command = Command::Forward {
        message_id: "<1@x>".to_string(),
        folder_path: "/Inbox".to_string(),
        to: "bob@example.org".to_string(),
        body: some("FYI"),
        html: true,
        cc: some("cy@example.org"),
        from: None,
    };
    assert_eq!(
        tool_call(&command),
        call(
            "forwardMessage",
            vec![
                ("messageId", text("<1@x>")),
                ("folderPath", text("/Inbox")),
                ("to", text("bob@example.org")),
                ("isHtml", Json::Bool(true)),
                ("body", text("FYI")),
                ("cc", text("cy@example.org")),
            ]
        )
    );
}

#[test]
fn contacts_hands_on_the_query() {
    assert_eq!(
        tool_call(&Command::Contacts { query: "ann".to_string() }),
        call("searchContacts", vec![("query", text("ann"))])
    );
}

#[test]
fn check_error_finds_the_error_string() {
    assert_eq!(check_error(&object(vec![("error", text("boom"))])), Err("boom".to_string()));
    assert_eq!(check_error(&object(vec![("error", Json::Bool(true))])), Ok(()));
    assert_eq!(check_error(&object(vec![("ok", text("boom"))])), Ok(()));
    assert_eq!(check_error(&Json::Array(vec![text("error")])), Ok(()));
}

#[test]
fn report_fails_with_the_error_of_the_tool() {
    let failed = object(vec![("error", text("boom"))]);
    let none = vec![];
    assert_eq!(report(&search(), &failed, &none), Err("boom".to_string()));
    assert_eq!(
        report(&Command::Folders { account: None }, &failed, &none),
        Err("boom".to_string())
    );
    assert_eq!(
        report(&update(true, false, false, false, false), &failed, &none),
        Err("boom".to_string())
    );
    assert_eq!(
        report(&Command::Contacts { query: "x".to_string() }, &failed, &none),
        Err("boom".to_string())
    );
    assert_eq!(report(&Command::Calendars, &failed, &none), Err("boom".to_string()));
    let get = Command::Get {
        message_id: "<1@x>".to_string(),
        folder_path: "/Inbox".to_string(),
        save_attachments: false,
    };
    assert_eq!(report(&get, &failed, &none), Err("boom".to_string()));
}

#[test]
fn report_shows_accounts_whatever_the_answer_holds() {
    let failed = object(vec![("error", text("boom"))]);
    assert_eq!(report(&Command::Accounts, &failed, &vec![]), Ok(rows(&["No accounts found."])));
}

#[test]
fn report_shows_the_lists() {
    let none = vec![];
    let empty = Json::Array(vec![]);
    assert_eq!(report(&search(), &empty, &none), Ok(rows(&["No messages found."])));
    assert_eq!(
        report(&Command::Folders { account: None }, &empty, &none),
        Ok(rows(&["No folders found."]))
    );
    assert_eq!(
        report(&Command::Contacts { query: "x".to_string() }, &empty, &none),
        Ok(rows(&["No contacts found."]))
    );
    assert_eq!(report(&Command::Calendars, &empty, &none), Ok(rows(&["No calendars found."])));
    let calendars = Json::Array(vec![object(vec![("name", text("Home"))])]);
    assert_eq!(report(&Command::Calendars, &calendars, &none), Ok(rows(&["Home (unknown)"])));
}

#[test]
fn report_shows_a_message_with_its_sizes() {
    let get = Command::Get {
        message_id: "<1@x>".to_string(),
        folder_path: "/Inbox".to_string(),
        save_attachments: false,
    };
    let message = object(vec![(
        "attachments",
        Json::Array(vec![object(vec![
            ("name", text("a")),
            ("size", Json::Number(JsonNumber::Integer(512))),
        ])]),
    )]);
    let printed = report(&get, &message, &vec![" (0.5KB)".to_string()]).unwrap();
    assert_eq!(printed[6], "  a (0.5KB)");
}

#[test]
fn report_lists_the_actions_of_an_update() {
    let command = update(true, false, false, false, false);
    let none = vec![];
    let answer = object(vec![(
        "actions",
        Json::Array(vec![text("marked read"), Json::Null, text("flagged"), text("moved")]),
    )]);
    assert_eq!(
        report(&command, &answer, &none),
        Ok(rows(&["Done: marked read, flagged, moved"]))
    );
    let one = object(vec![("actions", Json::Array(vec![text("trashed")]))]);
    assert_eq!(report(&command, &one, &none), Ok(rows(&["Done: trashed"])));
    let no_strings = object(vec![("actions", Json::Array(vec![Json::Null]))]);
    assert_eq!(report(&command, &no_strings, &none), Ok(rows(&["Done: "])));
    let no_actions = object(vec![("actions", text("x"))]);
    assert_eq!(report(&command, &no_actions, &none), Ok(rows(&[])));
    assert_eq!(report(&command, &object(vec![]), &none), Ok(rows(&[])));
}

#[test]
fn report_confirms_compose_windows() {
    let none = vec![];
    let send = Command::Send {
        to: "b".to_string(),
        subject: None,
        body: None,
        cc: None,
        bcc: None,
        from: None,
        html: false,
    };
    let reply = Command::Reply {
        message_id: "m".to_string(),
        folder_path: "f".to_string(),
        body: "b".to_string(),
        reply_all: false,
        html: false,
        to: None,
        cc: None,
        from: None,
    };
    let forward = Command::Forward {
        message_id: "m".to_string(),
        folder_path: "f".to_string(),
        to: "b".to_string(),
        body: None,
        html: false,
        cc: None,
        from: None,
    };
    let silent = object(vec![]);
    assert_eq!(report(&send, &silent, &none), Ok(rows(&["Compose window opened."])));
    assert_eq!(report(&reply, &silent, &none), Ok(rows(&["Reply compose window opened."])));
    assert_eq!(report(&forward, &silent, &none), Ok(rows(&["Forward compose window opened."])));
    let told = object(vec![("message", text("Opened in a new window"))]);
    assert_eq!(report(&send, &told, &none), Ok(rows(&["Opened in a new window"])));
    assert_eq!(report(&reply, &told, &none), Ok(rows(&["Opened in a new window"])));
    assert_eq!(report(&forward, &told, &none), Ok(rows(&["Opened in a new window"])));
    assert_eq!(report(&send, &text("Sent."), &none), Ok(rows(&["Compose window opened."])));
}
