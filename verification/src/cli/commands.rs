use crate::cli::format::{
    accounts_report, calendars_report, contacts_report, folders_report, message_report,
    messages_report, print_accounts, print_calendars, print_contacts, print_folders,
    print_message, print_messages, text_of,
};
use crate::cli::Command;
use crate::json::{
    contents, member_contents, Json, JsonNumber, JsonValue, Member, MemberValue, NumberValue,
};
use crate::text::texts;
use vstd::prelude::*;
use vstd::string::*;

verus! {

/// A tool of the peer and the arguments to call it with.
#[derive(Debug, PartialEq, Eq)]
pub struct ToolCall {
    pub name: String,
    pub arguments: Json,
}

/// The member `name` with the string `value`.
pub open spec fn text_entry(name: Seq<char>, value: Seq<char>) -> MemberValue {
    MemberValue { name, value: JsonValue::String(value) }
}

/// The member `name` with the boolean `value`.
pub open spec fn flag_entry(name: Seq<char>, value: bool) -> MemberValue {
    MemberValue { name, value: JsonValue::Bool(value) }
}

/// The member `name` with the string `value`, where there is one.
pub open spec fn optional_entry(name: Seq<char>, value: Option<String>) -> Seq<MemberValue> {
    match value {
        Some(text) => seq![text_entry(name, text@)],
        None => Seq::empty(),
    }
}

/// The text of `value`, or nothing where there is none.
pub open spec fn text_or_default(value: Option<String>) -> Seq<char> {
    match value {
        Some(text) => text@,
        None => Seq::empty(),
    }
}

/// The tool that carries out `command`.
pub open spec fn tool_name(command: Command) -> Seq<char> {
    match command {
        Command::Accounts => "listAccounts"@,
        Command::Search { .. } => "searchMessages"@,
        Command::Get { .. } => "getMessage"@,
        Command::Folders { .. } => "listFolders"@,
        Command::Update { .. } => "updateMessage"@,
        Command::Send { .. } => "sendMail"@,
        Command::Reply { .. } => "replyToMessage"@,
        Command::Forward { .. } => "forwardMessage"@,
        Command::Contacts { .. } => "searchContacts"@,
        Command::Calendars => "listCalendars"@,
    }
}

/// The members of the arguments that `command` hands to its tool. Options
/// that were not given leave no member. In an update, `unread` wins over
/// `read` and `unflag` over `flag`.
pub open spec fn tool_arguments(command: Command) -> Seq<MemberValue> {
    match command {
        Command::Accounts => Seq::empty(),
        Command::Search { query, start_date, end_date, max, sort } => seq![
            text_entry("query"@, query@),
        ] + optional_entry("startDate"@, start_date) + optional_entry("endDate"@, end_date) + (
        match max {
            Some(limit) => seq![
                MemberValue {
                    name: "maxResults"@,
                    value: JsonValue::Number(NumberValue::Integer(limit as int)),
                },
            ],
            None => Seq::empty(),
        }) + optional_entry("sortOrder"@, sort),
        Command::Get { message_id, folder_path, save_attachments } => seq![
            text_entry("messageId"@, message_id@),
            text_entry("folderPath"@, folder_path@),
            flag_entry("saveAttachments"@, save_attachments),
        ],
        Command::Folders { account } => optional_entry("accountId"@, account),
        Command::Update {
            message_id,
            folder_path,
            read,
            unread,
            flag,
            unflag,
            move_to,
            trash,
        } => seq![text_entry("messageId"@, message_id@), text_entry("folderPath"@, folder_path@)]
            + (if unread {
            seq![flag_entry("read"@, false)]
        } else if read {
            seq![flag_entry("read"@, true)]
        } else {
            Seq::empty()
        }) + (if unflag {
            seq![flag_entry("flagged"@, false)]
        } else if flag {
            seq![flag_entry("flagged"@, true)]
        } else {
            Seq::empty()
        }) + optional_entry("moveTo"@, move_to) + (if trash {
            seq![flag_entry("trash"@, true)]
        } else {
            Seq::empty()
        }),
        Command::Send { to, subject, body, cc, bcc, from, html } => seq![
            text_entry("to"@, to@),
            text_entry("subject"@, text_or_default(subject)),
            text_entry("body"@, text_or_default(body)),
            flag_entry("isHtml"@, html),
        ] + optional_entry("cc"@, cc) + optional_entry("bcc"@, bcc) + optional_entry("from"@, from),
        Command::Reply { message_id, folder_path, body, reply_all, html, to, cc, from } => seq![
            text_entry("messageId"@, message_id@),
            text_entry("folderPath"@, folder_path@),
            text_entry("body"@, body@),
            flag_entry("replyAll"@, reply_all),
            flag_entry("isHtml"@, html),
        ] + optional_entry("to"@, to) + optional_entry("cc"@, cc) + optional_entry("from"@, from),
        Command::Forward { message_id, folder_path, to, body, html, cc, from } => seq![
            text_entry("messageId"@, message_id@),
            text_entry("folderPath"@, folder_path@),
            text_entry("to"@, to@),
            flag_entry("isHtml"@, html),
        ] + optional_entry("body"@, body) + optional_entry("cc"@, cc) + optional_entry(
            "from"@,
            from,
        ),
        Command::Contacts { query } => seq![text_entry("query"@, query@)],
        Command::Calendars => Seq::empty(),
    }
}

/// Appends the member `name` with the string `value`.
fn push_text(members: &mut Vec<Member>, name: &str, value: &str)
    ensures
        member_contents(final(members)@) == member_contents(old(members)@).push(
            text_entry(name@, value@),
        ),
{
    members.push(Member { name: name.to_owned(), value: Json::string(value) });
    assert(member_contents(members@) =~= member_contents(old(members)@).push(
        text_entry(name@, value@),
    ));
}

/// Appends the member `name` with the boolean `value`.
fn push_flag(members: &mut Vec<Member>, name: &str, value: bool)
    ensures
        member_contents(final(members)@) == member_contents(old(members)@).push(
            flag_entry(name@, value),
        ),
{
    members.push(Member { name: name.to_owned(), value: Json::Bool(value) });
    assert(member_contents(members@) =~= member_contents(old(members)@).push(
        flag_entry(name@, value),
    ));
}

/// Appends the member `name` with the string `value`, where there is one.
fn push_optional(members: &mut Vec<Member>, name: &str, value: &Option<String>)
    ensures
        member_contents(final(members)@) == member_contents(old(members)@) + optional_entry(
            name@,
            *value,
        ),
{
    match value {
        Some(text) => {
            push_text(members, name, text.as_str());
            assert(member_contents(members@) =~= member_contents(old(members)@) + optional_entry(
                name@,
                *value,
            ));
        },
        None => {
            assert(member_contents(members@) =~= member_contents(old(members)@) + optional_entry(
                name@,
                *value,
            ));
        },
    }
}

/// The text of `value`, or the empty text where there is none.
fn text_or_nothing(value: &Option<String>) -> (r: &str)
    ensures
        r@ == text_or_default(*value),
{
    proof {
        reveal_strlit("");
    }
    match value {
        Some(text) => text.as_str(),
        None => "",
    }
}

/// The tool that carries out `command`, and its arguments.
pub fn tool_call(command: &Command) -> (r: ToolCall)
    ensures
        r.name@ == tool_name(*command),
        r.arguments@ == JsonValue::Object(tool_arguments(*command)),
{
    let mut members: Vec<Member> = Vec::new();
    assert(member_contents(members@) =~= Seq::<MemberValue>::empty());
    let name = match command {
        Command::Accounts => "listAccounts",
        Command::Search { query, start_date, end_date, max, sort } => {
            push_text(&mut members, "query", query.as_str());
            push_optional(&mut members, "startDate", start_date);
            push_optional(&mut members, "endDate", end_date);
            match max {
                Some(limit) => {
                    let ghost before = member_contents(members@);
                    members.push(
                        Member {
                            name: "maxResults".to_owned(),
                            value: Json::Number(JsonNumber::Integer(*limit as i128)),
                        },
                    );
                    assert(member_contents(members@) =~= before.push(
                        MemberValue {
                            name: "maxResults"@,
                            value: JsonValue::Number(NumberValue::Integer(*limit as int)),
                        },
                    ));
                },
                None => {},
            }
            push_optional(&mut members, "sortOrder", sort);
            "searchMessages"
        },
        Command::Get { message_id, folder_path, save_attachments } => {
            push_text(&mut members, "messageId", message_id.as_str());
            push_text(&mut members, "folderPath", folder_path.as_str());
            push_flag(&mut members, "saveAttachments", *save_attachments);
            "getMessage"
        },
        Command::Folders { account } => {
            push_optional(&mut members, "accountId", account);
            "listFolders"
        },
        Command::Update {
            message_id,
            folder_path,
            read,
            unread,
            flag,
            unflag,
            move_to,
            trash,
        } => {
            push_text(&mut members, "messageId", message_id.as_str());
            push_text(&mut members, "folderPath", folder_path.as_str());
            if *unread {
                push_flag(&mut members, "read", false);
            } else if *read {
                push_flag(&mut members, "read", true);
            }
            if *unflag {
                push_flag(&mut members, "flagged", false);
            } else if *flag {
                push_flag(&mut members, "flagged", true);
            }
            push_optional(&mut members, "moveTo", move_to);
            if *trash {
                push_flag(&mut members, "trash", true);
            }
            "updateMessage"
        },
        Command::Send { to, subject, body, cc, bcc, from, html } => {
            push_text(&mut members, "to", to.as_str());
            push_text(&mut members, "subject", text_or_nothing(subject));
            push_text(&mut members, "body", text_or_nothing(body));
            push_flag(&mut members, "isHtml", *html);
            push_optional(&mut members, "cc", cc);
            push_optional(&mut members, "bcc", bcc);
            push_optional(&mut members, "from", from);
            "sendMail"
        },
        Command::Reply { message_id, folder_path, body, reply_all, html, to, cc, from } => {
            push_text(&mut members, "messageId", message_id.as_str());
            push_text(&mut members, "folderPath", folder_path.as_str());
            push_text(&mut members, "body", body.as_str());
            push_flag(&mut members, "replyAll", *reply_all);
            push_flag(&mut members, "isHtml", *html);
            push_optional(&mut members, "to", to);
            push_optional(&mut members, "cc", cc);
            push_optional(&mut members, "from", from);
            "replyToMessage"
        },
        Command::Forward { message_id, folder_path, to, body, html, cc, from } => {
            push_text(&mut members, "messageId", message_id.as_str());
            push_text(&mut members, "folderPath", folder_path.as_str());
            push_text(&mut members, "to", to.as_str());
            push_flag(&mut members, "isHtml", *html);
            push_optional(&mut members, "body", body);
            push_optional(&mut members, "cc", cc);
            push_optional(&mut members, "from", from);
            "forwardMessage"
        },
        Command::Contacts { query } => {
            push_text(&mut members, "query", query.as_str());
            "searchContacts"
        },
        Command::Calendars => "listCalendars",
    };
    assert(member_contents(members@) =~= tool_arguments(*command));
    ToolCall { name: name.to_owned(), arguments: Json::object(members) }
}

/// The error that the tool reports in its answer: the string member
/// `error`.
pub open spec fn reported_error(result: JsonValue) -> Option<Seq<char>> {
    result.member_text("error"@)
}

/// Fails with the error that the tool reports in its answer, if any.
pub fn check_error(result: &Json) -> (r: Result<(), String>)
    ensures
        match r {
            Ok(_) => reported_error(result@) is None,
            Err(error) => reported_error(result@) == Some(error@),
        },
{
    match result.get_str("error") {
        Some(error) => Err(error.to_owned()),
        None => Ok(()),
    }
}

/// The strings among `values`, in order.
pub open spec fn strings_in(values: Seq<JsonValue>) -> Seq<Seq<char>>
    decreases values.len(),
{
    if values.len() == 0 {
        Seq::empty()
    } else {
        match values.last() {
            JsonValue::String(text) => strings_in(values.drop_last()).push(text),
            _ => strings_in(values.drop_last()),
        }
    }
}

/// `parts` with `separator` between each two.
pub open spec fn joined(parts: Seq<Seq<char>>, separator: Seq<char>) -> Seq<char>
    decreases parts.len(),
{
    if parts.len() == 0 {
        Seq::empty()
    } else if parts.len() == 1 {
        parts[0]
    } else {
        joined(parts.drop_last(), separator) + separator + parts.last()
    }
}

/// The rows that confirm an update: one row that lists the actions taken,
/// where the answer holds an array member `actions`.
pub open spec fn update_report(result: JsonValue) -> Seq<Seq<char>> {
    match result.member("actions"@) {
        Some(JsonValue::Array(actions)) => seq!["Done: "@ + joined(strings_in(actions), ", "@)],
        _ => Seq::empty(),
    }
}

/// The rows that show the answer `result` of the tool of `command`, or the
/// error that the tool reports in its answer. A list of accounts is shown
/// whatever it holds. The size of the attachment at place `i` of a message
/// is shown as the text at place `i` of `size_texts`.
pub open spec fn report_of(command: Command, result: JsonValue, size_texts: Seq<Seq<char>>)
    -> Result<Seq<Seq<char>>, Seq<char>> {
    match command {
        Command::Accounts => Ok(accounts_report(result)),
        Command::Get { .. } => message_report(result, size_texts),
        _ => match reported_error(result) {
            Some(error) => Err(error),
            None => Ok(
                match command {
                    Command::Search { .. } => messages_report(result),
                    Command::Folders { .. } => folders_report(result),
                    Command::Update { .. } => update_report(result),
                    Command::Send { .. } => seq![
                        text_of(result, "message"@, "Compose window opened."@),
                    ],
                    Command::Reply { .. } => seq![
                        text_of(result, "message"@, "Reply compose window opened."@),
                    ],
                    Command::Forward { .. } => seq![
                        text_of(result, "message"@, "Forward compose window opened."@),
                    ],
                    Command::Contacts { .. } => contacts_report(result),
                    _ => calendars_report(result),
                },
            ),
        },
    }
}

/// The rows that confirm an update.
fn print_update(result: &Json) -> (rows: Vec<String>)
    ensures
        texts(rows@) == update_report(result@),
{
    let mut rows: Vec<String> = Vec::new();
    assert(texts(rows@) =~= Seq::<Seq<char>>::empty());
    let actions = match result.get("actions") {
        Some(member) => match member.as_array() {
            Some(actions) => actions,
            None => {
                return rows;
            },
        },
        None => {
            return rows;
        },
    };
    let ghost all = contents(actions@);
    let mut list = String::new();
    let mut any = false;
    let mut i: usize = 0;
    while i < actions.len()
        invariant
            i <= actions.len(),
            all == contents(actions@),
            list@ == joined(strings_in(all.take(i as int)), ", "@),
            any == (strings_in(all.take(i as int)).len() > 0),
        decreases actions.len() - i,
    {
        proof {
            assert(all.take(i + 1).drop_last() =~= all.take(i as int));
            assert(all.take(i + 1).last() == actions@[i as int]@);
        }
        match actions[i].as_str() {
            Some(action) => {
                let ghost before = strings_in(all.take(i as int));
                if any {
                    list.append(", ");
                }
                list.append(action);
                proof {
                    assert(before.push(action@).drop_last() =~= before);
                }
                any = true;
            },
            None => {},
        }
        i += 1;
    }
    assert(all.take(actions.len() as int) =~= all);
    let mut row = "Done: ".to_owned();
    row.append(list.as_str());
    rows.push(row);
    assert(texts(rows@) =~= update_report(result@));
    rows
}

/// One row: the string member `message` of `result`, or `fallback`.
fn print_notice(result: &Json, fallback: &str) -> (rows: Vec<String>)
    ensures
        texts(rows@) == seq![text_of(result@, "message"@, fallback@)],
{
    let text = match result.get_str("message") {
        Some(text) => text,
        None => fallback,
    };
    let mut rows: Vec<String> = Vec::new();
    rows.push(text.to_owned());
    assert(texts(rows@) =~= seq![text_of(result@, "message"@, fallback@)]);
    rows
}

/// The rows that show the answer `result` of the tool of `command`, or the
/// error that the tool reports in its answer.
pub fn report(command: &Command, result: &Json, size_texts: &Vec<String>) -> (r: Result<
    Vec<String>,
    String,
>)
    ensures
        match r {
            Ok(rows) => report_of(*command, result@, texts(size_texts@)) == Ok::<_, Seq<char>>(
                texts(rows@),
            ),
            Err(error) => report_of(*command, result@, texts(size_texts@)) == Err::<
                Seq<Seq<char>>,
                _,
            >(error@),
        },
{
    match command {
        Command::Accounts => {
            return Ok(print_accounts(result));
        },
        Command::Get { .. } => {
            return print_message(result, size_texts);
        },
        _ => {},
    }
    match check_error(result) {
        Err(error) => {
            return Err(error);
        },
        Ok(_) => {},
    }
    match command {
        Command::Search { .. } => Ok(print_messages(result)),
        Command::Folders { .. } => Ok(print_folders(result)),
        Command::Update { .. } => Ok(print_update(result)),
        Command::Send { .. } => Ok(print_notice(result, "Compose window opened.")),
        Command::Reply { .. } => Ok(print_notice(result, "Reply compose window opened.")),
        Command::Forward { .. } => Ok(print_notice(result, "Forward compose window opened.")),
        Command::Contacts { .. } => Ok(print_contacts(result)),
        _ => Ok(print_calendars(result)),
    }
}

} // verus!
