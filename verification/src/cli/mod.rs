use vstd::prelude::*;

pub mod commands;
pub mod format;

verus! {

/// One invocation of the command-line client.
pub struct Cli {
    pub command: Command,
}

/// The operations that the client offers.
#[allow(inconsistent_fields)]
pub enum Command {
    /// List email accounts and identities.
    Accounts,
    /// Search messages by subject, sender, or recipient.
    Search {
        /// Search query.
        query: String,
        /// Filter by start date (ISO 8601).
        start_date: Option<String>,
        /// Filter by end date (ISO 8601).
        end_date: Option<String>,
        /// Largest number of results.
        max: Option<usize>,
        /// Sort order, `asc` or `desc`.
        sort: Option<String>,
    },
    /// Read a full email message.
    Get {
        /// Message ID (RFC 2822 Message-ID header).
        message_id: String,
        /// Folder path.
        folder_path: String,
        /// Save attachments to temporary files.
        save_attachments: bool,
    },
    /// List all mail folders.
    Folders {
        /// Restrict the list to one account.
        account: Option<String>,
    },
    /// Update message state: read or unread, flagged or not, move, trash.
    Update {
        /// Message ID (RFC 2822 Message-ID header).
        message_id: String,
        /// Folder path.
        folder_path: String,
        /// Mark as read.
        read: bool,
        /// Mark as unread.
        unread: bool,
        /// Mark as flagged.
        flag: bool,
        /// Remove the flag.
        unflag: bool,
        /// Move to this folder URI.
        move_to: Option<String>,
        /// Move to trash.
        trash: bool,
    },
    /// Open a compose window with pre-filled content.
    Send {
        /// Recipient.
        to: String,
        /// Subject line.
        subject: Option<String>,
        /// Message body.
        body: Option<String>,
        /// CC recipients.
        cc: Option<String>,
        /// BCC recipients.
        bcc: Option<String>,
        /// Sender identity.
        from: Option<String>,
        /// The body is HTML.
        html: bool,
    },
    /// Reply to a message.
    Reply {
        /// Message ID (RFC 2822 Message-ID header).
        message_id: String,
        /// Folder path.
        folder_path: String,
        /// Reply body.
        body: String,
        /// Reply to all recipients.
        reply_all: bool,
        /// The body is HTML.
        html: bool,
        /// Override the recipient.
        to: Option<String>,
        /// CC recipients.
        cc: Option<String>,
        /// Sender identity.
        from: Option<String>,
    },
    /// Forward a message.
    Forward {
        /// Message ID (RFC 2822 Message-ID header).
        message_id: String,
        /// Folder path.
        folder_path: String,
        /// Recipient.
        to: String,
        /// Additional body text.
        body: Option<String>,
        /// The body is HTML.
        html: bool,
        /// CC recipients.
        cc: Option<String>,
        /// Sender identity.
        from: Option<String>,
    },
    /// Search contacts.
    Contacts {
        /// Search query.
        query: String,
    },
    /// List calendars.
    Calendars,
}

} // verus!
