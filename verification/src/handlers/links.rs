//! `/links` and message links: which messages a `/links` command transfers, and the
//! answers the bot gives for them.
use crate::decimal::{parse_in_range, parse_usize};
use crate::handlers::{command_words, command_words_of, concat3, word_is};
use crate::message_link::{format_message_link, get_message_link, message_anchor, message_link, ChatEntity};
use crate::text::{append_str, chars_of, string_from_chars};
use vstd::prelude::*;

verus! {

/// The command's name.
pub const PATTERN: &'static str = "/links";

/// What a `/links` command asks.
pub enum LinksCommand {
    /// `/links help`.
    Help,
    /// `/links $message_link $num`: the link of the first message and the number of
    /// messages, as written.
    Links(String, String),
    /// Anything else.
    Unknown,
}

/// A `/links` command as plain values.
pub enum LinksCommandView {
    Help,
    Links(Seq<char>, Seq<char>),
    Unknown,
}

impl View for LinksCommand {
    type V = LinksCommandView;

    open spec fn view(&self) -> LinksCommandView {
        match self {
            LinksCommand::Help => LinksCommandView::Help,
            LinksCommand::Links(h, n) => LinksCommandView::Links(h@, n@),
            LinksCommand::Unknown => LinksCommandView::Unknown,
        }
    }
}

/// What the words of a `/links` command ask.
pub open spec fn links_command_spec(w: Seq<Seq<char>>) -> LinksCommandView {
    if w.len() == 2 && w[1] == "help"@ {
        LinksCommandView::Help
    } else if w.len() == 3 {
        LinksCommandView::Links(w[1], w[2])
    } else {
        LinksCommandView::Unknown
    }
}

/// Reads a `/links` command from the text of its message.
pub fn links_command(text: &str) -> (r: LinksCommand)
    ensures
        r@ == links_command_spec(command_words(text@)),
{
    let cmd = command_words_of(text);
    if cmd.len() == 2 && word_is(&cmd, 1, "help") {
        LinksCommand::Help
    } else if cmd.len() == 3 {
        LinksCommand::Links(
            string_from_chars(chars_of(cmd[1].as_str())),
            string_from_chars(chars_of(cmd[2].as_str())),
        )
    } else {
        LinksCommand::Unknown
    }
}

/// Why a `/links` command fails.
#[derive(Clone, Copy, Debug, PartialEq, Eq, Structural)]
pub enum LinksError {
    /// The number of messages is not an integer.
    CountNotInteger,
}

impl LinksError {
    /// The text of the error.
    pub fn message(&self) -> (r: &'static str)
        ensures
            r@ == "failed to parse link number"@,
    {
        "failed to parse link number"
    }
}

/// The number of messages a `/links` command transfers, from its word.
pub fn link_count(word: &str) -> (r: Result<usize, LinksError>)
    ensures
        match parse_in_range(word@, false, 0, usize::MAX as int) {
            Some(n) => r == Ok::<usize, LinksError>(n as usize),
            None => r == Err::<usize, LinksError>(LinksError::CountNotInteger),
        },
{
    match parse_usize(&chars_of(word)) {
        Some(n) => Ok(n),
        None => Err(LinksError::CountNotInteger),
    }
}

/// The links of the `count` messages of a chat from message `head` on, in order.
pub fn linked_messages(chat_entity: &ChatEntity, head: i32, count: usize) -> (r: Vec<String>)
    requires
        count <= i32::MAX as int + 1,
        head + count <= i32::MAX as int + 1,
    ensures
        r@.len() == count,
        forall|k: int| 0 <= k < count ==> #[trigger] r@[k]@ == message_link(chat_entity@, head + k),
{
    let mut out: Vec<String> = Vec::new();
    let mut k: usize = 0;
    while k < count
        invariant
            k <= count,
            count <= i32::MAX as int + 1,
            head + count <= i32::MAX as int + 1,
            out@.len() == k,
            forall|j: int| 0 <= j < k ==> #[trigger] out@[j]@ == message_link(chat_entity@, head + j),
        decreases count - k,
    {
        let id = head + k as i32;
        out.push(get_message_link(chat_entity, id));
        k = k + 1;
    }
    out
}

/// What the bot answers for a message of a `/links` command it could not transfer.
pub fn not_found_response(link: &str) -> (r: String)
    ensures
        r@ == "message "@ + link@ + " not found"@,
{
    concat3("message ", link, " not found")
}

/// The bot's message for a linked file: the link, then an HTML link to the message of the
/// task in the chat, labelled with the file name.
pub open spec fn link_indicator_text(link: Seq<char>, chat_id: int, message_id: int, filename: Seq<char>) -> Seq<char> {
    link + "\n\n"@ + message_anchor(chat_id, message_id, filename)
}

/// The bot's message for a linked file (see `link_indicator_text`).
pub fn link_indicator_response(link: &str, chat_id: i64, message_id: i32, filename: &str) -> (r: String)
    ensures
        r@ == link_indicator_text(link@, chat_id as int, message_id as int, filename@),
{
    let anchor = format_message_link(chat_id, message_id, filename);
    let mut v: Vec<char> = Vec::new();
    append_str(&mut v, link);
    append_str(&mut v, "\n\n");
    append_str(&mut v, anchor.as_str());
    assert(v@ =~= link_indicator_text(link@, chat_id as int, message_id as int, filename@));
    string_from_chars(v)
}

} // verus!
