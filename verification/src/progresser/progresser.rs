//! What the progress reporter does for each chat at each round: which texts it writes
//! and which messages it sends, edits or deletes.
use crate::decimal::{i32_to_dec, i64_to_dec, int_to_dec, u64_to_dec};
use crate::message_link::PRIVATE_LINK_PREFIX;
use crate::progresser::progress::PROGRESS_HEADING;
use crate::text::{append_chars, append_str, chars_eq, chars_of, string_from_chars};
use vstd::prelude::*;

verus! {

/// The line of a task in a progress message: a link to the task's message, labelled with
/// the file name, then the transferred and the total size (already written in MB).
pub open spec fn progress_line_text(
    chat_id: int,
    message_id: int,
    filename: Seq<char>,
    current_mb: Seq<char>,
    total_mb: Seq<char>,
) -> Seq<char> {
    "\n<a href=\""@ + PRIVATE_LINK_PREFIX@ + int_to_dec(chat_id) + "/"@ + int_to_dec(message_id)
        + "\">"@ + filename + "</a>: "@ + current_mb + "/"@ + total_mb + "MB"@
}

/// The line of a task in a progress message.
pub fn progress_line(
    chat_id: i64,
    message_id: i32,
    filename: &str,
    current_mb: &str,
    total_mb: &str,
) -> (r: String)
    ensures
        r@ == progress_line_text(chat_id as int, message_id as int, filename@, current_mb@, total_mb@),
{
    let mut v: Vec<char> = Vec::new();
    append_str(&mut v, "\n<a href=\"");
    append_str(&mut v, PRIVATE_LINK_PREFIX);
    append_chars(&mut v, &i64_to_dec(chat_id));
    append_str(&mut v, "/");
    append_chars(&mut v, &i32_to_dec(message_id));
    append_str(&mut v, "\">");
    append_str(&mut v, filename);
    append_str(&mut v, "</a>: ");
    append_str(&mut v, current_mb);
    append_str(&mut v, "/");
    append_str(&mut v, total_mb);
    append_str(&mut v, "MB");
    assert(v@ =~= progress_line_text(chat_id as int, message_id as int, filename@, current_mb@, total_mb@));
    string_from_chars(v)
}

/// The note on the tasks of a chat still waiting to start.
pub open spec fn pending_note_text(pending: int) -> Seq<char> {
    "\n\n"@ + int_to_dec(pending) + " more tasks pending..."@
}

/// The note on the tasks of a chat still waiting to start.
pub fn pending_note(pending: u64) -> (r: String)
    ensures
        r@ == pending_note_text(pending as int),
{
    let mut v: Vec<char> = Vec::new();
    append_str(&mut v, "\n\n");
    append_chars(&mut v, &u64_to_dec(pending));
    append_str(&mut v, " more tasks pending...");
    assert(v@ =~= pending_note_text(pending as int));
    string_from_chars(v)
}

/// The lines one after the other.
pub open spec fn concat_all(lines: Seq<Seq<char>>) -> Seq<char>
    decreases lines.len(),
{
    if lines.len() == 0 {
        seq![]
    } else {
        concat_all(lines.drop_last()) + lines.last()
    }
}

/// A whole progress message: the heading, the line of each task, and the note on the
/// waiting tasks when there are any.
pub open spec fn progress_response_text(lines: Seq<Seq<char>>, pending: int) -> Seq<char> {
    PROGRESS_HEADING@ + concat_all(lines) + if pending > 0 {
        pending_note_text(pending)
    } else {
        seq![]
    }
}

/// A whole progress message (see `progress_response_text`).
pub fn build_progress_response(lines: &Vec<String>, pending: u64) -> (r: String)
    ensures
        r@ == progress_response_text(lines@.map_values(|s: String| s@), pending as int),
{
    let ghost lv = lines@.map_values(|s: String| s@);
    let mut v: Vec<char> = Vec::new();
    append_str(&mut v, PROGRESS_HEADING);
    let mut i: usize = 0;
    while i < lines.len()
        invariant
            i <= lines.len(),
            lv == lines@.map_values(|s: String| s@),
            v@ == PROGRESS_HEADING@ + concat_all(lv.take(i as int)),
        decreases lines.len() - i,
    {
        append_str(&mut v, lines[i].as_str());
        assert(lv.take(i + 1).drop_last() =~= lv.take(i as int));
        assert(lv.take(i + 1).last() == lines@[i as int]@);
        assert(v@ =~= PROGRESS_HEADING@ + concat_all(lv.take(i + 1)));
        i = i + 1;
    }
    assert(lv.take(i as int) =~= lv);
    if pending > 0 {
        let note = pending_note(pending);
        append_str(&mut v, note.as_str());
    }
    assert(v@ =~= progress_response_text(lv, pending as int));
    string_from_chars(v)
}

/// What to do with the record of a chat at a round of the progress reporter.
#[derive(Clone, Copy, Debug, PartialEq, Eq, Structural)]
pub enum RecordStep {
    /// No task of the chat is in progress: drop the record and delete this message.
    Drop(i32),
    /// Tasks are in progress: note the waiting ones and bring the message up to date.
    Refresh,
}

/// What to do with the record of a chat, given how many of its tasks are in progress and
/// which message shows its progress. A record whose count fell to zero before any
/// message was sent for it (its tasks ended before a round) has no message to delete; it
/// is left out by the `requires`, and a caller must not ask about it.
pub fn plan_record(message_number: u8, progress_message_id: Option<i32>) -> (r: RecordStep)
    requires
        message_number == 0 ==> progress_message_id is Some,
    ensures
        message_number == 0 ==> r == RecordStep::Drop(progress_message_id.unwrap()),
        message_number != 0 ==> r == RecordStep::Refresh,
{
    if message_number == 0 {
        match progress_message_id {
            Some(id) => RecordStep::Drop(id),
            None => RecordStep::Refresh,
        }
    } else {
        RecordStep::Refresh
    }
}

/// How the progress message of a chat is brought up to date.
#[derive(Clone, Copy, Debug, PartialEq, Eq, Structural)]
pub enum MessageUpdate {
    /// No message yet: send one and note its id.
    SendNew,
    /// The message is the latest of the chat and its text changed: edit it.
    Edit(i32),
    /// The message is the latest of the chat and its text is the same: leave it.
    Unchanged,
    /// Other messages came after it: delete it, send a new one and note its id.
    Resend(i32),
    /// The chat holds no message at all: leave things as they are.
    Nothing,
}

/// How the progress message of a chat is brought up to date, given the message that shows
/// it, the latest message of the chat (looked up only when there is a progress message),
/// and the texts shown last time and to show now.
pub open spec fn message_update(
    progress_message_id: Option<i32>,
    latest_message_id: Option<i32>,
    last_response: Seq<char>,
    current_response: Seq<char>,
) -> MessageUpdate {
    match progress_message_id {
        None => MessageUpdate::SendNew,
        Some(p) => match latest_message_id {
            None => MessageUpdate::Nothing,
            Some(l) => if l == p {
                if last_response != current_response {
                    MessageUpdate::Edit(p)
                } else {
                    MessageUpdate::Unchanged
                }
            } else {
                MessageUpdate::Resend(p)
            },
        },
    }
}

/// How the progress message of a chat is brought up to date (see `message_update`).
pub fn plan_message_update(
    progress_message_id: Option<i32>,
    latest_message_id: Option<i32>,
    last_response: &str,
    current_response: &str,
) -> (r: MessageUpdate)
    ensures
        r == message_update(progress_message_id, latest_message_id, last_response@, current_response@),
{
    match progress_message_id {
        None => MessageUpdate::SendNew,
        Some(p) => match latest_message_id {
            None => MessageUpdate::Nothing,
            Some(l) => {
                if l == p {
                    let a = chars_of(last_response);
                    let b = chars_of(current_response);
                    if !chars_eq(&a, &b) {
                        MessageUpdate::Edit(p)
                    } else {
                        MessageUpdate::Unchanged
                    }
                } else {
                    MessageUpdate::Resend(p)
                }
            },
        },
    }
}

/// Showing the same text twice in a row never edits the message.
pub proof fn lemma_same_text_not_edited(
    progress_message_id: Option<i32>,
    latest_message_id: Option<i32>,
    text: Seq<char>,
)
    ensures
        !(message_update(progress_message_id, latest_message_id, text, text) is Edit),
{
}

/// A progress message that other messages came after is always moved to the bottom
/// (deleted and sent again), whatever the texts; it is never edited in place.
pub proof fn lemma_buried_message_resent(
    progress_message_id: i32,
    latest_message_id: i32,
    last_response: Seq<char>,
    current_response: Seq<char>,
)
    requires
        latest_message_id != progress_message_id,
    ensures
        message_update(
            Some(progress_message_id),
            Some(latest_message_id),
            last_response,
            current_response,
        ) == MessageUpdate::Resend(progress_message_id),
{
}

/// A message is edited only when it is the progress message, it is the latest message of
/// the chat, and the text to show changed; and when all three hold it is edited.
pub proof fn lemma_edit_only_latest_changed(
    progress_message_id: Option<i32>,
    latest_message_id: Option<i32>,
    last_response: Seq<char>,
    current_response: Seq<char>,
    id: i32,
)
    ensures
        message_update(progress_message_id, latest_message_id, last_response, current_response)
            == MessageUpdate::Edit(id) <==> (progress_message_id == Some(id) && latest_message_id
            == Some(id) && last_response != current_response),
{
}

/// A chat without a progress message gets a new one, whatever its latest message is.
pub proof fn lemma_no_message_sends_new(
    latest_message_id: Option<i32>,
    last_response: Seq<char>,
    current_response: Seq<char>,
)
    ensures
        message_update(None, latest_message_id, last_response, current_response)
            == MessageUpdate::SendNew,
{
}

} // verus!
