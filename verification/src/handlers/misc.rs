//! The smaller commands: `/autoDelete`, `/clear`, `/logs`, `/version`; who may give
//! commands; and the kind of task a file sent to the bot, or linked, becomes.
use crate::filename::TgMedia;
use crate::handlers::{command_words, command_words_of, word_is, words_view};
use crate::tasker::tasks::CmdType;
use crate::text::{append_str, str_eq, string_from_chars};
use vstd::prelude::*;

verus! {

/// The name of `/autoDelete`.
pub const AUTO_DELETE_PATTERN: &'static str = "/autoDelete";

/// The name of `/clear`.
pub const CLEAR_PATTERN: &'static str = "/clear";

/// The name of `/logs`.
pub const LOGS_PATTERN: &'static str = "/logs";

/// The name of `/version`.
pub const VERSION_PATTERN: &'static str = "/version";

/// The answer to `/autoDelete`, given whether messages were deleted automatically before.
pub open spec fn auto_delete_text(was_on: bool) -> Seq<char> {
    if was_on {
        "Bot won't auto delete message."@
    } else {
        "Bot will auto delete message."@
    }
}

/// `/autoDelete`: turns the automatic deletion of messages on or off, and gives the new
/// setting and the answer.
pub fn toggle_auto_delete(was_on: bool) -> (r: (bool, &'static str))
    ensures
        r.0 == !was_on,
        r.1@ == auto_delete_text(was_on),
{
    if was_on {
        (false, "Bot won't auto delete message.")
    } else {
        (true, "Bot will auto delete message.")
    }
}

/// The id of the service message every group starts with; it cannot be deleted.
pub const SERVICE_MESSAGE_ID: i32 = 1;

/// The messages of a page that `/clear` deletes: all but the service message, in order.
pub open spec fn deletable(ids: Seq<i32>) -> Seq<i32>
    decreases ids.len(),
{
    if ids.len() == 0 {
        ids
    } else if ids.last() == SERVICE_MESSAGE_ID {
        deletable(ids.drop_last())
    } else {
        deletable(ids.drop_last()).push(ids.last())
    }
}

/// The messages of a page that `/clear` deletes (see `deletable`).
pub fn deletable_ids(ids: &Vec<i32>) -> (r: Vec<i32>)
    ensures
        r@ == deletable(ids@),
{
    let mut out: Vec<i32> = Vec::new();
    let mut i: usize = 0;
    while i < ids.len()
        invariant
            i <= ids.len(),
            out@ == deletable(ids@.take(i as int)),
        decreases ids.len() - i,
    {
        assert(ids@.take(i + 1).drop_last() =~= ids@.take(i as int));
        assert(ids@.take(i + 1).last() == ids@[i as int]);
        if ids[i] != SERVICE_MESSAGE_ID {
            out.push(ids[i]);
        }
        i = i + 1;
    }
    assert(ids@.take(i as int) =~= ids@);
    out
}

/// `/clear` never tries to delete the service message.
pub proof fn lemma_service_message_kept(ids: Seq<i32>)
    ensures
        forall|i: int| 0 <= i < deletable(ids).len() ==> #[trigger] deletable(ids)[i] != SERVICE_MESSAGE_ID,
    decreases ids.len(),
{
    if ids.len() > 0 {
        lemma_service_message_kept(ids.drop_last());
        let r = deletable(ids.drop_last());
        assert forall|i: int| 0 <= i < deletable(ids).len() implies #[trigger] deletable(ids)[i] != SERVICE_MESSAGE_ID by {
            if i < r.len() {
                assert(deletable(ids)[i] == r[i]);
            }
        }
    }
}

/// What a `/logs` command asks.
#[derive(Clone, Copy, Debug, PartialEq, Eq, Structural)]
pub enum LogsCommand {
    /// `/logs`: send the logs as a zip.
    Send,
    /// `/logs clear`: delete the log files.
    Clear,
    /// `/logs help`.
    Help,
    /// Anything else: the help is given as a reply.
    Other,
}

/// What the words of a `/logs` command ask.
pub open spec fn logs_command_spec(w: Seq<Seq<char>>) -> LogsCommand {
    if w.len() == 1 {
        LogsCommand::Send
    } else if w.len() == 2 && w[1] == "clear"@ {
        LogsCommand::Clear
    } else if w.len() == 2 && w[1] == "help"@ {
        LogsCommand::Help
    } else {
        LogsCommand::Other
    }
}

/// Reads a `/logs` command from the text of its message.
pub fn logs_command(text: &str) -> (r: LogsCommand)
    ensures
        r == logs_command_spec(command_words(text@)),
{
    let cmd = command_words_of(text);
    if cmd.len() == 1 {
        LogsCommand::Send
    } else if cmd.len() == 2 && word_is(&cmd, 1, "clear") {
        LogsCommand::Clear
    } else if cmd.len() == 2 && word_is(&cmd, 1, "help") {
        LogsCommand::Help
    } else {
        LogsCommand::Other
    }
}

/// The answer to `/logs` when there are no logs.
pub const LOGS_NOT_FOUND: &'static str = "Logs not found.";

/// The answer to `/logs clear`.
pub const LOGS_CLEARED: &'static str = "Logs cleared.";

/// The answer to `/version`: the package's name, version and authors.
pub open spec fn version_text(name: Seq<char>, version: Seq<char>, authors: Seq<char>) -> Seq<char> {
    name + " v"@ + version + " by "@ + authors
}

/// The answer to `/version` (see `version_text`).
pub fn version_response(name: &str, version: &str, authors: &str) -> (r: String)
    ensures
        r@ == version_text(name@, version@, authors@),
{
    let mut v: Vec<char> = Vec::new();
    append_str(&mut v, name);
    append_str(&mut v, " v");
    append_str(&mut v, version);
    append_str(&mut v, " by ");
    append_str(&mut v, authors);
    assert(v@ =~= version_text(name@, version@, authors@));
    string_from_chars(v)
}

/// Why a file cannot become a task.
#[derive(Clone, Copy, Debug, PartialEq, Eq, Structural)]
pub enum MediaError {
    /// The message holds no media.
    NoMedia,
    /// The media is not a photo, a document or a sticker.
    UnsupportedMedia,
}

/// The text of each media error.
pub open spec fn media_error_text(e: MediaError) -> Seq<char> {
    match e {
        MediaError::NoMedia => "message does not contain any media"@,
        MediaError::UnsupportedMedia => "media type is not one of photo, document and sticker"@,
    }
}

impl MediaError {
    /// The text of the error.
    pub fn message(&self) -> (r: &'static str)
        ensures
            r@ == media_error_text(*self),
    {
        match self {
            MediaError::NoMedia => "message does not contain any media",
            MediaError::UnsupportedMedia => "media type is not one of photo, document and sticker",
        }
    }
}

/// The kind of task the media of a message becomes: a file sent to the bot, or the file
/// of a linked message (`linked`); only photos, documents and stickers are transferred.
pub open spec fn media_task_kind(media: Option<TgMedia>, linked: bool) -> Result<CmdType, MediaError> {
    match media {
        None => Err(MediaError::NoMedia),
        Some(TgMedia::Other) => Err(MediaError::UnsupportedMedia),
        Some(_) => Ok(
            if linked {
                CmdType::Link
            } else {
                CmdType::File
            },
        ),
    }
}

/// The kind of task the media of a message becomes (see `media_task_kind`).
pub fn task_kind_of_media(media: &Option<TgMedia>, linked: bool) -> (r: Result<CmdType, MediaError>)
    ensures
        r == media_task_kind(*media, linked),
{
    match media {
        None => Err(MediaError::NoMedia),
        Some(TgMedia::Other) => Err(MediaError::UnsupportedMedia),
        Some(_) => Ok(
            if linked {
                CmdType::Link
            } else {
                CmdType::File
            },
        ),
    }
}

/// Whether a sender may give commands: anyone when no users are listed, or a sender
/// without a username; otherwise a listed username.
pub open spec fn sender_allowed_spec(users: Seq<Seq<char>>, username: Option<Seq<char>>) -> bool {
    match username {
        None => true,
        Some(u) => users.len() == 0 || users.contains(u),
    }
}

/// Whether a sender, by its username if it has one, may give commands to the bot.
pub fn sender_allowed(users: &Vec<String>, username: &Option<String>) -> (r: bool)
    ensures
        r == sender_allowed_spec(words_view(users@), match username {
            Some(u) => Some(u@),
            None => None,
        }),
{
    let ghost uv = words_view(users@);
    match username {
        None => true,
        Some(u) => {
            if users.len() == 0 {
                return true;
            }
            let mut i: usize = 0;
            while i < users.len()
                invariant
                    i <= users.len(),
                    uv == words_view(users@),
                    *username == Some(*u),
                    forall|k: int| 0 <= k < i ==> uv[k] != u@,
                decreases users.len() - i,
            {
                assert(uv[i as int] == users@[i as int]@);
                if str_eq(users[i].as_str(), u.as_str()) {
                    assert(uv.contains(u@));
                    return true;
                }
                i = i + 1;
            }
            assert(!uv.contains(u@));
            false
        },
    }
}

/// The answer to a command that needs the user's Telegram login when there is none.
pub const TELEGRAM_LOGIN_REQUIRED: &'static str = "You haven't logined to Telegram.";

/// The answer to a command that needs OneDrive when it is not authorized.
pub const ONEDRIVE_LOGIN_REQUIRED: &'static str = "You haven't authorize OneDrive.";

} // verus!
