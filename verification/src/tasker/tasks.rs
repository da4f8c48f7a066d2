//! The transfer tasks: their kinds, their states, and the record kept of each.
use crate::text::{chars_of, str_eq, string_from_chars};
use vstd::prelude::*;

verus! {

/// What a task transfers: a file sent to the bot, the file of a message link, or a URL.
#[derive(Clone, Copy, Debug, PartialEq, Eq, Structural)]
pub enum CmdType {
    File,
    Link,
    Url,
}

/// The text a kind of task is stored as.
pub open spec fn cmd_type_text(t: CmdType) -> Seq<char> {
    match t {
        CmdType::File => "file"@,
        CmdType::Link => "link"@,
        CmdType::Url => "url"@,
    }
}

/// The kind of task stored as `s`, if any.
pub open spec fn cmd_type_from_text(s: Seq<char>) -> Option<CmdType> {
    if s == "file"@ {
        Some(CmdType::File)
    } else if s == "link"@ {
        Some(CmdType::Link)
    } else if s == "url"@ {
        Some(CmdType::Url)
    } else {
        None
    }
}

impl CmdType {
    /// The text the kind is stored as: `file`, `link` or `url`.
    pub fn to_str(&self) -> (r: &'static str)
        ensures
            r@ == cmd_type_text(*self),
    {
        match self {
            CmdType::File => "file",
            CmdType::Link => "link",
            CmdType::Url => "url",
        }
    }

    /// The text the kind is stored as.
    pub fn to_string(&self) -> (r: String)
        ensures
            r@ == cmd_type_text(*self),
    {
        string_from_chars(chars_of(self.to_str()))
    }

    /// The kind stored as `value`, if it names one.
    pub fn try_from_str(value: &str) -> (r: Option<CmdType>)
        ensures
            r == cmd_type_from_text(value@),
    {
        if str_eq(value, "file") {
            Some(CmdType::File)
        } else if str_eq(value, "link") {
            Some(CmdType::Link)
        } else if str_eq(value, "url") {
            Some(CmdType::Url)
        } else {
            None
        }
    }

    /// The name of the column type.
    pub fn column_type_name() -> (r: String)
        ensures
            r@ == "CmdType"@,
    {
        string_from_chars(chars_of("CmdType"))
    }
}

/// Where a task stands.
#[derive(Clone, Copy, Debug, PartialEq, Eq, Structural)]
pub enum TaskStatus {
    /// Inserted, waiting to be fetched.
    Waiting,
    /// Fetched by the tasker, so that it is dispatched once only.
    Fetched,
    /// Being transferred.
    Started,
    Completed,
    Failed,
}

/// The text a status is stored as.
pub open spec fn task_status_text(s: TaskStatus) -> Seq<char> {
    match s {
        TaskStatus::Waiting => "waiting"@,
        TaskStatus::Fetched => "fetched"@,
        TaskStatus::Started => "started"@,
        TaskStatus::Completed => "completed"@,
        TaskStatus::Failed => "failed"@,
    }
}

/// The status stored as `s`, if any.
pub open spec fn task_status_from_text(s: Seq<char>) -> Option<TaskStatus> {
    if s == "waiting"@ {
        Some(TaskStatus::Waiting)
    } else if s == "fetched"@ {
        Some(TaskStatus::Fetched)
    } else if s == "started"@ {
        Some(TaskStatus::Started)
    } else if s == "completed"@ {
        Some(TaskStatus::Completed)
    } else if s == "failed"@ {
        Some(TaskStatus::Failed)
    } else {
        None
    }
}

impl TaskStatus {
    /// The text the status is stored as.
    pub fn to_str(&self) -> (r: &'static str)
        ensures
            r@ == task_status_text(*self),
    {
        match self {
            TaskStatus::Waiting => "waiting",
            TaskStatus::Fetched => "fetched",
            TaskStatus::Started => "started",
            TaskStatus::Completed => "completed",
            TaskStatus::Failed => "failed",
        }
    }

    /// The text the status is stored as.
    pub fn to_string(&self) -> (r: String)
        ensures
            r@ == task_status_text(*self),
    {
        string_from_chars(chars_of(self.to_str()))
    }

    /// The status stored as `value`, if it names one.
    pub fn try_from_str(value: &str) -> (r: Option<TaskStatus>)
        ensures
            r == task_status_from_text(value@),
    {
        if str_eq(value, "waiting") {
            Some(TaskStatus::Waiting)
        } else if str_eq(value, "fetched") {
            Some(TaskStatus::Fetched)
        } else if str_eq(value, "started") {
            Some(TaskStatus::Started)
        } else if str_eq(value, "completed") {
            Some(TaskStatus::Completed)
        } else if str_eq(value, "failed") {
            Some(TaskStatus::Failed)
        } else {
            None
        }
    }

    /// The name of the column type.
    pub fn column_type_name() -> (r: String)
        ensures
            r@ == "TaskStatus"@,
    {
        string_from_chars(chars_of("TaskStatus"))
    }

    /// Whether a task with this status waits to start (waiting or fetched).
    pub fn is_pending(&self) -> (r: bool)
        ensures
            r == (*self == TaskStatus::Waiting || *self == TaskStatus::Fetched),
    {
        match self {
            TaskStatus::Waiting | TaskStatus::Fetched => true,
            _ => false,
        }
    }
}

/// Reading back the text a kind of task is stored as gives the kind.
pub proof fn lemma_cmd_type_round_trip(t: CmdType)
    ensures
        cmd_type_from_text(cmd_type_text(t)) == Some(t),
{
    reveal_strlit("file");
    reveal_strlit("link");
    reveal_strlit("url");
    assert("link"@[0] != "file"@[0]);
    assert("url"@.len() != "file"@.len() && "url"@.len() != "link"@.len());
}

/// A text is read as a kind of task only if it is the text that kind is stored as.
pub proof fn lemma_cmd_type_text_exact(s: Seq<char>)
    ensures
        cmd_type_from_text(s) matches Some(t) ==> cmd_type_text(t) == s,
{
}

/// Reading back the text a status is stored as gives the status.
pub proof fn lemma_task_status_round_trip(s: TaskStatus)
    ensures
        task_status_from_text(task_status_text(s)) == Some(s),
{
    reveal_strlit("waiting");
    reveal_strlit("fetched");
    reveal_strlit("started");
    reveal_strlit("completed");
    reveal_strlit("failed");
    assert("fetched"@[0] != "waiting"@[0]);
    assert("started"@[0] != "waiting"@[0] && "started"@[0] != "fetched"@[0]);
    assert("completed"@[0] != "waiting"@[0] && "completed"@[0] != "fetched"@[0]
        && "completed"@[0] != "started"@[0]);
    assert("failed"@[1] != "fetched"@[1]);
    assert("failed"@[0] != "waiting"@[0] && "failed"@[0] != "started"@[0] && "failed"@[0]
        != "completed"@[0]);
}

/// A text is read as a status only if it is the text that status is stored as.
pub proof fn lemma_task_status_text_exact(s: Seq<char>)
    ensures
        task_status_from_text(s) matches Some(t) ==> task_status_text(t) == s,
{
}

/// The message for a stored kind of task that names none.
pub fn invalid_cmd_type_message(value: &str) -> (r: String)
    ensures
        r@ == "cmd type value should be one of file, photo, link and url: "@ + value@,
{
    let mut v = chars_of("cmd type value should be one of file, photo, link and url: ");
    crate::text::append_str(&mut v, value);
    string_from_chars(v)
}

/// The message for a stored status that names none.
pub fn invalid_task_status_message(value: &str) -> (r: String)
    ensures
        r@ == "task status value should be one of waiting, started, completed and failed: "@ + value@,
{
    let mut v = chars_of("task status value should be one of waiting, started, completed and failed: ");
    crate::text::append_str(&mut v, value);
    string_from_chars(v)
}

/// The record kept of a task.
pub struct Model {
    pub id: i64,
    pub cmd_type: CmdType,
    pub filename: String,
    pub root_path: String,
    /// The URL of a `/url` task.
    pub url: Option<String>,
    /// The OneDrive upload session.
    pub upload_url: String,
    pub current_length: i64,
    pub total_length: i64,
    pub chat_id: i64,
    /// The chat, as the bot packs it.
    pub chat_bot_hex: String,
    /// The chat, as the user packs it.
    pub chat_user_hex: String,
    /// The chat the linked message comes from, as the user packs it (for a link task).
    pub chat_origin_hex: Option<String>,
    pub message_id: i32,
    /// The message the bot sent for the task.
    pub message_indicator_id: i32,
    /// The linked message in its own chat (for a link task).
    pub message_origin_id: Option<i32>,
    pub status: TaskStatus,
    pub auto_delete: bool,
}

/// What a new task is made of.
pub struct InsertTask {
    pub cmd_type: CmdType,
    pub filename: String,
    pub root_path: String,
    pub url: Option<String>,
    pub upload_url: String,
    pub current_length: u64,
    pub total_length: u64,
    pub chat_id: i64,
    pub chat_bot_hex: String,
    pub chat_user_hex: String,
    pub chat_origin_hex: Option<String>,
    pub message_id: i32,
    pub message_indicator_id: i32,
    pub message_origin_id: Option<i32>,
    pub auto_delete: bool,
}

/// The chat of a task, as the bot and as the user pack it.
pub struct ChatHex {
    pub chat_bot_hex: String,
    pub chat_user_hex: String,
}

} // verus!
