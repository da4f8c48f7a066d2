//! A file sent or forwarded to the bot: what task it becomes, the name message sent for a
//! forwarded or grouped one, the record of the task, and the messages it can be cancelled
//! by.
use crate::assoc::put;
use crate::filename::{get_tg_file_size, media_size, preprocess_tg_file_name, tg_file_name, TgMedia};
use crate::handlers::concat2;
use crate::handlers::misc::{media_task_kind, task_kind_of_media, MediaError};
use crate::tasker::aborters::{TaskAborter, TaskAborterView, TaskAborters};
use crate::tasker::session::{inserted_view, TaskSession};
use crate::tasker::tasks::{CmdType, InsertTask};
use crate::text::{chars_of, string_from_chars};
use vstd::prelude::*;

verus! {

/// What a file message becomes: the kind of task, the file's name on OneDrive and its
/// size, and the name message to send first, when there is one.
pub struct FileTaskPlan {
    pub cmd_type: CmdType,
    pub filename: String,
    pub total_length: u64,
    /// For a forwarded or grouped message: the text of a message that shows the file's
    /// name, so that the upload can be reported under it.
    pub name_message: Option<String>,
}

/// Plans the task of a file message from its media. A message without media, or with one
/// that is not a photo, a document or a sticker, is refused; otherwise the task transfers
/// the file under its OneDrive name, and a forwarded or grouped message first gets a name
/// message: `bypass_prefix` followed by the name.
pub fn plan_file_task(media: &Option<TgMedia>, forwarded_or_grouped: bool, bypass_prefix: &str) -> (r: Result<
    FileTaskPlan,
    MediaError,
>)
    ensures
        match media_task_kind(*media, false) {
            Err(e) => r matches Err(e2) && e2 == e,
            Ok(kind) => r matches Ok(p) && p.cmd_type == kind && p.filename@ == tg_file_name(
                media.unwrap(),
            ) && p.total_length == media_size(media.unwrap()) && (forwarded_or_grouped
                ==> (p.name_message matches Some(t) && t@ == bypass_prefix@ + tg_file_name(
                media.unwrap(),
            ))) && (!forwarded_or_grouped ==> p.name_message is None),
        },
{
    let kind = match task_kind_of_media(media, false) {
        Err(e) => {
            return Err(e);
        },
        Ok(k) => k,
    };
    match media {
        None => Err(MediaError::NoMedia),
        Some(m) => {
            let filename = preprocess_tg_file_name(m);
            let total_length = get_tg_file_size(m);
            let name_message = if forwarded_or_grouped {
                Some(concat2(bypass_prefix, filename.as_str()))
            } else {
                None
            };
            Ok(FileTaskPlan { cmd_type: kind, filename, total_length, name_message })
        },
    }
}

/// The message a file task goes by: the name message sent for it, if one was, else the
/// file message itself.
pub open spec fn task_message_id(message_id: i32, sent_message_id: Option<i32>) -> i32 {
    match sent_message_id {
        Some(s) => s,
        None => message_id,
    }
}

/// The (chat, message) keys a file task can be cancelled by: the message it goes by, and
/// the file message too when a name message was sent.
pub open spec fn cancel_keys(chat_id: i64, message_id: i32, sent_message_id: Option<i32>) -> Seq<(i64, i32)> {
    match sent_message_id {
        Some(s) => seq![(chat_id, s), (chat_id, message_id)],
        None => seq![(chat_id, message_id)],
    }
}

/// The record of a file task and the keys it can be cancelled by. The task transfers the
/// planned file of `message_id` in chat `chat_id` (the file message stays the message that
/// shows it), goes by the name message when one was sent, and starts at `current_length`.
pub fn file_task(
    plan: &FileTaskPlan,
    chat_id: i64,
    message_id: i32,
    sent_message_id: Option<i32>,
    root_path: &str,
    upload_url: &str,
    current_length: u64,
    chat_bot_hex: &str,
    chat_user_hex: &str,
    auto_delete: bool,
) -> (r: (InsertTask, Vec<(i64, i32)>))
    ensures
        r.0.cmd_type == plan.cmd_type,
        r.0.filename@ == plan.filename@,
        r.0.root_path@ == root_path@,
        r.0.url is None,
        r.0.upload_url@ == upload_url@,
        r.0.current_length == current_length,
        r.0.total_length == plan.total_length,
        r.0.chat_id == chat_id,
        r.0.chat_bot_hex@ == chat_bot_hex@,
        r.0.chat_user_hex@ == chat_user_hex@,
        r.0.chat_origin_hex is None,
        r.0.message_id == task_message_id(message_id, sent_message_id),
        r.0.message_indicator_id == message_id,
        r.0.message_origin_id is None,
        r.0.auto_delete == auto_delete,
        r.1@ == cancel_keys(chat_id, message_id, sent_message_id),
{
    let task_message = match sent_message_id {
        Some(s) => s,
        None => message_id,
    };
    let task = InsertTask {
        cmd_type: plan.cmd_type,
        filename: string_from_chars(chars_of(plan.filename.as_str())),
        root_path: string_from_chars(chars_of(root_path)),
        url: None,
        upload_url: string_from_chars(chars_of(upload_url)),
        current_length,
        total_length: plan.total_length,
        chat_id,
        chat_bot_hex: string_from_chars(chars_of(chat_bot_hex)),
        chat_user_hex: string_from_chars(chars_of(chat_user_hex)),
        chat_origin_hex: None,
        message_id: task_message,
        message_indicator_id: message_id,
        message_origin_id: None,
        auto_delete,
    };
    let mut keys: Vec<(i64, i32)> = Vec::new();
    match sent_message_id {
        Some(s) => {
            keys.push((chat_id, s));
            keys.push((chat_id, message_id));
        },
        None => {
            keys.push((chat_id, message_id));
        },
    }
    assert(keys@ =~= cancel_keys(chat_id, message_id, sent_message_id));
    (task, keys)
}

/// `s` with `v` put under each key of `keys`, in order.
pub open spec fn put_all(
    s: Seq<((i64, i32), TaskAborterView)>,
    keys: Seq<(i64, i32)>,
    v: TaskAborterView,
) -> Seq<((i64, i32), TaskAborterView)>
    decreases keys.len(),
{
    if keys.len() == 0 {
        s
    } else {
        put(put_all(s, keys.drop_last(), v), keys.last(), v)
    }
}

/// Inserts a file task and registers it as one that can be cancelled under each of its
/// keys; gives its id.
pub fn add_file_task(
    session: &mut TaskSession,
    aborters: &mut TaskAborters,
    task: InsertTask,
    keys: &Vec<(i64, i32)>,
) -> (r: i64)
    requires
        old(session)@.wf(),
        old(session)@.next_id < i64::MAX,
        old(aborters).wf(),
    ensures
        r == old(session)@.next_id,
        final(session)@.tasks == old(session)@.tasks.push(inserted_view(task, r)),
        final(session)@.next_id == r + 1,
        final(session)@.wf(),
        final(aborters).wf(),
        final(aborters)@ == put_all(
            old(aborters)@,
            keys@,
            TaskAborterView {
                id: r,
                chat_user_hex: task.chat_user_hex@,
                message_id: task.message_id,
                filename: task.filename@,
            },
        ),
{
    let chat_user_hex = string_from_chars(chars_of(task.chat_user_hex.as_str()));
    let filename = string_from_chars(chars_of(task.filename.as_str()));
    let message_id = task.message_id;
    let ghost v0 = aborters@;
    let id = session.insert_task(task);
    let ghost v = TaskAborterView {
        id,
        chat_user_hex: chat_user_hex@,
        message_id,
        filename: filename@,
    };
    let mut i: usize = 0;
    while i < keys.len()
        invariant
            i <= keys.len(),
            aborters.wf(),
            v == (TaskAborterView { id, chat_user_hex: chat_user_hex@, message_id, filename: filename@ }),
            aborters@ == put_all(v0, keys@.take(i as int), v),
        decreases keys.len() - i,
    {
        assert(keys@.take(i + 1).drop_last() =~= keys@.take(i as int));
        assert(keys@.take(i + 1).last() == keys@[i as int]);
        let a = TaskAborter::new(id, chat_user_hex.as_str(), message_id, filename.as_str());
        aborters.insert(keys[i], a);
        i = i + 1;
    }
    assert(keys@.take(i as int) =~= keys@);
    id
}

} // verus!
