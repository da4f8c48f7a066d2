//! How a fetched task is taken in, and what happens once its transfer has ended: which
//! status its record takes, which messages are edited or deleted, and the texts written
//! into them.
use crate::assoc::{delete, has_key, lookup, put};
use crate::tasker::aborters::{BatchAborters, TaskAborter, TaskAborterView, TaskAborters};
use crate::tasker::session::{
    ids_below, inserted_view, last_task_of, lemma_insert_then_delete, lemma_remove_after_update,
    lemma_shared_message_not_last,
    remove_where, update_id, TaskQuery, TaskSession, TaskTableView, TaskView,
};
use crate::tasker::tasks::{InsertTask, Model, TaskStatus};
use crate::filename::valid_filename;
use crate::text::{append_str, split_on, string_from_chars};
use std::path::Path;
use path_slash::PathBufExt;
use vstd::prelude::*;

verus! {

/// How the transfer of a task ended.
#[derive(Clone, Copy, Debug, PartialEq, Eq, Structural)]
pub enum TransferEnd {
    /// It was cancelled.
    Aborted,
    /// The file was uploaded.
    Succeeded,
    /// It stopped on an error.
    Failed,
}

/// What is left to do outside the table once a task has ended.
#[derive(Clone, Copy, Debug, PartialEq, Eq, Structural)]
pub struct FinishPlan {
    /// Delete the bot's message of the task.
    pub delete_indicator: bool,
    /// Drop the batch record of the task's message and delete that message: the task was
    /// the last one of a script or of a `/links` that has stopped adding tasks.
    pub release_message: bool,
    /// Edit the bot's message to say where the file was uploaded.
    pub report_done: bool,
    /// Report the error and edit the bot's message to say the task failed.
    pub report_failed: bool,
}

/// The plan that does nothing.
pub open spec fn no_plan() -> FinishPlan {
    FinishPlan { delete_indicator: false, release_message: false, report_done: false, report_failed: false }
}

/// What is left to do once a task has ended. Nothing is done for a cancelled task, nor for
/// an uploaded one that was no longer registered for cancellation (it was cancelled as it
/// finished). An uploaded task's messages are deleted when the chat deletes them
/// automatically, its message only when it was the last task of it and no script or
/// `/links` is still adding tasks; otherwise the bot's message reports the upload.
pub open spec fn finish_plan(
    end: TransferEnd,
    auto_delete: bool,
    aborter_existed: bool,
    last_task: bool,
    batch_processing: bool,
) -> FinishPlan {
    match end {
        TransferEnd::Aborted => no_plan(),
        TransferEnd::Failed => FinishPlan { report_failed: true, ..no_plan() },
        TransferEnd::Succeeded => if !aborter_existed {
            no_plan()
        } else if auto_delete {
            FinishPlan { delete_indicator: true, release_message: last_task && !batch_processing, ..no_plan() }
        } else {
            FinishPlan { report_done: true, ..no_plan() }
        },
    }
}

/// The message a task came from is released (deleted) only after an upload, in a chat
/// that deletes messages automatically, for a task still registered, when the task is
/// the last one of its message and no script or `/links` is still adding tasks to it.
pub proof fn lemma_release_only_last(
    end: TransferEnd,
    auto_delete: bool,
    aborter_existed: bool,
    last_task: bool,
    batch_processing: bool,
)
    ensures
        finish_plan(end, auto_delete, aborter_existed, last_task, batch_processing).release_message
            <==> (end == TransferEnd::Succeeded && auto_delete && aborter_existed && last_task
            && !batch_processing),
        finish_plan(end, auto_delete, aborter_existed, last_task, batch_processing).release_message
            ==> finish_plan(end, auto_delete, aborter_existed, last_task, batch_processing).delete_indicator,
{
}

/// A finished task never releases a message another task of the table still needs: when
/// the first task of a chat with bot message `message_indicator_id` shares its message with
/// another task, the plan `finish_task` gives keeps the message, however the task ended.
pub proof fn lemma_finish_keeps_shared_message(
    s: Seq<TaskView>,
    chat_id: i64,
    message_indicator_id: i32,
    i: int,
    j: int,
    end: TransferEnd,
    auto_delete: bool,
    aborter_existed: bool,
    batch_processing: bool,
)
    requires
        0 <= i < s.len(),
        0 <= j < s.len(),
        i != j,
        s[i].chat_id == chat_id,
        s[i].message_indicator_id == message_indicator_id,
        forall|k: int|
            0 <= k < i ==> !((#[trigger] s[k]).chat_id == chat_id && s[k].message_indicator_id
                == message_indicator_id),
        s[j].message_id == s[i].message_id,
    ensures
        !finish_plan(
            end,
            auto_delete,
            aborter_existed,
            last_task_of(s, chat_id, message_indicator_id),
            batch_processing,
        ).release_message,
{
    lemma_shared_message_not_last(s, chat_id, message_indicator_id, i, j);
    lemma_release_only_last(
        end,
        auto_delete,
        aborter_existed,
        last_task_of(s, chat_id, message_indicator_id),
        batch_processing,
    );
}

/// The status a task takes when its transfer ends, if it takes one.
pub open spec fn end_status(end: TransferEnd) -> Option<TaskStatus> {
    match end {
        TransferEnd::Aborted => None,
        TransferEnd::Succeeded => Some(TaskStatus::Completed),
        TransferEnd::Failed => Some(TaskStatus::Failed),
    }
}

/// Takes in a task just fetched, once its message has been looked up in its chat. A task
/// whose message is gone (deleted as soon as it was sent) is dropped together with the
/// other tasks of that message, and is not dispatched; otherwise it is registered as one
/// that can be cancelled, by the chat and its bot message, and is to be dispatched.
pub fn admit_task(
    session: &mut TaskSession,
    aborters: &mut TaskAborters,
    task: &Model,
    chat_id: i64,
    message_exists: bool,
) -> (r: bool)
    requires
        old(session)@.wf(),
        old(aborters).wf(),
    ensures
        final(session)@.wf(),
        final(aborters).wf(),
        r == message_exists,
        !message_exists ==> final(session)@ == (TaskTableView {
            tasks: remove_where(
                old(session)@.tasks,
                TaskQuery::ChatMessageOrIndicator(chat_id, task.message_id),
            ),
            ..old(session)@
        }) && final(aborters)@ == old(aborters)@,
        message_exists ==> final(session)@ == old(session)@ && final(aborters)@ == put(
            old(aborters)@,
            (chat_id, task.message_indicator_id),
            TaskAborterView {
                id: task.id,
                chat_user_hex: task.chat_user_hex@,
                message_id: task.message_id,
                filename: task.filename@,
            },
        ),
{
    if !message_exists {
        session.delete_task_from_message_id_if_exists(chat_id, task.message_id);
        false
    } else {
        let aborter = TaskAborter::new(
            task.id,
            task.chat_user_hex.as_str(),
            task.message_id,
            task.filename.as_str(),
        );
        aborters.insert((chat_id, task.message_indicator_id), aborter);
        true
    }
}

/// Records how the transfer of `task` ended and says what is left to do. The task is
/// withdrawn from those that can be cancelled (by the chat and its bot message); whether it
/// was still there, and whether the batch of its message is still adding tasks, decide the
/// plan. The record takes the status `Completed` or `Failed` (a cancelled one is left as it
/// is); once the plan has been carried out, the task is removed with
/// `TaskSession::delete_task`.
pub fn finish_task(
    session: &mut TaskSession,
    aborters: &mut TaskAborters,
    batches: &BatchAborters,
    task: &Model,
    chat_id: i64,
    end: TransferEnd,
) -> (r: FinishPlan)
    requires
        old(session)@.wf(),
        old(aborters).wf(),
        batches.wf(),
    ensures
        final(session)@.wf(),
        final(aborters).wf(),
        final(aborters)@ == delete(old(aborters)@, (chat_id, task.message_indicator_id)),
        r == finish_plan(
            end,
            task.auto_delete,
            has_key(old(aborters)@, (chat_id, task.message_indicator_id)),
            last_task_of(old(session)@.tasks, chat_id, task.message_indicator_id),
            lookup(batches@, (chat_id, task.message_id)) == Some(true),
        ),
        match end_status(end) {
            None => final(session)@ == old(session)@,
            Some(status) => final(session)@ == (TaskTableView {
                tasks: update_id(old(session)@.tasks, task.id, |x: TaskView| TaskView { status, ..x }),
                ..old(session)@
            }),
        },
{
    let removed = aborters.remove((chat_id, task.message_indicator_id));
    let aborter_existed = removed.is_some();
    let batch_processing = batches.is_processing((chat_id, task.message_id));
    let last = session.is_last_task(chat_id, task.message_indicator_id);
    let none = FinishPlan { delete_indicator: false, release_message: false, report_done: false, report_failed: false };
    match end {
        TransferEnd::Aborted => none,
        TransferEnd::Succeeded => {
            session.set_task_status(task.id, TaskStatus::Completed);
            if !aborter_existed {
                none
            } else if task.auto_delete {
                FinishPlan { delete_indicator: true, release_message: last && !batch_processing, ..none }
            } else {
                FinishPlan { report_done: true, ..none }
            }
        },
        TransferEnd::Failed => {
            session.set_task_status(task.id, TaskStatus::Failed);
            FinishPlan { report_failed: true, ..none }
        },
    }
}

/// The bot's message of an uploaded task: its text, then where the file went and its size
/// (already written in MB).
pub open spec fn done_text(indicator: Seq<char>, file_path: Seq<char>, size_mb: Seq<char>) -> Seq<char> {
    indicator + "\n\nDone.\nFile uploaded to "@ + file_path + "\nSize "@ + size_mb + "MB."@
}

/// The bot's message of an uploaded task (see `done_text`).
pub fn done_response(indicator: &str, file_path: &str, size_mb: &str) -> (r: String)
    ensures
        r@ == done_text(indicator@, file_path@, size_mb@),
{
    let mut v: Vec<char> = Vec::new();
    append_str(&mut v, indicator);
    append_str(&mut v, "\n\nDone.\nFile uploaded to ");
    append_str(&mut v, file_path);
    append_str(&mut v, "\nSize ");
    append_str(&mut v, size_mb);
    append_str(&mut v, "MB.");
    assert(v@ =~= done_text(indicator@, file_path@, size_mb@));
    string_from_chars(v)
}

/// The bot's message of a failed task.
pub open spec fn failed_text(indicator: Seq<char>) -> Seq<char> {
    indicator + "\n\nFailed."@
}

/// The bot's message of a failed task (see `failed_text`).
pub fn failed_response(indicator: &str) -> (r: String)
    ensures
        r@ == failed_text(indicator@),
{
    let mut v: Vec<char> = Vec::new();
    append_str(&mut v, indicator);
    append_str(&mut v, "\n\nFailed.");
    assert(v@ =~= failed_text(indicator@));
    string_from_chars(v)
}

/// A directory written plainly: it starts with `/`, holds no backslash, and no part between
/// slashes is `.` or empty (but the last one, for a trailing `/`).
pub open spec fn plain_dir(root: Seq<char>) -> bool {
    let parts = split_on(root, '/');
    &&& root.len() > 0
    &&& root[0] == '/'
    &&& !root.contains('\\')
    &&& forall|i: int| 1 <= i < parts.len() - 1 ==> #[trigger] parts[i].len() > 0 && parts[i] != seq!['.']
    &&& parts.last() != seq!['.']
}

/// A file name OneDrive accepts, other than `.`.
pub open spec fn plain_file_name(filename: Seq<char>) -> bool {
    valid_filename(filename) && filename != seq!['.']
}

/// The path of a file under a directory: the directory, a `/` unless it ends with one,
/// and the file name.
pub open spec fn joined_path(root: Seq<char>, filename: Seq<char>) -> Seq<char> {
    if root.last() == '/' {
        root + filename
    } else {
        root + seq!['/'] + filename
    }
}

/// `Path::new(root).join(filename)` written with `/` by `path_slash`'s `to_slash_lossy`.
/// Trusted: for a plain directory and a plain file name the result is the directory, a
/// `/` unless the directory ends with one, and the file name. On Unix `join` adds the
/// separator only when it is missing and `to_slash_lossy` keeps the text; on Windows
/// `to_slash_lossy` rebuilds the path from its components with `/`, which gives the same
/// text for such paths. Other paths are written as the platform joins them, which is not
/// stated.
#[verifier::external_body]
fn slash_joined_path(root: &str, filename: &str) -> (r: String)
    ensures
        plain_dir(root@) && plain_file_name(filename@) ==> r@ == joined_path(root@, filename@),
{
    Path::new(root).join(filename).to_slash_lossy().into_owned()
}

/// The bot's message of an uploaded task, with the path of the file under its directory:
/// `done_text` with the directory and the file name joined (see `joined_path`) when both
/// are written plainly; for other paths, whatever the platform makes of the two joined.
pub fn completed_response(indicator: &str, task: &Model, size_mb: &str) -> (r: String)
    ensures
        exists|p: Seq<char>| r@ == #[trigger] done_text(indicator@, p, size_mb@),
        plain_dir(task.root_path@) && plain_file_name(task.filename@) ==> r@ == done_text(
            indicator@,
            joined_path(task.root_path@, task.filename@),
            size_mb@,
        ),
{
    let path = slash_joined_path(task.root_path.as_str(), task.filename.as_str());
    let r = done_response(indicator, path.as_str(), size_mb);
    assert(r@ == done_text(indicator@, path@, size_mb@));
    r
}

/// The whole life of a task leaves no trace: a task inserted, then fetched, started and
/// finished (whichever way), and deleted, leaves the table as it was before.
pub proof fn lemma_task_life_leaves_no_trace(
    s: Seq<TaskView>,
    t: InsertTask,
    id: i64,
    end: TaskStatus,
)
    requires
        ids_below(s, id as int),
    ensures
        remove_where(
            update_id(
                update_id(
                    update_id(
                        s.push(inserted_view(t, id)),
                        id,
                        |x: TaskView| TaskView { status: TaskStatus::Fetched, ..x },
                    ),
                    id,
                    |x: TaskView| TaskView { status: TaskStatus::Started, ..x },
                ),
                id,
                |x: TaskView| TaskView { status: end, ..x },
            ),
            TaskQuery::Id(id),
        ) == s,
{
    let g1 = |x: TaskView| TaskView { status: TaskStatus::Fetched, ..x };
    let g2 = |x: TaskView| TaskView { status: TaskStatus::Started, ..x };
    let g3 = |x: TaskView| TaskView { status: end, ..x };
    let s0 = s.push(inserted_view(t, id));
    let s1 = update_id(s0, id, g1);
    let s2 = update_id(s1, id, g2);
    lemma_remove_after_update(s2, id, g3);
    lemma_remove_after_update(s1, id, g2);
    lemma_remove_after_update(s0, id, g1);
    lemma_insert_then_delete(s, t, id);
}

} // verus!
