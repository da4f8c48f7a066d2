use telegram_onedrive::tasker::aborters::{BatchAborters, TaskAborter, TaskAborters};
use telegram_onedrive::tasker::dispatch::{
    admit_task, completed_response, done_response, failed_response, finish_task, FinishPlan, TransferEnd,
};
use telegram_onedrive::tasker::reporter::{ChatMessages, ReporterError};
use telegram_onedrive::tasker::session::{meets_filter, TaskFilter, TaskSession};
use telegram_onedrive::tasker::tasks::{
    invalid_cmd_type_message, invalid_task_status_message, CmdType, InsertTask, Model, TaskStatus,
};

fn new_task(filename: &str, chat_bot_hex: &str, message_id: i32, indicator: i32, auto_delete: bool) -> InsertTask {
    InsertTask {
        cmd_type: CmdType::Link,
        filename: filename.to_string(),
        root_path: "/uploads".to_string(),
        url: None,
        upload_url: "https://upload.example.com/session".to_string(),
        current_length: 0,
        total_length: 1048576,
        chat_id: -100,
        chat_bot_hex: chat_bot_hex.to_string(),
        chat_user_hex: format!("{}-user", chat_bot_hex),
        chat_origin_hex: Some("origin".to_string()),
        message_id,
        message_indicator_id: indicator,
        message_origin_id: Some(500),
        auto_delete,
    }
}

#[test]
fn kinds_and_statuses() {
    assert_eq!(CmdType::File.to_str(), "file");
    assert_eq!(CmdType::Link.to_string(), "link");
    assert_eq!(CmdType::try_from_str("url"), Some(CmdType::Url));
    assert_eq!(CmdType::try_from_str("photo"), None);
    assert_eq!(CmdType::column_type_name(), "CmdType");
    assert_eq!(TaskStatus::Waiting.to_str(), "waiting");
    assert_eq!(TaskStatus::Fetched.to_str(), "fetched");
    assert_eq!(TaskStatus::Started.to_string(), "started");
    assert_eq!(TaskStatus::try_from_str("completed"), Some(TaskStatus::Completed));
    assert_eq!(TaskStatus::try_from_str("failed"), Some(TaskStatus::Failed));
    assert_eq!(TaskStatus::try_from_str("Failed"), None);
    assert_eq!(TaskStatus::column_type_name(), "TaskStatus");
    assert!(TaskStatus::Waiting.is_pending() && TaskStatus::Fetched.is_pending());
    assert!(!TaskStatus::Started.is_pending());
    for s in [TaskStatus::Waiting, TaskStatus::Fetched, TaskStatus::Started, TaskStatus::Completed, TaskStatus::Failed] {
        assert_eq!(TaskStatus::try_from_str(s.to_str()), Some(s));
    }
    assert_eq!(invalid_cmd_type_message("x"), "cmd type value should be one of file, photo, link and url: x");
    assert_eq!(
        invalid_task_status_message("y"),
        "task status value should be one of waiting, started, completed and failed: y"
    );
}

#[test]
fn insert_gives_fresh_ids_and_waiting_tasks() {
    let mut s = TaskSession::new();
    assert!(s.has_room());
    assert_eq!(s.insert_task(new_task("a", "bot", 10, 20, false)), 1);
    assert_eq!(s.insert_task(new_task("b", "bot", 10, 21, false)), 2);
    assert_eq!(s.count(&TaskFilter::All), 2);
    assert_eq!(s.get_chat_pending_tasks_number("bot"), 2);
    assert_eq!(s.get_chat_pending_tasks_number("other"), 0);
    let all = s.find_all(&TaskFilter::All);
    assert_eq!(all[0].status, TaskStatus::Waiting);
    assert_eq!(all[1].filename, "b");
    assert_eq!(all[0].total_length, 1048576);
}

#[test]
fn fetch_marks_each_task_once() {
    let mut s = TaskSession::new();
    s.insert_task(new_task("a", "bot", 10, 20, false));
    s.insert_task(new_task("b", "bot", 10, 21, false));
    let first = s.fetch_task().unwrap();
    assert_eq!(first.id, 1);
    assert_eq!(first.status, TaskStatus::Waiting);
    // a fetched task still waits to start
    assert_eq!(s.get_chat_pending_tasks_number("bot"), 2);
    assert_eq!(s.fetch_task().unwrap().id, 2);
    assert!(s.fetch_task().is_none());
    assert_eq!(s.count(&TaskFilter::Status(TaskStatus::Fetched)), 2);
}

#[test]
fn started_tasks_are_grouped_by_chat() {
    let mut s = TaskSession::new();
    s.insert_task(new_task("a", "bot", 10, 20, false));
    s.insert_task(new_task("b", "bot2", 11, 21, false));
    s.insert_task(new_task("c", "bot", 12, 22, false));
    assert!(!s.does_chat_has_started_tasks("bot"));
    s.set_task_status(1, TaskStatus::Started);
    s.set_task_status(2, TaskStatus::Started);
    s.set_task_status(3, TaskStatus::Started);
    assert!(s.does_chat_has_started_tasks("bot"));
    assert_eq!(s.get_chat_pending_tasks_number("bot"), 0);
    let groups = s.get_chats_current_tasks();
    assert_eq!(groups.len(), 2);
    assert_eq!(groups[0].0.chat_bot_hex, "bot");
    assert_eq!(groups[0].0.chat_user_hex, "bot-user");
    assert_eq!(groups[0].1.iter().map(|t| t.id).collect::<Vec<_>>(), vec![1, 3]);
    assert_eq!(groups[1].0.chat_bot_hex, "bot2");
    assert_eq!(groups[1].1.len(), 1);
}

#[test]
fn updates_touch_one_task() {
    let mut s = TaskSession::new();
    s.insert_task(new_task("a", "bot", 10, 20, false));
    s.insert_task(new_task("b", "bot", 10, 21, false));
    s.set_current_length(2, 4096);
    s.update_filename(2, "renamed.bin");
    let all = s.find_all(&TaskFilter::All);
    assert_eq!(all[0].current_length, 0);
    assert_eq!(all[0].filename, "a");
    assert_eq!(all[1].current_length, 4096);
    assert_eq!(all[1].filename, "renamed.bin");
    // an unknown id changes nothing
    s.set_task_status(99, TaskStatus::Failed);
    assert_eq!(s.count(&TaskFilter::Status(TaskStatus::Failed)), 0);
}

#[test]
fn last_task_of_a_message() {
    let mut s = TaskSession::new();
    s.insert_task(new_task("a", "bot", 10, 20, false));
    s.insert_task(new_task("b", "bot", 10, 21, false));
    assert!(!s.is_last_task(-100, 20));
    assert_eq!(s.get_message_indicator_ids(-100, 10), vec![20, 21]);
    s.delete_task(2);
    assert!(s.is_last_task(-100, 20));
    assert!(!s.is_last_task(-100, 21));
    assert!(!s.is_last_task(-7, 20));
}

#[test]
fn deletions_by_message() {
    let mut s = TaskSession::new();
    s.insert_task(new_task("a", "bot", 10, 20, false));
    s.insert_task(new_task("b", "bot", 11, 10, false));
    s.insert_task(new_task("c", "bot", 12, 22, false));
    s.delete_task_from_message_indicator_id_if_exists(-100, 22);
    assert_eq!(s.count(&TaskFilter::All), 2);
    // message 10 is the message of the first task and the bot message of the second
    s.delete_task_from_message_id_if_exists(-100, 10);
    assert_eq!(s.count(&TaskFilter::All), 0);
}

#[test]
fn insert_then_delete_leaves_the_table_as_it_was() {
    let mut s = TaskSession::new();
    s.insert_task(new_task("a", "bot", 10, 20, false));
    let before: Vec<i64> = s.find_all(&TaskFilter::All).iter().map(|t| t.id).collect();
    let id = s.insert_task(new_task("b", "bot", 11, 21, false));
    s.delete_task(id);
    let after: Vec<i64> = s.find_all(&TaskFilter::All).iter().map(|t| t.id).collect();
    assert_eq!(before, after);
    // ids are never given twice
    assert_eq!(s.insert_task(new_task("c", "bot", 12, 22, false)), 3);
}

#[test]
fn deleted_tasks_no_longer_match() {
    let mut s = TaskSession::new();
    s.insert_task(new_task("a", "bot", 10, 20, false));
    s.insert_task(new_task("b", "bot", 11, 21, false));
    s.set_task_status(1, TaskStatus::Started);
    let f = TaskFilter::StartedInChat("bot".to_string());
    s.delete_where(&f);
    assert_eq!(s.count(&f), 0);
    assert_eq!(s.count(&TaskFilter::All), 1);
    let remaining = s.find_all(&TaskFilter::All);
    assert!(!meets_filter(&f, &remaining[0]));
    assert!(meets_filter(&TaskFilter::MessageId(11), &remaining[0]));
}

#[test]
fn clear_removes_tasks_and_aborters() {
    let mut s = TaskSession::new();
    let mut aborters = TaskAborters::new();
    s.insert_task(new_task("a", "bot", 10, 20, false));
    aborters.insert((-100, 20), TaskAborter::new(1, "bot-user", 10, "a"));
    aborters.insert((-100, 21), TaskAborter::new(2, "bot-user", 10, "b"));
    let cancelled = s.clear(&mut aborters);
    assert_eq!(cancelled.iter().map(|a| a.id).collect::<Vec<_>>(), vec![1, 2]);
    assert_eq!(cancelled[1].filename(), "b");
    assert_eq!(s.count(&TaskFilter::All), 0);
    assert!(aborters.remove((-100, 20)).is_none());
    // the next id keeps growing
    assert_eq!(s.insert_task(new_task("c", "bot", 12, 22, false)), 2);
}

fn fetched(s: &mut TaskSession) -> Model {
    s.fetch_task().unwrap()
}

#[test]
fn admitting_tasks() {
    let mut s = TaskSession::new();
    let mut aborters = TaskAborters::new();
    s.insert_task(new_task("a", "bot", 10, 20, false));
    s.insert_task(new_task("b", "bot", 11, 21, false));
    let t = fetched(&mut s);
    assert!(admit_task(&mut s, &mut aborters, &t, -100, true));
    let registered = aborters.remove((-100, 20)).unwrap();
    assert_eq!(registered.id, 1);
    assert_eq!(registered.message_id, 10);
    assert_eq!(registered.chat_user_hex, "bot-user");
    let u = fetched(&mut s);
    assert!(!admit_task(&mut s, &mut aborters, &u, -100, false));
    assert_eq!(s.count(&TaskFilter::Id(2)), 0);
    assert_eq!(s.count(&TaskFilter::All), 1);
}

#[test]
fn finishing_tasks() {
    let none = FinishPlan { delete_indicator: false, release_message: false, report_done: false, report_failed: false };
    // uploaded, registered, not auto deleted: the bot's message reports it
    let mut s = TaskSession::new();
    let mut aborters = TaskAborters::new();
    let batches = BatchAborters::new();
    s.insert_task(new_task("a", "bot", 10, 20, false));
    let t = fetched(&mut s);
    admit_task(&mut s, &mut aborters, &t, -100, true);
    s.set_task_status(t.id, TaskStatus::Started);
    let plan = finish_task(&mut s, &mut aborters, &batches, &t, -100, TransferEnd::Succeeded);
    assert_eq!(plan, FinishPlan { report_done: true, ..none });
    assert_eq!(s.count(&TaskFilter::Status(TaskStatus::Completed)), 1);
    assert!(aborters.remove((-100, 20)).is_none());
    s.delete_task(t.id);
    assert_eq!(s.count(&TaskFilter::All), 0);

    // failed
    s.insert_task(new_task("b", "bot", 11, 21, false));
    let t = fetched(&mut s);
    let plan = finish_task(&mut s, &mut aborters, &batches, &t, -100, TransferEnd::Failed);
    assert_eq!(plan, FinishPlan { report_failed: true, ..none });
    assert_eq!(s.count(&TaskFilter::Status(TaskStatus::Failed)), 1);

    // cancelled: nothing changes
    s.insert_task(new_task("c", "bot", 12, 22, false));
    let t = fetched(&mut s);
    let plan = finish_task(&mut s, &mut aborters, &batches, &t, -100, TransferEnd::Aborted);
    assert_eq!(plan, none);
    assert_eq!(s.count(&TaskFilter::Status(TaskStatus::Fetched)), 1);

    // uploaded but no longer registered: nothing to report
    s.insert_task(new_task("d", "bot", 13, 23, false));
    let t = fetched(&mut s);
    let plan = finish_task(&mut s, &mut aborters, &batches, &t, -100, TransferEnd::Succeeded);
    assert_eq!(plan, none);
}

#[test]
fn auto_deleted_tasks_release_their_message_last() {
    let none = FinishPlan { delete_indicator: false, release_message: false, report_done: false, report_failed: false };
    let mut s = TaskSession::new();
    let mut aborters = TaskAborters::new();
    let mut batches = BatchAborters::new();
    assert!(!batches.open((-100, 10)));
    assert!(batches.open((-100, 10)));
    s.insert_task(new_task("a", "bot", 10, 20, true));
    s.insert_task(new_task("b", "bot", 10, 21, true));
    let a = fetched(&mut s);
    let b = fetched(&mut s);
    admit_task(&mut s, &mut aborters, &a, -100, true);
    admit_task(&mut s, &mut aborters, &b, -100, true);
    // another task of the message is left
    let plan = finish_task(&mut s, &mut aborters, &batches, &a, -100, TransferEnd::Succeeded);
    assert_eq!(plan, FinishPlan { delete_indicator: true, ..none });
    s.delete_task(a.id);
    // the last task, but the batch still adds tasks
    assert!(batches.is_processing((-100, 10)));
    let plan = finish_task(&mut s, &mut aborters, &batches, &b, -100, TransferEnd::Succeeded);
    assert_eq!(plan, FinishPlan { delete_indicator: true, ..none });
    // once the batch stops adding tasks, the last task releases the message
    s.insert_task(new_task("c", "bot", 10, 22, true));
    s.delete_task(b.id);
    let c = fetched(&mut s);
    admit_task(&mut s, &mut aborters, &c, -100, true);
    batches.finish_adding((-100, 10));
    assert!(!batches.is_processing((-100, 10)));
    let plan = finish_task(&mut s, &mut aborters, &batches, &c, -100, TransferEnd::Succeeded);
    assert_eq!(plan, FinishPlan { delete_indicator: true, release_message: true, ..none });
    batches.release((-100, 10));
    assert!(!batches.open((-100, 10)));
}

#[test]
fn completion_texts() {
    assert_eq!(
        done_response("file.txt", "/uploads/file.txt", "1.00"),
        "file.txt\n\nDone.\nFile uploaded to /uploads/file.txt\nSize 1.00MB."
    );
    assert_eq!(failed_response("file.txt"), "file.txt\n\nFailed.");
    let mut s = TaskSession::new();
    s.insert_task(new_task("a.txt", "bot", 10, 20, false));
    let t = fetched(&mut s);
    assert_eq!(
        completed_response("indicator", &t, "1.00"),
        "indicator\n\nDone.\nFile uploaded to /uploads/a.txt\nSize 1.00MB."
    );
}

#[test]
fn progress_messages_of_chats() {
    let mut s = TaskSession::new();
    s.insert_task(new_task("a", "bot", 10, 20, false));
    s.insert_task(new_task("b", "bot2", 11, 21, false));
    s.set_task_status(1, TaskStatus::Started);
    let mut chats = ChatMessages::new();
    chats.follow("bot");
    chats.follow("bot2");
    chats.follow("bot");
    assert_eq!(chats.message_id("bot"), Some(None));
    assert_eq!(chats.set_message_id("bot", 55), Ok(()));
    assert_eq!(chats.set_message_id("nobody", 1), Err(ReporterError::ChatNotFollowed));
    assert_eq!(ReporterError::ChatNotFollowed.message(), "chat_bot_hex not in chat_progress_message_id");
    assert_eq!(chats.message_id("bot"), Some(Some(55)));
    assert_eq!(chats.message_id("nobody"), None);
    // bot2 has no task in progress: it is dropped, with no message to delete
    let dropped = chats.prune(&s);
    assert_eq!(dropped, vec![("bot2".to_string(), None)]);
    assert_eq!(chats.message_id("bot2"), None);
    assert_eq!(chats.message_id("bot"), Some(Some(55)));
    s.delete_task(1);
    assert_eq!(chats.prune(&s), vec![("bot".to_string(), Some(55))]);
}

#[test]
fn aborter_tables() {
    let mut aborters = TaskAborters::new();
    aborters.insert((1, 2), TaskAborter::new(7, "u", 3, "f"));
    aborters.insert((1, 2), TaskAborter::new(8, "u", 3, "g"));
    let a = aborters.remove((1, 2)).unwrap();
    assert_eq!(a.id, 8);
    assert_eq!(a.filename(), "g");
    assert!(aborters.remove((1, 2)).is_none());
    let mut batches = BatchAborters::new();
    assert!(!batches.is_processing((1, 1)));
    batches.finish_adding((1, 1));
    assert!(!batches.is_processing((1, 1)));
    assert!(!batches.open((1, 1)));
    assert!(batches.is_processing((1, 1)));
    batches.release((1, 1));
    assert!(!batches.is_processing((1, 1)));
}

#[test]
fn a_whole_task_life_leaves_no_trace() {
    let mut s = TaskSession::new();
    let mut aborters = TaskAborters::new();
    let batches = BatchAborters::new();
    s.insert_task(new_task("kept", "bot", 9, 19, false));
    let before: Vec<(i64, String, TaskStatus)> =
        s.find_all(&TaskFilter::All).iter().map(|t| (t.id, t.filename.clone(), t.status)).collect();
    for end in [TransferEnd::Succeeded, TransferEnd::Failed] {
        let id = s.insert_task(new_task("passing", "bot", 10, 20, false));
        // the older task is fetched first; it is put back to waiting afterwards
        let first = fetched(&mut s);
        assert_eq!(first.id, 1);
        let t = fetched(&mut s);
        assert_eq!(t.id, id);
        admit_task(&mut s, &mut aborters, &t, -100, true);
        s.set_task_status(t.id, TaskStatus::Started);
        finish_task(&mut s, &mut aborters, &batches, &t, -100, end);
        s.delete_task(t.id);
        s.set_task_status(1, TaskStatus::Waiting);
        let after: Vec<(i64, String, TaskStatus)> =
            s.find_all(&TaskFilter::All).iter().map(|t| (t.id, t.filename.clone(), t.status)).collect();
        assert_eq!(before, after);
    }
}

#[test]
fn completed_paths_for_plain_directories() {
    let mut s = TaskSession::new();
    let mut t = new_task("a.txt", "bot", 10, 20, false);
    t.root_path = "/".to_string();
    s.insert_task(t);
    let mut u = new_task("b.txt", "bot", 11, 21, false);
    u.root_path = "/Videos/from-telegram/".to_string();
    s.insert_task(u);
    let a = fetched(&mut s);
    let b = fetched(&mut s);
    assert_eq!(completed_response("x", &a, "0.50"), "x\n\nDone.\nFile uploaded to /a.txt\nSize 0.50MB.");
    assert_eq!(
        completed_response("x", &b, "0.50"),
        "x\n\nDone.\nFile uploaded to /Videos/from-telegram/b.txt\nSize 0.50MB."
    );
}

#[test]
fn fetched_tasks_are_not_fetched_again_after_other_changes() {
    let mut s = TaskSession::new();
    s.insert_task(new_task("a", "bot", 10, 20, false));
    let t = fetched(&mut s);
    s.set_current_length(t.id, 100);
    s.update_filename(t.id, "renamed");
    s.insert_task(new_task("b", "bot", 11, 21, false));
    s.set_task_status(t.id, TaskStatus::Started);
    s.delete_task_from_message_id_if_exists(-100, 99);
    assert_eq!(s.fetch_task().unwrap().id, 2);
    assert!(s.fetch_task().is_none());
}
