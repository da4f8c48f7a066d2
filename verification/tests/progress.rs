use telegram_onedrive::progresser::progress::{Progress, ProgressError, ProgressItem};
use telegram_onedrive::progresser::progresser::{
    build_progress_response, pending_note, plan_message_update, plan_record, progress_line, MessageUpdate, RecordStep,
};

#[test]
fn progress_follows_tasks_by_chat() {
    let mut p = Progress::new();
    p.insert(1, 100, "bot", "user", 10, "a.txt");
    assert_eq!(p.message_number("bot"), Some(1));
    p.insert(2, 200, "bot", "user", 11, "b.txt");
    assert_eq!(p.message_number("bot"), Some(2));
    p.insert(3, 300, "other", "user2", 12, "c.txt");
    assert_eq!(p.message_number("other"), Some(1));
    assert_eq!(p.message_number("none"), None);
    assert_eq!(p.task_chat(2), Some("bot".to_string()));
    assert_eq!(p.task_chat(9), None);
    assert_eq!(p.iter_item().len(), 3);
    assert_eq!(p.iter_record().len(), 2);

    p.remove(1);
    assert_eq!(p.message_number("bot"), Some(1));
    assert_eq!(p.task_chat(1), None);
    p.remove(1);
    assert_eq!(p.message_number("bot"), Some(1));
}

#[test]
fn progress_lengths() {
    let mut p = Progress::new();
    p.insert(1, 100, "bot", "user", 10, "a.txt");
    assert_eq!(p.set_current_length(1, 50), Ok(()));
    let items = p.iter_item();
    assert_eq!(items[0].current_length, 50);
    assert_eq!(items[0].total_length, 100);
    assert_eq!(items[0].filename, "a.txt");
    assert_eq!(p.set_current_length(9, 1), Err(ProgressError::TaskNotFound));
    assert_eq!(ProgressError::TaskNotFound.message(), "task_id not found");
}

#[test]
fn progress_records_build_responses() {
    let mut p = Progress::new();
    p.insert(1, 100, "bot", "user", 10, "a.txt");
    p.add_to_current_response("bot", "\nline 1");
    p.add_to_current_response("bot", "\nline 2");
    p.add_to_current_response("nobody", "\nignored");
    let records = p.iter_record();
    assert_eq!(records[0].0, "bot");
    assert_eq!(records[0].1.current_response, "Progress:\n\nline 1\nline 2");
    assert_eq!(records[0].1.chat_user_hex, "user");
    assert_eq!(records[0].1.progress_message_id, None);

    p.update_progress_message_id("bot", 77);
    p.update_last_response("bot", "Progress:\n\nline 1\nline 2");
    let records = p.iter_record();
    assert_eq!(records[0].1.progress_message_id, Some(77));
    assert_eq!(records[0].1.last_response, "Progress:\n\nline 1\nline 2");
    assert_eq!(records[0].1.current_response, "");

    p.remove_record("bot");
    assert_eq!(p.message_number("bot"), None);
}

#[test]
fn new_items_start_at_zero() {
    let item = ProgressItem::new(500, "hex", 3, "f");
    assert_eq!(item.current_length, 0);
    assert_eq!(item.total_length, 500);
    let copy = item.duplicate();
    assert_eq!(copy.chat_bot_hex, "hex");
    assert_eq!(copy.message_id, 3);
}

#[test]
fn progress_texts() {
    assert_eq!(
        progress_line(-1001234, 5, "a.txt", "1.00", "2.50"),
        "\n<a href=\"https://t.me/c/-1001234/5\">a.txt</a>: 1.00/2.50MB"
    );
    assert_eq!(pending_note(3), "\n\n3 more tasks pending...");
    let lines = vec!["\nx".to_string(), "\ny".to_string()];
    assert_eq!(build_progress_response(&lines, 0), "Progress:\n\nx\ny");
    assert_eq!(build_progress_response(&lines, 2), "Progress:\n\nx\ny\n\n2 more tasks pending...");
    assert_eq!(build_progress_response(&vec![], 0), "Progress:\n");
}

#[test]
fn progress_plans() {
    assert_eq!(plan_record(0, Some(5)), RecordStep::Drop(5));
    assert_eq!(plan_record(2, None), RecordStep::Refresh);
    assert_eq!(plan_record(1, Some(5)), RecordStep::Refresh);
    assert_eq!(plan_message_update(None, None, "", "x"), MessageUpdate::SendNew);
    assert_eq!(plan_message_update(Some(5), Some(5), "a", "b"), MessageUpdate::Edit(5));
    assert_eq!(plan_message_update(Some(5), Some(5), "a", "a"), MessageUpdate::Unchanged);
    assert_eq!(plan_message_update(Some(5), Some(6), "a", "a"), MessageUpdate::Resend(5));
    assert_eq!(plan_message_update(Some(5), None, "a", "b"), MessageUpdate::Nothing);
}
