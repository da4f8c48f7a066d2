use telegram_onedrive::filename::{TgDocument, TgMedia};
use telegram_onedrive::handlers::file::{add_file_task, file_task, plan_file_task};
use telegram_onedrive::handlers::misc::MediaError;
use telegram_onedrive::tasker::aborters::TaskAborters;
use telegram_onedrive::tasker::session::{TaskFilter, TaskSession};
use telegram_onedrive::tasker::tasks::{CmdType, TaskStatus};

fn doc(name: &str) -> TgMedia {
    TgMedia::Document(TgDocument { name: name.to_string(), id: 9, mime_type: None, size: 4096 })
}

#[test]
fn plans_of_file_messages() {
    let plan = plan_file_task(&Some(doc("report.pdf")), false, ">>").ok().unwrap();
    assert_eq!(plan.cmd_type, CmdType::File);
    assert_eq!(plan.filename, "report.pdf");
    assert_eq!(plan.total_length, 4096);
    assert_eq!(plan.name_message, None);
    let plan = plan_file_task(&Some(TgMedia::Photo { id: 5, size: 10 }), true, ">>").ok().unwrap();
    assert_eq!(plan.filename, "5.jpg");
    assert_eq!(plan.name_message, Some(">>5.jpg".to_string()));
    assert!(matches!(plan_file_task(&None, false, ">>"), Err(MediaError::NoMedia)));
    assert!(matches!(plan_file_task(&Some(TgMedia::Other), true, ">>"), Err(MediaError::UnsupportedMedia)));
}

#[test]
fn records_and_cancel_keys() {
    let plan = plan_file_task(&Some(doc("a.txt")), true, ">>").ok().unwrap();
    let (task, keys) = file_task(&plan, -100, 40, Some(41), "/up", "https://u", 0, "bot", "user", true);
    assert_eq!(task.message_id, 41);
    assert_eq!(task.message_indicator_id, 40);
    assert_eq!(task.filename, "a.txt");
    assert_eq!(task.root_path, "/up");
    assert_eq!(task.upload_url, "https://u");
    assert_eq!(task.total_length, 4096);
    assert_eq!(task.chat_id, -100);
    assert!(task.url.is_none() && task.chat_origin_hex.is_none() && task.message_origin_id.is_none());
    assert!(task.auto_delete);
    assert_eq!(keys, vec![(-100, 41), (-100, 40)]);
    let (task, keys) = file_task(&plan, -100, 40, None, "/up", "https://u", 7, "bot", "user", false);
    assert_eq!(task.message_id, 40);
    assert_eq!(task.current_length, 7);
    assert_eq!(keys, vec![(-100, 40)]);
}

#[test]
fn file_tasks_are_inserted_and_cancellable_by_each_key() {
    let mut session = TaskSession::new();
    let mut aborters = TaskAborters::new();
    let plan = plan_file_task(&Some(doc("a.txt")), true, ">>").ok().unwrap();
    let (task, keys) = file_task(&plan, -100, 40, Some(41), "/up", "https://u", 0, "bot", "user", false);
    let id = add_file_task(&mut session, &mut aborters, task, &keys);
    assert_eq!(id, 1);
    assert_eq!(session.count(&TaskFilter::Status(TaskStatus::Waiting)), 1);
    assert_eq!(aborters.remove((-100, 41)).unwrap().id, 1);
    let other = aborters.remove((-100, 40)).unwrap();
    assert_eq!(other.id, 1);
    assert_eq!(other.filename(), "a.txt");
    assert_eq!(other.message_id, 41);
}
