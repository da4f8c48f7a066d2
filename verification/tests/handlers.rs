use telegram_onedrive::filename::{TgDocument, TgMedia};
use telegram_onedrive::handlers::dir::{
    cancel_temp_dir_response, dir_command, reset_dir_response, set_dir_response, set_temp_dir_response,
    show_dir_response, DirCommand,
};
use telegram_onedrive::handlers::drive::{
    account_index, current_account, drive_command, logout_response, select_account, set_drive_response,
    show_drive_response, DriveCommand, DriveError,
};
use telegram_onedrive::handlers::misc::{
    deletable_ids, logs_command, sender_allowed, task_kind_of_media, toggle_auto_delete, version_response, LogsCommand, MediaError,
};
use telegram_onedrive::handlers::url::{check_http_url, content_length, url_command, UrlCommand, UrlError};
use telegram_onedrive::tasker::tasks::CmdType;

#[test]
fn dir_commands() {
    assert!(matches!(dir_command("/dir"), DirCommand::Show));
    assert!(matches!(dir_command("/dir reset"), DirCommand::Reset));
    assert!(matches!(dir_command("/dir help"), DirCommand::Help));
    assert!(matches!(dir_command("/dir /Videos"), DirCommand::SetPath(p) if p == "/Videos"));
    assert!(matches!(dir_command("/dir temp cancel"), DirCommand::TempCancel));
    assert!(matches!(dir_command("/dir temp /files"), DirCommand::TempSet(p) if p == "/files"));
    assert!(matches!(dir_command("/dir other /files"), DirCommand::SubCommandError));
    assert!(matches!(dir_command("/dir a b c"), DirCommand::CommandError));
    assert!(matches!(dir_command("<b>/dir</b> <code>reset</code>"), DirCommand::Reset));
}

#[test]
fn dir_answers() {
    assert_eq!(show_dir_response("/a", false), "Current directory is /a");
    assert_eq!(show_dir_response("/tmp", true), "Current directory is /tmp, and it's temporary.");
    assert_eq!(reset_dir_response("/"), "Directory reset to default /");
    assert_eq!(set_dir_response("/b"), "Directory set to /b");
    assert_eq!(cancel_temp_dir_response("/a"), "Temporary directory canceled.\nCurrent directory is /a");
    assert_eq!(set_temp_dir_response("/files"), "Temporary directory set to /files");
}

#[test]
fn drive_commands() {
    assert!(matches!(drive_command("/drive"), DriveCommand::Show));
    assert!(matches!(drive_command("/drive add"), DriveCommand::Add));
    assert!(matches!(drive_command("/drive logout"), DriveCommand::LogoutCurrent));
    assert!(matches!(drive_command("/drive help"), DriveCommand::Help));
    assert!(matches!(drive_command("/drive 2"), DriveCommand::Select(w) if w == "2"));
    assert!(matches!(drive_command("/drive logout 3"), DriveCommand::LogoutIndex(w) if w == "3"));
    assert!(matches!(drive_command("/drive x 3"), DriveCommand::SubCommandError));
    assert!(matches!(drive_command("/drive a b c"), DriveCommand::CommandError));
}

#[test]
fn drive_indexes_count_from_one() {
    assert_eq!(account_index("1"), Ok(0));
    assert_eq!(account_index("+2"), Ok(1));
    assert_eq!(account_index("0"), Ok(usize::MAX));
    assert_eq!(account_index("x"), Err(DriveError::IndexNotInteger));
    assert_eq!(account_index("-1"), Err(DriveError::IndexNotInteger));
    let users = vec!["a@x".to_string(), "b@x".to_string()];
    assert_eq!(select_account(&users, 1), Ok("b@x".to_string()));
    assert_eq!(select_account(&users, 2), Err(DriveError::IndexOutOfRange));
    assert_eq!(select_account(&users, account_index("0").unwrap()), Err(DriveError::IndexOutOfRange));
    assert_eq!(current_account(&Some("a@x".to_string())), Ok("a@x".to_string()));
    assert_eq!(current_account(&None), Err(DriveError::NotLoggedIn));
    assert_eq!(DriveError::IndexNotInteger.message(), "account index should be integer");
    assert_eq!(DriveError::NotLoggedIn.message(), "no onedrive account is logged in");
    assert_eq!(DriveError::IndexOutOfRange.message(), "account index out of range");
}

#[test]
fn drive_answers() {
    let users = vec!["a@x".to_string(), "b@x".to_string(), "c@x".to_string()];
    assert_eq!(
        show_drive_response(&users, &Some("b@x".to_string())),
        "1. a@x\n2. b@x\n3. c@x\n\nCurrent account is b@x"
    );
    assert_eq!(show_drive_response(&vec!["a@x".to_string()], &Some("a@x".to_string())), "Current account is a@x");
    assert_eq!(show_drive_response(&vec![], &Some("a@x".to_string())), "No account found.");
    assert_eq!(show_drive_response(&users, &None), "No account found.");
    assert_eq!(
        logout_response("a@x", &Some("b@x".to_string())),
        "OneDrive account a@x logged out successfully.\n\nCurrent account is b@x"
    );
    assert_eq!(logout_response("a@x", &None), "OneDrive account a@x logged out successfully.");
    assert_eq!(set_drive_response("a@x", "a@x"), "Same account, nothing to change.");
    assert_eq!(set_drive_response("a@x", "b@x"), "Changed account from\na@x\nto\nb@x");
}

#[test]
fn url_commands() {
    assert!(matches!(url_command("/url https://example.com/file.txt"), UrlCommand::Fetch(u) if u == "https://example.com/file.txt"));
    assert!(matches!(url_command("/url help"), UrlCommand::Help));
    assert!(matches!(url_command("/url"), UrlCommand::Unknown));
    assert!(matches!(url_command("/url a b"), UrlCommand::Unknown));
    assert_eq!(check_http_url("https://example.com/file.txt"), Ok(()));
    assert_eq!(check_http_url("http://example.com"), Ok(()));
    assert_eq!(check_http_url("ftp://example.com"), Err(UrlError::NotHttp));
    assert_eq!(check_http_url("HTTP://example.com"), Err(UrlError::NotHttp));
    assert_eq!(UrlError::NotHttp.message(), "not an http url");
}

#[test]
fn content_lengths() {
    assert_eq!(content_length(&Some(b"123".to_vec())), Ok(123));
    assert_eq!(content_length(&Some(b"0".to_vec())), Ok(0));
    assert_eq!(content_length(&None), Err(UrlError::ContentLengthMissing));
    assert_eq!(content_length(&Some(b"12a".to_vec())), Err(UrlError::ContentLengthNotNumber));
    assert_eq!(content_length(&Some(b"-1".to_vec())), Err(UrlError::ContentLengthNotNumber));
    assert_eq!(content_length(&Some(vec![0x7f])), Err(UrlError::ContentLengthNotVisible));
    assert_eq!(UrlError::ContentLengthNotNumber.message(), "failed to parse header Content-Length to u64");
}

#[test]
fn auto_delete_toggles() {
    assert_eq!(toggle_auto_delete(true), (false, "Bot won't auto delete message."));
    assert_eq!(toggle_auto_delete(false), (true, "Bot will auto delete message."));
    let (on, _) = toggle_auto_delete(false);
    let (back, _) = toggle_auto_delete(on);
    assert!(!back);
}

#[test]
fn clear_keeps_the_service_message() {
    assert_eq!(deletable_ids(&vec![5, 4, 3, 2, 1]), vec![5, 4, 3, 2]);
    assert_eq!(deletable_ids(&vec![1]), Vec::<i32>::new());
    assert_eq!(deletable_ids(&vec![]), Vec::<i32>::new());
}

#[test]
fn logs_commands() {
    assert_eq!(logs_command("/logs"), LogsCommand::Send);
    assert_eq!(logs_command("/logs clear"), LogsCommand::Clear);
    assert_eq!(logs_command("/logs help"), LogsCommand::Help);
    assert_eq!(logs_command("/logs other"), LogsCommand::Other);
    assert_eq!(logs_command("/logs clear now"), LogsCommand::Other);
}

#[test]
fn version_text() {
    assert_eq!(version_response("telegram-onedrive", "1.0.0", "L-ING"), "telegram-onedrive v1.0.0 by L-ING");
}

#[test]
fn media_become_tasks() {
    let doc = TgDocument { name: "a".to_string(), id: 1, mime_type: None, size: 1 };
    assert_eq!(task_kind_of_media(&Some(TgMedia::Photo { id: 1, size: 1 }), false), Ok(CmdType::File));
    assert_eq!(task_kind_of_media(&Some(TgMedia::Document(doc)), true), Ok(CmdType::Link));
    assert_eq!(task_kind_of_media(&Some(TgMedia::Other), false), Err(MediaError::UnsupportedMedia));
    assert_eq!(task_kind_of_media(&None, true), Err(MediaError::NoMedia));
    assert_eq!(MediaError::UnsupportedMedia.message(), "media type is not one of photo, document and sticker");
}

#[test]
fn who_may_give_commands() {
    let users = vec!["alice".to_string(), "bob".to_string()];
    assert!(sender_allowed(&users, &Some("bob".to_string())));
    assert!(!sender_allowed(&users, &Some("eve".to_string())));
    assert!(sender_allowed(&users, &None));
    assert!(sender_allowed(&vec![], &Some("eve".to_string())));
}
