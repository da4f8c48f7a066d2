use telegram_onedrive::tasker::session::{TaskFilter, TaskSession};
use telegram_onedrive::tasker::tasks::{CmdType, InsertTask, Model};
use telegram_onedrive::tasker::transfer::{
    advance, chunk_batches, download_should_retry, part_range, tg_source, upload_step, uploaded_name, url_part_full,
    url_source, TransferError, UploadProgress, UploadStep, MAX_RETRIES, URL_PART_SIZE,
};

fn model(cmd_type: CmdType, url: Option<&str>, origin: Option<&str>, origin_id: Option<i32>) -> Model {
    let mut s = TaskSession::new();
    s.insert_task(InsertTask {
        cmd_type,
        filename: "f".to_string(),
        root_path: "/".to_string(),
        url: url.map(|u| u.to_string()),
        upload_url: "u".to_string(),
        current_length: 0,
        total_length: 10,
        chat_id: 1,
        chat_bot_hex: "bot".to_string(),
        chat_user_hex: "user".to_string(),
        chat_origin_hex: origin.map(|o| o.to_string()),
        message_id: 5,
        message_indicator_id: 6,
        message_origin_id: origin_id,
        auto_delete: false,
    });
    s.find_all(&TaskFilter::All).remove(0)
}

#[test]
fn upload_retries() {
    assert_eq!(upload_step(1, Some(416)), UploadStep::Done);
    assert_eq!(upload_step(5, Some(416)), UploadStep::Done);
    assert_eq!(upload_step(1, Some(500)), UploadStep::Retry);
    assert_eq!(upload_step(4, None), UploadStep::Retry);
    assert_eq!(upload_step(5, None), UploadStep::Fail);
    assert_eq!(upload_step(5, Some(409)), UploadStep::Fail);
    // a part is tried at most MAX_RETRIES times
    let mut tries = 0;
    loop {
        tries += 1;
        if upload_step(tries, Some(503)) != UploadStep::Retry {
            break;
        }
    }
    assert_eq!(tries, MAX_RETRIES);
}

#[test]
fn download_retries() {
    assert!(download_should_retry(0));
    assert!(download_should_retry(5));
    assert!(!download_should_retry(6));
}

#[test]
fn ranges_and_progress() {
    assert_eq!(part_range(10, 5), (10, 15));
    assert_eq!(part_range(0, 0), (0, 0));
    assert!(url_part_full(URL_PART_SIZE));
    assert!(url_part_full(3276801));
    assert!(!url_part_full(3276799));
    assert_eq!(advance(10, 5, 15), (15, true));
    assert_eq!(advance(10, 5, 16), (15, false));
    assert_eq!(advance(0, 0, 0), (0, true));
}

#[test]
fn chunks_go_in_batches_of_four() {
    assert_eq!(chunk_batches(0), vec![]);
    assert_eq!(chunk_batches(-3), vec![]);
    assert_eq!(chunk_batches(1), vec![(0, 1)]);
    assert_eq!(chunk_batches(4), vec![(0, 4)]);
    assert_eq!(chunk_batches(5), vec![(0, 4), (4, 5)]);
    assert_eq!(chunk_batches(9), vec![(0, 4), (4, 8), (8, 9)]);
    // every chunk is in exactly one batch, in order
    for total in 1..40 {
        let batches = chunk_batches(total);
        let mut next = 0;
        for (start, end) in batches {
            assert_eq!(start, next);
            assert!(end > start && end - start <= 4);
            next = end;
        }
        assert_eq!(next, total);
    }
}

#[test]
fn sources_of_files() {
    assert_eq!(tg_source(&model(CmdType::File, None, None, None)), Ok(("user".to_string(), 5)));
    assert_eq!(tg_source(&model(CmdType::Link, None, Some("origin"), Some(44))), Ok(("origin".to_string(), 44)));
    assert_eq!(tg_source(&model(CmdType::Link, None, None, Some(44))), Err(TransferError::OriginChatMissing));
    assert_eq!(tg_source(&model(CmdType::Link, None, Some("o"), None)), Err(TransferError::OriginMessageMissing));
    assert_eq!(tg_source(&model(CmdType::Url, Some("https://x"), None, None)), Err(TransferError::InvalidCmdType));
    assert_eq!(url_source(&model(CmdType::Url, Some("https://x/a"), None, None)), Ok("https://x/a".to_string()));
    assert_eq!(url_source(&model(CmdType::Url, None, None, None)), Err(TransferError::UrlMissing));
    assert_eq!(TransferError::UrlMissing.message(), "url is none");
    assert_eq!(TransferError::InvalidCmdType.message(), "invalid cmd type");
}

#[test]
fn names_of_uploaded_files() {
    assert_eq!(uploaded_name(Some(Some("a.txt".to_string()))), Ok("a.txt".to_string()));
    assert_eq!(uploaded_name(Some(None)), Err(TransferError::DriveItemNameMissing));
    assert_eq!(uploaded_name(None), Err(TransferError::DriveItemMissing));
    assert_eq!(TransferError::DriveItemMissing.message(), "failed to get drive item after upload");
    assert_eq!(TransferError::DriveItemNameMissing.message(), "drive item name not found");
}

#[test]
fn uploads_go_up_in_contiguous_parts() {
    let mut p = UploadProgress::new(0, 10);
    assert_eq!(p.next_range(4), (0, 4));
    assert!(!p.record_part(4, None));
    assert_eq!(p.next_range(4), (4, 8));
    assert!(!p.record_part(4, Some(None)));
    assert_eq!(p.next_range(2), (8, 10));
    assert!(p.record_part(2, Some(Some("f.bin".to_string()))));
    assert_eq!(p.current_length, 10);
    assert_eq!(p.uploaded_name(), Ok("f.bin".to_string()));
    let q = UploadProgress::new(3, 3);
    assert_eq!(q.uploaded_name(), Err(TransferError::DriveItemMissing));
}
