use telegram_onedrive::listener::events::EventType;
use telegram_onedrive::listener::handler::{
    batch_line_detail, batch_lines, batch_script, route_message, route_text, BatchError, MediaKind, Route,
};

fn names() -> Vec<String> {
    vec!["/dir".to_string(), "/drive".to_string(), "/links".to_string(), "/url".to_string()]
}

#[test]
fn event_names() {
    assert_eq!(EventType::command("/dir").to_str(), "/dir");
    assert_eq!(EventType::text().to_str(), "__TEXT__");
    assert_eq!(EventType::media().to_string(), "__MEDIA__");
    assert!(matches!(EventType::from_name(&"__TEXT__".to_string()), EventType::Text));
    assert!(matches!(EventType::from_name(&"__MEDIA__".to_string()), EventType::Media));
    match EventType::from_name(&"/url".to_string()) {
        EventType::Command(c) => assert_eq!(c, "/url"),
        _ => panic!("expected a command"),
    }
    // a name read back gives the same event
    let e = EventType::command("/logs");
    assert_eq!(EventType::from_name(&e.to_string()).to_str(), "/logs");
}

#[test]
fn text_routes() {
    assert_eq!(route_text("/dir temp /x", &names()), Route::Command(0));
    assert_eq!(route_text("/drive logout", &names()), Route::Command(1));
    assert_eq!(route_text("/links https://t.me/c/1/2 3", &names()), Route::Command(2));
    assert_eq!(route_text("/unknown", &names()), Route::UnknownCommand);
    assert_eq!(route_text("https://t.me/c/1/2", &names()), Route::Text);
    assert_eq!(route_text("   ", &names()), Route::Empty);
    assert_eq!(route_text("", &names()), Route::Empty);
    // a name is matched as a prefix of the untrimmed text
    assert_eq!(route_text("/dirx", &names()), Route::Command(0));
    assert_eq!(route_text(" /dir", &names()), Route::UnknownCommand);
}

#[test]
fn message_routes() {
    assert_eq!(route_message(&Some(MediaKind::Document("Script.T2O".to_string())), "", &names()), Route::Batch);
    assert_eq!(route_message(&Some(MediaKind::Document("run.t2o".to_string())), "", &names()), Route::Batch);
    assert_eq!(route_message(&Some(MediaKind::Document("a.txt".to_string())), "", &names()), Route::Media);
    assert_eq!(route_message(&Some(MediaKind::Photo), "", &names()), Route::Media);
    assert_eq!(route_message(&Some(MediaKind::Sticker), "", &names()), Route::Media);
    assert_eq!(route_message(&Some(MediaKind::Other), "/dir", &names()), Route::Unsupported);
    assert_eq!(route_message(&Some(MediaKind::WebPage), "https://t.me/c/1/2", &names()), Route::Text);
    assert_eq!(route_message(&None, "/url x", &names()), Route::Command(3));
}

#[test]
fn batch_scripts() {
    assert_eq!(batch_lines("  /dir a\n/url b\n"), vec!["/dir a", "/url b"]);
    assert_eq!(batch_lines("/links x 2"), vec!["/links x 2"]);
    assert_eq!(batch_lines("a\n\nb"), vec!["a", "", "b"]);
    assert_eq!(batch_lines(""), vec![""]);
    assert_eq!(batch_line_detail(0, "/dir a"), "line 1: /dir a");
    assert_eq!(batch_line_detail(9, "x"), "line 10: x");
}

#[test]
fn batch_scripts_from_bytes() {
    assert_eq!(batch_script(b" /dir a\n/url b \n"), Ok(vec!["/dir a".to_string(), "/url b".to_string()]));
    assert_eq!(batch_script("/dir /Vidéos".as_bytes()), Ok(vec!["/dir /Vidéos".to_string()]));
    assert_eq!(batch_script(&[b'/', 0xff, b'a']), Err(BatchError::NotUtf8));
    assert_eq!(batch_script(&[0xc3]), Err(BatchError::NotUtf8));
    assert_eq!(BatchError::NotUtf8.message(), "failed to parse batch");
}
