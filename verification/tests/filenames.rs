use telegram_onedrive::filename::{
    get_ext, get_filename, get_filename_from_cd, get_filename_from_url, get_tg_document_name_and_id, get_tg_file_size,
    guess_exts, header_text, preprocess_tg_file_name, preprocess_url_file_name, validate_filename, validate_root_path,
    FilenameError, RootPathError, TgDocument, TgMedia,
};

fn cd(s: &str) -> Option<Vec<u8>> {
    Some(s.as_bytes().to_vec())
}

#[test]
fn filename_validation() {
    assert!(validate_filename("a.txt"));
    assert!(validate_filename("~$report.docx"));
    assert!(!validate_filename(""));
    assert!(!validate_filename("CON"));
    assert!(!validate_filename("desktop.ini"));
    assert!(!validate_filename("a:b"));
    assert!(!validate_filename("a/b"));
    assert!(!validate_filename("what?"));
    assert!(!validate_filename("x|y"));
}

#[test]
fn root_path_must_be_absolute() {
    assert_eq!(validate_root_path("/Videos/from-telegram"), Ok(()));
    assert_eq!(validate_root_path("/"), Ok(()));
    assert_eq!(validate_root_path("Videos"), Err(RootPathError::NotAbsolute));
    assert_eq!(validate_root_path(""), Err(RootPathError::NotAbsolute));
    assert_eq!(RootPathError::NotAbsolute.message(), "directory path should start with /");
}

#[test]
fn extensions() {
    assert_eq!(get_ext("a.tar.gz"), "gz");
    assert_eq!(get_ext("noext"), "");
    assert_eq!(get_ext(".hidden"), "hidden");
    assert_eq!(get_ext("a."), "");
    assert_eq!(get_ext(""), "");
}

#[test]
fn content_disposition_names() {
    assert_eq!(get_filename_from_cd(&cd("attachment; filename=\"report.pdf\"")), Ok(Some("report.pdf".to_string())));
    assert_eq!(get_filename_from_cd(&cd("attachment; filename='a b.txt'")), Ok(Some("a b.txt".to_string())));
    assert_eq!(get_filename_from_cd(&cd("attachment; filename= x.bin ")), Ok(Some("x.bin".to_string())));
    assert_eq!(get_filename_from_cd(&cd("attachment")), Ok(None));
    assert_eq!(get_filename_from_cd(&cd("attachment; filename=")), Ok(None));
    assert_eq!(get_filename_from_cd(&None), Ok(None));
    assert_eq!(get_filename_from_cd(&Some(vec![b'a', 0x80])), Err(FilenameError::ContentDispositionNotVisible));
}

#[test]
fn url_names() {
    assert_eq!(get_filename_from_url("https://example.com/files/file.txt"), Ok(Some("file.txt".to_string())));
    assert_eq!(get_filename_from_url("https://example.com/dl?name=Report.PDF"), Ok(Some("report.pdf".to_string())));
    assert_eq!(get_filename_from_url("https://example.com/dl?id=3&filename=A.zip"), Ok(Some("a.zip".to_string())));
    assert_eq!(get_filename_from_url("https://example.com/"), Ok(None));
    assert_eq!(get_filename_from_url("not a url"), Err(FilenameError::UrlNotParsed));
    assert_eq!(FilenameError::UrlNotParsed.message(), "failed to parse url");
}

#[test]
fn guessed_extensions() {
    assert_eq!(guess_exts("image/png"), vec!["png", "pnz"]);
    assert_eq!(guess_exts("image/png; q=1"), vec!["png", "pnz"]);
    assert!(guess_exts(" text/plain; charset=utf-8 ").contains(&"txt".to_string()));
    assert_eq!(guess_exts("application/x-nothing-known"), Vec::<String>::new());
}

#[test]
fn url_file_name_cleaning() {
    assert_eq!(preprocess_url_file_name("  ~$~$report.txt ", 5), "report.txt");
    assert_eq!(preprocess_url_file_name("a:b.txt", 1700000000), "1700000000.txt");
    assert_eq!(preprocess_url_file_name("CON", 7), "7");
    assert_eq!(preprocess_url_file_name("", 7), "7");
}

#[test]
fn get_filename_from_a_response() {
    let ts = 1700000000;
    assert_eq!(get_filename("https://example.com/f", false, &None, &None, "/", ts), Err(FilenameError::FileNotFound));
    // the name of the URL, with the extension of the media type added
    assert_eq!(get_filename("https://example.com/pic", true, &None, &cd("image/png"), "/", ts), Ok("pic.png".to_string()));
    // a name that has a known extension of the type keeps it
    assert_eq!(get_filename("https://example.com/pic.png", true, &None, &cd("image/png"), "/", ts), Ok("pic.png".to_string()));
    // no name: the timestamp, with the type's extension
    assert_eq!(get_filename("https://example.com/", true, &None, &cd("image/png"), "/", ts), Ok("1700000000.png".to_string()));
    assert_eq!(get_filename("https://example.com/", true, &None, &None, "/", ts), Ok("1700000000".to_string()));
    // the Content-Disposition name comes first
    assert_eq!(
        get_filename("https://example.com/other", true, &cd("attachment; filename=\"doc.bin\""), &None, "/", ts),
        Ok("doc.bin".to_string())
    );
    // percent-encoded names are decoded
    assert_eq!(get_filename("https://example.com/my%20file.txt", true, &None, &None, "/", ts), Ok("my file.txt".to_string()));
    // an invalid name is replaced by the timestamp
    assert_eq!(
        get_filename("https://example.com/x", true, &cd("attachment; filename=a:b.txt"), &None, "/", ts),
        Ok("1700000000.txt".to_string())
    );
    assert_eq!(
        get_filename("https://example.com/x", true, &None, &Some(vec![0x01]), "/", ts),
        Err(FilenameError::ContentTypeNotVisible)
    );
    assert_eq!(get_filename("::", true, &None, &None, "/", ts), Err(FilenameError::UrlNotParsed));
}

#[test]
fn too_long_names_become_timestamps() {
    let root = format!("/{}", "d".repeat(399));
    let ts = 42;
    assert_eq!(get_filename("https://example.com/abc", true, &None, &None, &root, ts), Ok("42".to_string()));
    assert_eq!(get_filename("https://example.com/abc.png", true, &None, &cd("image/png"), &root, ts), Ok("42.png".to_string()));
    assert_eq!(get_filename("https://example.com/abc", true, &None, &cd("image/png"), &root, ts), Ok("abc.png".to_string()));
}

#[test]
fn header_text_needs_visible_ascii() {
    assert_eq!(header_text(&b"text/html\tx".to_vec()), Some("text/html\tx".chars().collect()));
    assert_eq!(header_text(&vec![0x7f]), None);
    assert_eq!(header_text(&vec![]), Some(vec![]));
}

fn doc(name: &str, id: i64, mime: Option<&str>, size: i64) -> TgDocument {
    TgDocument { name: name.to_string(), id, mime_type: mime.map(|m| m.to_string()), size }
}

#[test]
fn telegram_file_names() {
    assert_eq!(preprocess_tg_file_name(&TgMedia::Photo { id: 42, size: 100 }), "42.jpg");
    assert_eq!(preprocess_tg_file_name(&TgMedia::Document(doc("a.txt", 1, None, 5))), "a.txt");
    assert_eq!(preprocess_tg_file_name(&TgMedia::Document(doc(" ~$a.txt ", 1, None, 5))), "a.txt");
    assert_eq!(preprocess_tg_file_name(&TgMedia::Document(doc("x<y.txt", 9, None, 5))), "9.txt");
    assert_eq!(preprocess_tg_file_name(&TgMedia::Document(doc("", 7, Some("image/png"), 5))), "7.png");
    assert_eq!(preprocess_tg_file_name(&TgMedia::Sticker(doc("s.webp", 3, None, 5))), "s.webp");
    assert_eq!(get_tg_document_name_and_id(&doc("", 7, Some("image/png"), 5)), ("7.png".to_string(), 7));
    assert_eq!(get_tg_document_name_and_id(&doc("", 8, Some("application/x-nothing-known"), 5)), ("8".to_string(), 8));
    assert_eq!(get_tg_document_name_and_id(&doc("", 8, None, 5)), ("".to_string(), 8));
    assert_eq!(preprocess_tg_file_name(&TgMedia::Document(doc("", 8, None, 5))), "8.");
    assert_eq!(preprocess_tg_file_name(&TgMedia::Other), "0.");
}

#[test]
fn telegram_file_sizes() {
    assert_eq!(get_tg_file_size(&TgMedia::Photo { id: 1, size: 100 }), 100);
    assert_eq!(get_tg_file_size(&TgMedia::Document(doc("a", 1, None, 2048))), 2048);
    assert_eq!(get_tg_file_size(&TgMedia::Sticker(doc("a", 1, None, 7))), 7);
    assert_eq!(get_tg_file_size(&TgMedia::Other), 0);
}
