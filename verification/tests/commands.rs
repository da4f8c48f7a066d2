use telegram_onedrive::command::{cmd_parser, purify_text, words_of, TextExt};
use telegram_onedrive::decimal::{i32_to_dec, i64_to_dec, parse_i32, parse_i64, parse_u64, parse_usize, u64_to_dec, usize_to_dec};
use telegram_onedrive::docs::{format_help, format_unknown_command_help, HELP_DIR, HELP_DRIVE, HELP_LINKS, HELP_LOGS, HELP_URL, GREETING};

fn chars(s: &str) -> Vec<char> {
    s.chars().collect()
}

fn text(v: Vec<char>) -> String {
    v.into_iter().collect()
}

#[test]
fn cmd_parser_splits_words() {
    assert_eq!(cmd_parser("/dir temp /files"), vec!["/dir", "temp", "/files"]);
    assert_eq!(
        cmd_parser("  /links   https://t.me/c/123/4\t2 \n"),
        vec!["/links", "https://t.me/c/123/4", "2"]
    );
    assert_eq!(cmd_parser(""), Vec::<String>::new());
    assert_eq!(cmd_parser("   "), Vec::<String>::new());
}

#[test]
fn cmd_parser_drops_markup() {
    assert_eq!(cmd_parser("<b>/url</b> <code>https://example.com/a.txt</code>"), vec!["/url", "https://example.com/a.txt"]);
    assert_eq!(cmd_parser("*/dir* `reset`"), vec!["/dir", "reset"]);
}

#[test]
fn purify_removes_telegram_markup() {
    assert_eq!(purify_text("  *bold* `code` ~gone~ "), "bold code gone");
    assert_eq!(purify_text("<i>a</i><em>b</em><u>c</u><s>d</s><strike>e</strike><del>f</del>"), "abcdef");
    assert_eq!(purify_text("<strong>x</strong>"), "x");
    assert_eq!(purify_text("plain text"), "plain text");
}

#[test]
fn purify_removes_pre_tags() {
    // the opening tag, with its attributes, goes by the pattern; the closing one by name
    assert_eq!(purify_text("<pre language=\"rust\">/url a</pre>"), "/url a");
    assert_eq!(purify_text("<pre>x</pre> <pre>y</pre>"), "x y");
}

#[test]
fn text_ext_on_str_and_string() {
    let s: &str = " <b>/drive</b> ";
    assert_eq!(s.purify(), "/drive");
    let owned = String::from("<code>/logs</code>");
    assert_eq!(owned.purify(), "/logs");
}

#[test]
fn words_of_splits_on_any_whitespace() {
    assert_eq!(words_of("a  b\tc\nd"), vec!["a", "b", "c", "d"]);
    assert_eq!(words_of(" single "), vec!["single"]);
}

#[test]
fn help_texts() {
    assert_eq!(format_help("/dir"), HELP_DIR);
    assert_eq!(format_help("/drive"), HELP_DRIVE);
    assert_eq!(format_help("/links"), HELP_LINKS);
    assert_eq!(format_help("/url"), HELP_URL);
    assert_eq!(format_help("/logs"), HELP_LOGS);
    assert_eq!(format_help("/start"), GREETING);
    assert_eq!(format_help("/unknown"), "");
    let all = format_help("/help");
    assert!(all.contains(HELP_LINKS) && all.contains(HELP_DIR));
}

#[test]
fn unknown_command_help_gives_usage() {
    assert_eq!(
        format_unknown_command_help("/url"),
        format!("Unknown command for /url\n\nUsage:\n{}", HELP_URL)
    );
    assert_eq!(format_unknown_command_help("/nothing"), "Unknown command for /nothing\n\nUsage:\n");
}

#[test]
fn decimal_writing() {
    assert_eq!(text(u64_to_dec(0)), "0");
    assert_eq!(text(u64_to_dec(18446744073709551615)), "18446744073709551615");
    assert_eq!(text(i64_to_dec(-9223372036854775808)), "-9223372036854775808");
    assert_eq!(text(i64_to_dec(-1001234567890)), "-1001234567890");
    assert_eq!(text(i32_to_dec(2147483647)), "2147483647");
    assert_eq!(text(usize_to_dec(42)), "42");
}

#[test]
fn decimal_parsing_follows_str_parse() {
    assert_eq!(parse_i64(&chars("123")), Some(123));
    assert_eq!(parse_i64(&chars("+12")), Some(12));
    assert_eq!(parse_i64(&chars("-0")), Some(0));
    assert_eq!(parse_i64(&chars("-9223372036854775808")), Some(i64::MIN));
    assert_eq!(parse_i64(&chars("9223372036854775808")), None);
    assert_eq!(parse_i64(&chars("")), None);
    assert_eq!(parse_i64(&chars("-")), None);
    assert_eq!(parse_i64(&chars("12a")), None);
    assert_eq!(parse_i64(&chars(" 1")), None);
    assert_eq!(parse_i32(&chars("2147483648")), None);
    assert_eq!(parse_i32(&chars("-2147483648")), Some(i32::MIN));
    assert_eq!(parse_u64(&chars("-1")), None);
    assert_eq!(parse_u64(&chars("+7")), Some(7));
    assert_eq!(parse_usize(&chars("10")), Some(10));
    for s in ["0", "17", "+3", "-5", "x", "", "99999999999999999999"] {
        assert_eq!(parse_i64(&chars(s)), s.parse::<i64>().ok(), "{}", s);
        assert_eq!(parse_u64(&chars(s)), s.parse::<u64>().ok(), "{}", s);
    }
}

#[test]
fn command_words_hold_no_markup_characters() {
    for text in ["/dir *a*", "`/url` ~x~ y", "*/links* a*b 2", "<pre>*x*</pre>"] {
        for w in cmd_parser(text) {
            assert!(!w.is_empty());
            assert!(!w.contains('*') && !w.contains('`') && !w.contains('~') && !w.contains(char::is_whitespace), "{}", w);
        }
    }
}
