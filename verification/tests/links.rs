use telegram_onedrive::handlers::links::{
    link_count, link_indicator_response, linked_messages, links_command, not_found_response, LinksCommand, LinksError,
};
use telegram_onedrive::message_link::{
    format_message_link, get_message_info, get_message_link, ChatEntity, ChatRef, MessageInfo, MessageLinkError,
};

#[test]
fn message_info_of_private_link() {
    match get_message_info("https://t.me/c/1234567/89") {
        Ok(MessageInfo { chat_entity: ChatEntity::Id(id), id: message_id }) => {
            assert_eq!(id, 1234567);
            assert_eq!(message_id, 89);
        }
        _ => panic!("expected a private chat id"),
    }
}

#[test]
fn message_info_of_public_link() {
    match get_message_info("https://t.me/somechannel/55") {
        Ok(MessageInfo { chat_entity: ChatEntity::Username(name), id }) => {
            assert_eq!(name, "somechannel");
            assert_eq!(id, 55);
        }
        _ => panic!("expected a username"),
    }
}

#[test]
fn message_info_of_topic_link() {
    match get_message_info("https://t.me/c/123/7/99") {
        Ok(MessageInfo { chat_entity: ChatEntity::Id(id), id: message_id }) => {
            assert_eq!(id, 123);
            assert_eq!(message_id, 99);
        }
        _ => panic!("expected a private chat id"),
    }
}

#[test]
fn message_info_errors() {
    assert!(matches!(get_message_info("http://example.com/1/2"), Err(MessageLinkError::NotAMessageLink)));
    assert!(matches!(get_message_info("https://t.me/c/123"), Err(MessageLinkError::WrongPartCount)));
    assert!(matches!(get_message_info("https://t.me/c/1/2/3/4"), Err(MessageLinkError::WrongPartCount)));
    assert!(matches!(get_message_info("https://t.me/c/abc/5"), Err(MessageLinkError::ChatIdNotNumber)));
    assert!(matches!(get_message_info("https://t.me/c/123/x"), Err(MessageLinkError::MessageIdNotNumber)));
    assert!(matches!(get_message_info("https://t.me/chan/x"), Err(MessageLinkError::MessageIdNotNumber)));
}

#[test]
fn message_links_round_trip() {
    assert_eq!(get_message_link(&ChatEntity::Id(123), 5), "https://t.me/c/123/5");
    assert_eq!(get_message_link(&ChatEntity::Username("chan".to_string()), 6), "https://t.me/chan/6");
    let public = ChatEntity::Chat(ChatRef { id: 1, username: Some("pub".to_string()) });
    assert_eq!(get_message_link(&public, 7), "https://t.me/pub/7");
    let private = ChatEntity::Chat(ChatRef { id: 42, username: None });
    assert_eq!(get_message_link(&private, 8), "https://t.me/c/42/8");
    // a written link reads back to the same chat and message
    match get_message_info(&get_message_link(&ChatEntity::Id(77), 3)) {
        Ok(MessageInfo { chat_entity: ChatEntity::Id(77), id: 3 }) => {}
        _ => panic!("round trip failed"),
    }
}

#[test]
fn anchor_link_to_a_message() {
    assert_eq!(format_message_link(123, 45, "a.txt"), "<a href=\"https://t.me/c/123/45\">a.txt</a>");
    assert_eq!(format_message_link(-100, 1, ""), "<a href=\"https://t.me/c/-100/1\"></a>");
}

#[test]
fn readme_links_example_transfers_two_messages() {
    // `/links https://t.me/c/xxxxxxx/100 2` transfers messages 100 and 101
    let (head, num) = match links_command("/links https://t.me/c/1234567/100 2") {
        LinksCommand::Links(h, n) => (h, n),
        _ => panic!("expected a links command"),
    };
    let info = get_message_info(&head).ok().unwrap();
    let count = link_count(&num).unwrap();
    assert_eq!(count, 2);
    assert_eq!(
        linked_messages(&info.chat_entity, info.id, count),
        vec!["https://t.me/c/1234567/100", "https://t.me/c/1234567/101"]
    );
}

#[test]
fn links_command_forms() {
    assert!(matches!(links_command("/links help"), LinksCommand::Help));
    assert!(matches!(links_command("/links"), LinksCommand::Unknown));
    assert!(matches!(links_command("/links a"), LinksCommand::Unknown));
    assert!(matches!(links_command("/links a b c"), LinksCommand::Unknown));
    assert_eq!(link_count("x"), Err(LinksError::CountNotInteger));
    assert_eq!(link_count("-1"), Err(LinksError::CountNotInteger));
    assert_eq!(LinksError::CountNotInteger.message(), "failed to parse link number");
    assert_eq!(linked_messages(&ChatEntity::Username("c".to_string()), 5, 0), Vec::<String>::new());
}

#[test]
fn link_answers() {
    assert_eq!(not_found_response("https://t.me/c/1/2"), "message https://t.me/c/1/2 not found");
    assert_eq!(
        link_indicator_response("https://t.me/c/9/8", 9, 31, "f.pdf"),
        "https://t.me/c/9/8\n\n<a href=\"https://t.me/c/9/31\">f.pdf</a>"
    );
}

#[test]
fn public_links_read_back() {
    let link = get_message_link(&ChatEntity::Username("somechannel".to_string()), 12);
    match get_message_info(&link) {
        Ok(MessageInfo { chat_entity: ChatEntity::Username(u), id: 12 }) => assert_eq!(u, "somechannel"),
        _ => panic!("round trip failed"),
    }
    // the username `c` makes a private link, which does not read back
    let link = get_message_link(&ChatEntity::Username("c".to_string()), 12);
    assert!(matches!(get_message_info(&link), Err(MessageLinkError::WrongPartCount)));
    let link = get_message_link(&ChatEntity::Id(-1001234567890), -5);
    assert!(matches!(get_message_info(&link), Ok(MessageInfo { chat_entity: ChatEntity::Id(-1001234567890), id: -5 })));
}
