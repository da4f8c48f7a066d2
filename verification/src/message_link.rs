//! Telegram messages: reading a chat and a message id out of a link, writing links, and
//! how a queued message is sent.
use crate::decimal::{
    digit_value, i32_to_dec, i64_to_dec, int_to_dec, lemma_int_to_dec_avoids, lemma_int_to_dec_parses,
    parse_i32, parse_i64, parse_in_range,
};
use crate::text::{
    append_chars, append_str, chars_of, copy_chars, has_prefix, slice_chars, split_chars,
    split_on, starts_with_chars, string_from_chars, lemma_split_two, lemma_split_three,
};
use vstd::prelude::*;

verus! {

/// What the logic reads of a Telegram chat: its id and, for a public chat, its username.
pub struct ChatRef {
    pub id: i64,
    pub username: Option<String>,
}

/// The ways a chat is named: a chat already looked up, the id of a private chat,
/// or the username of a public one.
pub enum ChatEntity {
    Chat(ChatRef),
    Id(i64),
    Username(String),
}

/// A chat entity as plain values.
pub enum ChatEntityView {
    Chat(int, Option<Seq<char>>),
    Id(int),
    Username(Seq<char>),
}

/// The view of an optional string.
pub open spec fn opt_view(s: Option<String>) -> Option<Seq<char>> {
    match s {
        Some(t) => Some(t@),
        None => None,
    }
}

impl View for ChatEntity {
    type V = ChatEntityView;

    open spec fn view(&self) -> ChatEntityView {
        match self {
            ChatEntity::Chat(c) => ChatEntityView::Chat(c.id as int, opt_view(c.username)),
            ChatEntity::Id(id) => ChatEntityView::Id(*id as int),
            ChatEntity::Username(u) => ChatEntityView::Username(u@),
        }
    }
}

impl ChatEntity {
    /// The entity of a chat already looked up.
    pub fn from_chat(chat: ChatRef) -> (r: Self)
        ensures
            r@ == ChatEntityView::Chat(chat.id as int, opt_view(chat.username)),
    {
        ChatEntity::Chat(chat)
    }

    /// The entity of a private chat, by id.
    pub fn from_id(id: i64) -> (r: Self)
        ensures
            r@ == ChatEntityView::Id(id as int),
    {
        ChatEntity::Id(id)
    }

    /// The entity of a public chat, by username.
    pub fn from_username(username: String) -> (r: Self)
        ensures
            r@ == ChatEntityView::Username(username@),
    {
        ChatEntity::Username(username)
    }
}

/// A chat and a message in it.
pub struct MessageInfo {
    pub chat_entity: ChatEntity,
    pub id: i32,
}

impl MessageInfo {
    /// The message `id` of the chat `chat_entity`.
    pub fn new(chat_entity: ChatEntity, id: i32) -> (r: Self)
        ensures
            r.chat_entity == chat_entity,
            r.id == id,
    {
        MessageInfo { chat_entity, id }
    }
}

/// Why a text is not a message link.
#[derive(Clone, Copy, Debug, PartialEq, Eq, Structural)]
pub enum MessageLinkError {
    /// It starts neither with `https://t.me/c/` nor with `https://t.me/`.
    NotAMessageLink,
    /// The part after the prefix is not `chat/message` or `chat/topic/message`.
    WrongPartCount,
    /// The chat of a private link is not an `i64`.
    ChatIdNotNumber,
    /// The message id is not an `i32`.
    MessageIdNotNumber,
}

/// The text of each message link error.
pub open spec fn message_link_error_text(e: MessageLinkError) -> Seq<char> {
    match e {
        MessageLinkError::NotAMessageLink => "not a message link"@,
        MessageLinkError::WrongPartCount => "message info doesn't contain 2 elements"@,
        MessageLinkError::ChatIdNotNumber => "failed to parse chat id"@,
        MessageLinkError::MessageIdNotNumber => "failed to parse message id"@,
    }
}

impl MessageLinkError {
    /// The text that describes the error.
    pub fn message(&self) -> (r: &'static str)
        ensures
            r@ == message_link_error_text(*self),
    {
        match self {
            MessageLinkError::NotAMessageLink => "not a message link",
            MessageLinkError::WrongPartCount => "message info doesn't contain 2 elements",
            MessageLinkError::ChatIdNotNumber => "failed to parse chat id",
            MessageLinkError::MessageIdNotNumber => "failed to parse message id",
        }
    }
}

/// Prefix of a link to a message of a private chat.
pub const PRIVATE_LINK_PREFIX: &'static str = "https://t.me/c/";

/// Prefix of a link to a message of a public chat.
pub const PUBLIC_LINK_PREFIX: &'static str = "https://t.me/";

/// What a message link names: the chat and the message id, or why it names none.
pub open spec fn message_info_result(link: Seq<char>) -> Result<(ChatEntityView, int), MessageLinkError> {
    let private = has_prefix(link, PRIVATE_LINK_PREFIX@);
    if !private && !has_prefix(link, PUBLIC_LINK_PREFIX@) {
        Err(MessageLinkError::NotAMessageLink)
    } else {
        let rest = if private {
            link.skip(PRIVATE_LINK_PREFIX@.len() as int)
        } else {
            link.skip(PUBLIC_LINK_PREFIX@.len() as int)
        };
        let found = split_on(rest, '/');
        if found.len() != 2 && found.len() != 3 {
            Err(MessageLinkError::WrongPartCount)
        } else {
            // a link into a topic holds the topic between chat and message
            let parts = if found.len() == 3 {
                found.remove(1)
            } else {
                found
            };
            let chat: Result<ChatEntityView, MessageLinkError> = if private {
                match parse_in_range(parts[0], true, i64::MIN as int, i64::MAX as int) {
                    Some(id) => Ok(ChatEntityView::Id(id)),
                    None => Err(MessageLinkError::ChatIdNotNumber),
                }
            } else {
                Ok(ChatEntityView::Username(parts[0]))
            };
            match chat {
                Err(e) => Err(e),
                Ok(c) => match parse_in_range(parts[1], true, i32::MIN as int, i32::MAX as int) {
                    Some(id) => Ok((c, id)),
                    None => Err(MessageLinkError::MessageIdNotNumber),
                },
            }
        }
    }
}

/// Reads the chat and the message id out of a Telegram message link.
pub fn get_message_info(link: &str) -> (r: Result<MessageInfo, MessageLinkError>)
    ensures
        match r {
            Ok(info) => message_info_result(link@) == Ok::<(ChatEntityView, int), MessageLinkError>(
                (info.chat_entity@, info.id as int),
            ),
            Err(e) => message_info_result(link@) == Err::<(ChatEntityView, int), MessageLinkError>(
                e,
            ),
        },
{
    let v = chars_of(link);
    let private_prefix = chars_of(PRIVATE_LINK_PREFIX);
    let public_prefix = chars_of(PUBLIC_LINK_PREFIX);
    let private = starts_with_chars(&v, &private_prefix);
    let rest = if private {
        slice_chars(&v, private_prefix.len(), v.len())
    } else if starts_with_chars(&v, &public_prefix) {
        slice_chars(&v, public_prefix.len(), v.len())
    } else {
        return Err(MessageLinkError::NotAMessageLink);
    };
    assert(rest@ =~= (if private {
        link@.skip(PRIVATE_LINK_PREFIX@.len() as int)
    } else {
        link@.skip(PUBLIC_LINK_PREFIX@.len() as int)
    }));
    let mut parts = split_chars(&rest, '/');
    let ghost found = parts@.map_values(|p: Vec<char>| p@);
    if parts.len() != 2 && parts.len() != 3 {
        return Err(MessageLinkError::WrongPartCount);
    }
    if parts.len() == 3 {
        let ghost before = parts@;
        parts.remove(1);
        assert(parts@.map_values(|p: Vec<char>| p@) =~= found.remove(1));
    }
    let ghost chosen = parts@.map_values(|p: Vec<char>| p@);
    assert(chosen[0] == parts@[0]@ && chosen[1] == parts@[1]@);
    let chat_entity = if private {
        match parse_i64(&parts[0]) {
            Some(id) => ChatEntity::Id(id),
            None => {
                return Err(MessageLinkError::ChatIdNotNumber);
            },
        }
    } else {
        ChatEntity::Username(string_from_chars(copy_chars(&parts[0])))
    };
    match parse_i32(&parts[1]) {
        Some(id) => Ok(MessageInfo::new(chat_entity, id)),
        None => Err(MessageLinkError::MessageIdNotNumber),
    }
}

/// The link to message `id` of a chat.
pub open spec fn message_link(chat: ChatEntityView, id: int) -> Seq<char> {
    match chat {
        ChatEntityView::Chat(chat_id, username) => match username {
            Some(u) => PUBLIC_LINK_PREFIX@ + u + "/"@ + int_to_dec(id),
            None => PRIVATE_LINK_PREFIX@ + int_to_dec(chat_id) + "/"@ + int_to_dec(id),
        },
        ChatEntityView::Id(chat_id) => PRIVATE_LINK_PREFIX@ + int_to_dec(chat_id) + "/"@ + int_to_dec(
            id,
        ),
        ChatEntityView::Username(u) => PUBLIC_LINK_PREFIX@ + u + "/"@ + int_to_dec(id),
    }
}

fn private_link(chat_id: i64, id: i32) -> (r: Vec<char>)
    ensures
        r@ == PRIVATE_LINK_PREFIX@ + int_to_dec(chat_id as int) + "/"@ + int_to_dec(id as int),
{
    let mut v: Vec<char> = Vec::new();
    append_str(&mut v, PRIVATE_LINK_PREFIX);
    append_chars(&mut v, &i64_to_dec(chat_id));
    append_str(&mut v, "/");
    append_chars(&mut v, &i32_to_dec(id));
    assert(v@ =~= PRIVATE_LINK_PREFIX@ + int_to_dec(chat_id as int) + "/"@ + int_to_dec(id as int));
    v
}

fn public_link(username: &str, id: i32) -> (r: Vec<char>)
    ensures
        r@ == PUBLIC_LINK_PREFIX@ + username@ + "/"@ + int_to_dec(id as int),
{
    let mut v: Vec<char> = Vec::new();
    append_str(&mut v, PUBLIC_LINK_PREFIX);
    append_str(&mut v, username);
    append_str(&mut v, "/");
    append_chars(&mut v, &i32_to_dec(id));
    assert(v@ =~= PUBLIC_LINK_PREFIX@ + username@ + "/"@ + int_to_dec(id as int));
    v
}

/// The link to message `id` of the chat `chat_entity`.
pub fn get_message_link(chat_entity: &ChatEntity, id: i32) -> (r: String)
    ensures
        r@ == message_link(chat_entity@, id as int),
{
    let v = match chat_entity {
        ChatEntity::Chat(chat) => match &chat.username {
            Some(username) => public_link(username.as_str(), id),
            None => private_link(chat.id, id),
        },
        ChatEntity::Id(chat_id) => private_link(*chat_id, id),
        ChatEntity::Username(username) => public_link(username.as_str(), id),
    };
    string_from_chars(v)
}

/// An HTML link to a message of a private chat, labelled with a file name.
pub open spec fn message_anchor(chat_id: int, message_id: int, filename: Seq<char>) -> Seq<char> {
    "<a href=\""@ + PRIVATE_LINK_PREFIX@ + int_to_dec(chat_id) + "/"@ + int_to_dec(message_id)
        + "\">"@ + filename + "</a>"@
}

/// An HTML link to message `message_id` of the private chat `chat_id`, labelled `filename`.
pub fn format_message_link(chat_id: i64, message_id: i32, filename: &str) -> (r: String)
    ensures
        r@ == message_anchor(chat_id as int, message_id as int, filename@),
{
    let mut v: Vec<char> = Vec::new();
    append_str(&mut v, "<a href=\"");
    append_chars(&mut v, &private_link(chat_id, message_id));
    append_str(&mut v, "\">");
    append_str(&mut v, filename);
    append_str(&mut v, "</a>");
    assert(v@ =~= message_anchor(chat_id as int, message_id as int, filename@));
    string_from_chars(v)
}

/// A link the library writes to a message of a private chat reads back to the same chat
/// and message.
pub proof fn lemma_private_link_round_trip(chat_id: i64, id: i32)
    ensures
        message_info_result(message_link(ChatEntityView::Id(chat_id as int), id as int)) == Ok::<
            (ChatEntityView, int),
            MessageLinkError,
        >((ChatEntityView::Id(chat_id as int), id as int)),
{
    reveal_strlit("/");
    let c = int_to_dec(chat_id as int);
    let m = int_to_dec(id as int);
    let link = PRIVATE_LINK_PREFIX@ + c + "/"@ + m;
    assert(message_link(ChatEntityView::Id(chat_id as int), id as int) == link);
    assert(link.take(PRIVATE_LINK_PREFIX@.len() as int) =~= PRIVATE_LINK_PREFIX@);
    let rest = link.skip(PRIVATE_LINK_PREFIX@.len() as int);
    assert(rest =~= c + seq!['/'] + m);
    assert(digit_value('/') is None);
    lemma_int_to_dec_avoids(chat_id as int, '/');
    lemma_int_to_dec_avoids(id as int, '/');
    lemma_split_two(c, m, '/');
    lemma_int_to_dec_parses(chat_id as int);
    lemma_int_to_dec_parses(id as int);
}

/// A link the library writes to a message of a public chat reads back to the same chat
/// and message, for a username without `/` other than `c` (which would make the link one
/// to a private chat).
pub proof fn lemma_public_link_round_trip(username: Seq<char>, id: i32)
    requires
        !username.contains('/'),
        username != seq!['c'],
    ensures
        message_info_result(message_link(ChatEntityView::Username(username), id as int)) == Ok::<
            (ChatEntityView, int),
            MessageLinkError,
        >((ChatEntityView::Username(username), id as int)),
{
    reveal_strlit("/");
    reveal_strlit("https://t.me/");
    reveal_strlit("https://t.me/c/");
    let m = int_to_dec(id as int);
    let link = PUBLIC_LINK_PREFIX@ + username + "/"@ + m;
    assert(message_link(ChatEntityView::Username(username), id as int) == link);
    assert(link.take(PUBLIC_LINK_PREFIX@.len() as int) =~= PUBLIC_LINK_PREFIX@);
    assert(!has_prefix(link, PRIVATE_LINK_PREFIX@)) by {
        if has_prefix(link, PRIVATE_LINK_PREFIX@) {
            assert(link[13] == PRIVATE_LINK_PREFIX@[13]);
            assert(link[14] == PRIVATE_LINK_PREFIX@[14]);
            if username.len() == 0 {
                assert(link[13] == '/');
            } else if username.len() == 1 {
                assert(link[13] == username[0]);
                assert(username =~= seq!['c']);
            } else {
                assert(link[14] == username[1]);
            }
        }
    }
    let rest = link.skip(PUBLIC_LINK_PREFIX@.len() as int);
    assert(rest =~= username + seq!['/'] + m);
    assert(digit_value('/') is None);
    lemma_int_to_dec_avoids(id as int, '/');
    lemma_split_two(username, m, '/');
    lemma_int_to_dec_parses(id as int);
}

/// A link into a topic of a private chat names the message after the topic: it reads
/// back to the same chat and message as the link without the topic.
pub proof fn lemma_private_topic_link(chat_id: i64, topic: Seq<char>, id: i32)
    requires
        !topic.contains('/'),
    ensures
        message_info_result(
            PRIVATE_LINK_PREFIX@ + int_to_dec(chat_id as int) + "/"@ + topic + "/"@ + int_to_dec(
                id as int,
            ),
        ) == Ok::<(ChatEntityView, int), MessageLinkError>(
            (ChatEntityView::Id(chat_id as int), id as int),
        ),
        message_info_result(
            PRIVATE_LINK_PREFIX@ + int_to_dec(chat_id as int) + "/"@ + topic + "/"@ + int_to_dec(
                id as int,
            ),
        ) == message_info_result(message_link(ChatEntityView::Id(chat_id as int), id as int)),
{
    reveal_strlit("/");
    let c = int_to_dec(chat_id as int);
    let m = int_to_dec(id as int);
    let link = PRIVATE_LINK_PREFIX@ + c + "/"@ + topic + "/"@ + m;
    assert(link.take(PRIVATE_LINK_PREFIX@.len() as int) =~= PRIVATE_LINK_PREFIX@);
    let rest = link.skip(PRIVATE_LINK_PREFIX@.len() as int);
    assert(rest =~= c + seq!['/'] + topic + seq!['/'] + m);
    assert(digit_value('/') is None);
    lemma_int_to_dec_avoids(chat_id as int, '/');
    lemma_int_to_dec_avoids(id as int, '/');
    lemma_split_three(c, topic, m, '/');
    assert(seq![c, topic, m].remove(1) =~= seq![c, m]);
    lemma_int_to_dec_parses(chat_id as int);
    lemma_int_to_dec_parses(id as int);
    lemma_private_link_round_trip(chat_id, id);
}

/// A link into a topic of a public chat names the message after the topic: it reads back
/// to the same chat and message as the link without the topic (for a username without
/// `/` other than `c`).
pub proof fn lemma_public_topic_link(username: Seq<char>, topic: Seq<char>, id: i32)
    requires
        !username.contains('/'),
        username != seq!['c'],
        !topic.contains('/'),
    ensures
        message_info_result(PUBLIC_LINK_PREFIX@ + username + "/"@ + topic + "/"@ + int_to_dec(id as int))
            == Ok::<(ChatEntityView, int), MessageLinkError>(
            (ChatEntityView::Username(username), id as int),
        ),
        message_info_result(PUBLIC_LINK_PREFIX@ + username + "/"@ + topic + "/"@ + int_to_dec(id as int))
            == message_info_result(message_link(ChatEntityView::Username(username), id as int)),
{
    reveal_strlit("/");
    reveal_strlit("https://t.me/");
    reveal_strlit("https://t.me/c/");
    let m = int_to_dec(id as int);
    let link = PUBLIC_LINK_PREFIX@ + username + "/"@ + topic + "/"@ + m;
    assert(link.take(PUBLIC_LINK_PREFIX@.len() as int) =~= PUBLIC_LINK_PREFIX@);
    assert(!has_prefix(link, PRIVATE_LINK_PREFIX@)) by {
        if has_prefix(link, PRIVATE_LINK_PREFIX@) {
            assert(link[13] == PRIVATE_LINK_PREFIX@[13]);
            assert(link[14] == PRIVATE_LINK_PREFIX@[14]);
            if username.len() == 0 {
                assert(link[13] == '/');
            } else if username.len() == 1 {
                assert(link[13] == username[0]);
                assert(username =~= seq!['c']);
            } else {
                assert(link[14] == username[1]);
            }
        }
    }
    let rest = link.skip(PUBLIC_LINK_PREFIX@.len() as int);
    assert(rest =~= username + seq!['/'] + topic + seq!['/'] + m);
    assert(digit_value('/') is None);
    lemma_int_to_dec_avoids(id as int, '/');
    lemma_split_three(username, topic, m, '/');
    assert(seq![username, topic, m].remove(1) =~= seq![username, m]);
    lemma_int_to_dec_parses(id as int);
    lemma_public_link_round_trip(username, id);
}

/// How a queued message is sent.
#[derive(Clone, Copy, Debug, PartialEq, Eq, Structural)]
pub enum QueuedMessageType {
    /// As a new message of the chat.
    Respond,
    /// As a reply to this message.
    Reply(i32),
    /// As the new text of this message.
    Edit(i32),
}

} // verus!
