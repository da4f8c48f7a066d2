//! Where an incoming message goes: a script of commands, a media upload, a command, or a
//! text (a message link).
use crate::text::{
    chars_of, ends_with_chars, has_prefix, has_suffix, lowercase_result, split_chars, split_on,
    starts_with_chars, string_from_chars, to_lowercase, trim, trim_chars,
};
use crate::decimal::{int_to_dec, usize_to_dec};
use crate::text::{append_chars, append_str};
use vstd::prelude::*;

verus! {

/// What the routing reads of the media of a message.
pub enum MediaKind {
    /// A document, with its file name.
    Document(String),
    Photo,
    Sticker,
    /// A web page preview, which Telegram adds to a text that holds a link.
    WebPage,
    /// Any other media.
    Other,
}

/// Where a message goes.
#[derive(Clone, Copy, Debug, PartialEq, Eq, Structural)]
pub enum Route {
    /// A `.t2o` script whose lines are run as messages.
    Batch,
    /// A file to upload.
    Media,
    /// The command registered under the name at this index.
    Command(usize),
    /// A text, handled as a message link.
    Text,
    /// A command that no registered name starts.
    UnknownCommand,
    /// An empty text: nothing to do.
    Empty,
    /// A media the bot does not handle.
    Unsupported,
}

/// The extension of a script of commands.
pub const BATCH_EXTENSION: &'static str = ".t2o";

/// Where a text message goes: nowhere when it is blank; to the first registered command
/// whose name starts the text when its trimmed form starts with `/`; else to the text event.
pub open spec fn text_route(text: Seq<char>, names: Seq<Seq<char>>) -> Route {
    let t = trim(text);
    if t.len() == 0 {
        Route::Empty
    } else if t[0] == '/' {
        match first_prefix(text, names, 0) {
            Some(i) => Route::Command(i as usize),
            None => Route::UnknownCommand,
        }
    } else {
        Route::Text
    }
}

/// The least index from `i` on whose name is a prefix of `text`.
pub open spec fn first_prefix(text: Seq<char>, names: Seq<Seq<char>>, i: int) -> Option<int>
    decreases names.len() - i,
{
    if i < 0 || i >= names.len() {
        None
    } else if has_prefix(text, names[i]) {
        Some(i)
    } else {
        first_prefix(text, names, i + 1)
    }
}

/// Where a message goes, given its media (if any), its text and the names of the
/// registered events in the order in which they are tried.
pub open spec fn message_route(media: Option<MediaKind>, text: Seq<char>, names: Seq<Seq<char>>) -> Route {
    match media {
        Some(MediaKind::Document(name)) => if has_suffix(lowercase_result(name@), BATCH_EXTENSION@) {
            Route::Batch
        } else {
            Route::Media
        },
        Some(MediaKind::Photo) => Route::Media,
        Some(MediaKind::Sticker) => Route::Media,
        Some(MediaKind::WebPage) => text_route(text, names),
        Some(MediaKind::Other) => Route::Unsupported,
        None => text_route(text, names),
    }
}

/// The views of a sequence of strings.
pub open spec fn names_view(v: Seq<String>) -> Seq<Seq<char>> {
    v.map_values(|s: String| s@)
}

/// Where a text message goes (see `text_route`).
pub fn route_text(text: &str, event_names: &Vec<String>) -> (r: Route)
    ensures
        r == text_route(text@, names_view(event_names@)),
{
    let v = chars_of(text);
    let t = trim_chars(&v);
    if t.len() == 0 {
        return Route::Empty;
    }
    if t[0] != '/' {
        return Route::Text;
    }
    let ghost nv = names_view(event_names@);
    let mut i: usize = 0;
    while i < event_names.len()
        invariant
            i <= event_names.len(),
            nv == names_view(event_names@),
            nv.len() == event_names.len(),
            v@ == text@,
            trim(text@).len() > 0,
            trim(text@)[0] == '/',
            first_prefix(text@, nv, 0) == first_prefix(text@, nv, i as int),
        decreases event_names.len() - i,
    {
        let name = chars_of(event_names[i].as_str());
        assert(nv[i as int] == name@);
        if starts_with_chars(&v, &name) {
            assert(first_prefix(text@, nv, i as int) == Some(i as int));
            return Route::Command(i);
        }
        i = i + 1;
    }
    Route::UnknownCommand
}

/// Where a message goes (see `message_route`).
pub fn route_message(media: &Option<MediaKind>, text: &str, event_names: &Vec<String>) -> (r: Route)
    ensures
        r == message_route(*media, text@, names_view(event_names@)),
{
    match media {
        Some(MediaKind::Document(name)) => {
            let lower = to_lowercase(name.as_str());
            let lv = chars_of(lower.as_str());
            let ext = chars_of(BATCH_EXTENSION);
            if ends_with_chars(&lv, &ext) {
                Route::Batch
            } else {
                Route::Media
            }
        },
        Some(MediaKind::Photo) => Route::Media,
        Some(MediaKind::Sticker) => Route::Media,
        Some(MediaKind::WebPage) => route_text(text, event_names),
        Some(MediaKind::Other) => Route::Unsupported,
        None => route_text(text, event_names),
    }
}

/// When exactly one registered name starts a command, the command goes to that name,
/// whatever the order the names are tried in.
pub proof fn lemma_unique_command(text: Seq<char>, names: Seq<Seq<char>>, i: int)
    requires
        trim(text).len() > 0,
        trim(text)[0] == '/',
        0 <= i < names.len(),
        has_prefix(text, names[i]),
        forall|j: int| 0 <= j < names.len() && j != i ==> !has_prefix(text, #[trigger] names[j]),
    ensures
        text_route(text, names) == Route::Command(i as usize),
{
    lemma_first_prefix_unique(text, names, i, 0);
}

proof fn lemma_first_prefix_unique(text: Seq<char>, names: Seq<Seq<char>>, i: int, k: int)
    requires
        0 <= k <= i < names.len(),
        has_prefix(text, names[i]),
        forall|j: int| 0 <= j < names.len() && j != i ==> !has_prefix(text, #[trigger] names[j]),
    ensures
        first_prefix(text, names, k) == Some(i),
    decreases i - k,
{
    if k < i {
        assert(!has_prefix(text, names[k]));
        lemma_first_prefix_unique(text, names, i, k + 1);
    }
}

/// The lines of a script of commands: its trimmed text split at each `\n`.
pub open spec fn batch_lines_of(batch: Seq<char>) -> Seq<Seq<char>> {
    split_on(trim(batch), '\n')
}

/// The lines of a script of commands, each run as a message of its own.
pub fn batch_lines(batch: &str) -> (r: Vec<String>)
    ensures
        r@.map_values(|s: String| s@) == batch_lines_of(batch@),
{
    let v = chars_of(batch);
    let t = trim_chars(&v);
    let parts = split_chars(&t, '\n');
    let ghost pv = parts@.map_values(|p: Vec<char>| p@);
    let mut out: Vec<String> = Vec::new();
    let mut i: usize = 0;
    while i < parts.len()
        invariant
            i <= parts.len(),
            pv == parts@.map_values(|p: Vec<char>| p@),
            out@.map_values(|s: String| s@) == pv.take(i as int),
        decreases parts.len() - i,
    {
        let ghost prev = out@;
        let line = string_from_chars(crate::text::copy_chars(&parts[i]));
        assert(line@ == pv[i as int]);
        out.push(line);
        assert(out@.map_values(|s: String| s@) =~= prev.map_values(|s: String| s@).push(line@));
        assert(pv.take(i + 1) =~= pv.take(i as int).push(pv[i as int]));
        i = i + 1;
    }
    assert(pv.take(parts.len() as int) =~= pv);
    out
}

/// What `String::from_utf8` decodes `bytes` into, or `None` when they are not UTF-8.
pub uninterp spec fn utf8_decode_result(bytes: Seq<u8>) -> Option<Seq<char>>;

/// Calls `String::from_utf8`. Trusted: the result is `utf8_decode_result` of the bytes, and
/// `None` exactly when they are not UTF-8; the decoding itself is not stated here.
#[verifier::external_body]
fn decode_utf8(bytes: &[u8]) -> (r: Option<String>)
    ensures
        match r {
            Some(s) => utf8_decode_result(bytes@) == Some(s@),
            None => utf8_decode_result(bytes@) is None,
        },
{
    String::from_utf8(bytes.to_vec()).ok()
}

/// Why a script of commands is refused.
#[derive(Clone, Copy, Debug, PartialEq, Eq, Structural)]
pub enum BatchError {
    /// Its bytes are not UTF-8.
    NotUtf8,
}

impl BatchError {
    /// The text of the error.
    pub fn message(&self) -> (r: &'static str)
        ensures
            r@ == "failed to parse batch"@,
    {
        "failed to parse batch"
    }
}

/// The lines of a downloaded script of commands: refused, before any line runs, when its
/// bytes are not UTF-8; otherwise the lines of its text (see `batch_lines_of`), in order.
pub fn batch_script(bytes: &[u8]) -> (r: Result<Vec<String>, BatchError>)
    ensures
        match utf8_decode_result(bytes@) {
            None => r == Err::<Vec<String>, BatchError>(BatchError::NotUtf8),
            Some(text) => r matches Ok(lines) && lines@.map_values(|s: String| s@) == batch_lines_of(text),
        },
{
    match decode_utf8(bytes) {
        None => Err(BatchError::NotUtf8),
        Some(text) => Ok(batch_lines(text.as_str())),
    }
}

/// The description of line `index` (counted from 0) of a script, used when it fails.
pub open spec fn batch_line_detail_text(index: int, line: Seq<char>) -> Seq<char> {
    "line "@ + int_to_dec(index + 1) + ": "@ + line
}

/// The description of line `index` (counted from 0) of a script: `line <n>: <text>`.
pub fn batch_line_detail(index: usize, line: &str) -> (r: String)
    requires
        index < usize::MAX,
    ensures
        r@ == batch_line_detail_text(index as int, line@),
{
    let mut v: Vec<char> = Vec::new();
    append_str(&mut v, "line ");
    append_chars(&mut v, &usize_to_dec(index + 1));
    append_str(&mut v, ": ");
    append_str(&mut v, line);
    assert(v@ =~= batch_line_detail_text(index as int, line@));
    string_from_chars(v)
}

} // verus!
