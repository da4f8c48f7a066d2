//! `/url`: reading the command, checking the URL, and reading the size the server
//! announces for the file.
use crate::decimal::{parse_in_range, parse_u64};
use crate::filename::{header_str, header_text};
use crate::handlers::{command_words, command_words_of, word_is};
use crate::text::{chars_of, has_prefix, starts_with_chars, string_from_chars};
use vstd::prelude::*;

verus! {

/// The command's name.
pub const PATTERN: &'static str = "/url";

/// What a `/url` command asks.
pub enum UrlCommand {
    /// `/url help`.
    Help,
    /// `/url $url`: the URL as written.
    Fetch(String),
    /// Anything else.
    Unknown,
}

/// A `/url` command as plain values.
pub enum UrlCommandView {
    Help,
    Fetch(Seq<char>),
    Unknown,
}

impl View for UrlCommand {
    type V = UrlCommandView;

    open spec fn view(&self) -> UrlCommandView {
        match self {
            UrlCommand::Help => UrlCommandView::Help,
            UrlCommand::Fetch(u) => UrlCommandView::Fetch(u@),
            UrlCommand::Unknown => UrlCommandView::Unknown,
        }
    }
}

/// What the words of a `/url` command ask.
pub open spec fn url_command_spec(w: Seq<Seq<char>>) -> UrlCommandView {
    if w.len() == 2 {
        if w[1] == "help"@ {
            UrlCommandView::Help
        } else {
            UrlCommandView::Fetch(w[1])
        }
    } else {
        UrlCommandView::Unknown
    }
}

/// Reads a `/url` command from the text of its message.
pub fn url_command(text: &str) -> (r: UrlCommand)
    ensures
        r@ == url_command_spec(command_words(text@)),
{
    let cmd = command_words_of(text);
    if cmd.len() == 2 {
        if word_is(&cmd, 1, "help") {
            UrlCommand::Help
        } else {
            UrlCommand::Fetch(string_from_chars(chars_of(cmd[1].as_str())))
        }
    } else {
        UrlCommand::Unknown
    }
}

/// Why a `/url` command fails.
#[derive(Clone, Copy, Debug, PartialEq, Eq, Structural)]
pub enum UrlError {
    /// The URL is neither `http://` nor `https://`.
    NotHttp,
    /// The server announced no size.
    ContentLengthMissing,
    /// The announced size holds bytes that are not visible ASCII.
    ContentLengthNotVisible,
    /// The announced size is not a number of bytes.
    ContentLengthNotNumber,
}

/// The text of each url error.
pub open spec fn url_error_text(e: UrlError) -> Seq<char> {
    match e {
        UrlError::NotHttp => "not an http url"@,
        UrlError::ContentLengthMissing => "Content-Length not found in response headers."@,
        UrlError::ContentLengthNotVisible => "header Content-Length has invisible ASCII chars"@,
        UrlError::ContentLengthNotNumber => "failed to parse header Content-Length to u64"@,
    }
}

impl UrlError {
    /// The text of the error (the server's status and headers follow that of a missing
    /// size).
    pub fn message(&self) -> (r: &'static str)
        ensures
            r@ == url_error_text(*self),
    {
        match self {
            UrlError::NotHttp => "not an http url",
            UrlError::ContentLengthMissing => "Content-Length not found in response headers.",
            UrlError::ContentLengthNotVisible => "header Content-Length has invisible ASCII chars",
            UrlError::ContentLengthNotNumber => "failed to parse header Content-Length to u64",
        }
    }
}

/// Whether a URL is one the bot fetches: `http://` or `https://`.
pub open spec fn is_http_url(url: Seq<char>) -> bool {
    has_prefix(url, "http://"@) || has_prefix(url, "https://"@)
}

/// Checks that a URL is one the bot fetches.
pub fn check_http_url(url: &str) -> (r: Result<(), UrlError>)
    ensures
        is_http_url(url@) ==> r is Ok,
        !is_http_url(url@) ==> r == Err::<(), UrlError>(UrlError::NotHttp),
{
    let v = chars_of(url);
    if starts_with_chars(&v, &chars_of("http://")) || starts_with_chars(&v, &chars_of("https://")) {
        Ok(())
    } else {
        Err(UrlError::NotHttp)
    }
}

/// The size of the file that the `Content-Length` header announces.
pub open spec fn content_length_result(header: Option<Seq<u8>>) -> Result<u64, UrlError> {
    match header {
        None => Err(UrlError::ContentLengthMissing),
        Some(bytes) => match header_str(bytes) {
            None => Err(UrlError::ContentLengthNotVisible),
            Some(text) => match parse_in_range(text, false, 0, u64::MAX as int) {
                Some(n) => Ok(n as u64),
                None => Err(UrlError::ContentLengthNotNumber),
            },
        },
    }
}

/// The size of the file that the `Content-Length` header, if the response has one,
/// announces (see `content_length_result`).
pub fn content_length(header: &Option<Vec<u8>>) -> (r: Result<u64, UrlError>)
    ensures
        r == content_length_result(match header {
            Some(b) => Some(b@),
            None => None,
        }),
{
    match header {
        None => Err(UrlError::ContentLengthMissing),
        Some(bytes) => match header_text(bytes) {
            None => Err(UrlError::ContentLengthNotVisible),
            Some(text) => match parse_u64(&text) {
                Some(n) => Ok(n),
                None => Err(UrlError::ContentLengthNotNumber),
            },
        },
    }
}

} // verus!
