//! `/drive`: listing, choosing, adding and logging out OneDrive accounts.
use crate::decimal::{int_to_dec, parse_in_range, parse_usize, usize_to_dec};
use crate::handlers::{command_words, command_words_of, concat2, word_is};
use crate::text::{
    append_chars, append_str, chars_of, contains_seq, has_suffix, occurs_at, str_eq, string_from_chars,
};
use vstd::prelude::*;

verus! {

/// The command's name.
pub const PATTERN: &'static str = "/drive";

/// What a `/drive` command asks.
pub enum DriveCommand {
    /// `/drive`: list the accounts.
    Show,
    /// `/drive add`: log in another account.
    Add,
    /// `/drive logout`: log out the current account.
    LogoutCurrent,
    /// `/drive help`.
    Help,
    /// `/drive $index`: change to the account with this number (the word as written).
    Select(String),
    /// `/drive logout $index`: log out the account with this number (the word as written).
    LogoutIndex(String),
    /// Three words whose second is not `logout`.
    SubCommandError,
    /// Any other number of words.
    CommandError,
}

/// A `/drive` command as plain values.
pub enum DriveCommandView {
    Show,
    Add,
    LogoutCurrent,
    Help,
    Select(Seq<char>),
    LogoutIndex(Seq<char>),
    SubCommandError,
    CommandError,
}

impl View for DriveCommand {
    type V = DriveCommandView;

    open spec fn view(&self) -> DriveCommandView {
        match self {
            DriveCommand::Show => DriveCommandView::Show,
            DriveCommand::Add => DriveCommandView::Add,
            DriveCommand::LogoutCurrent => DriveCommandView::LogoutCurrent,
            DriveCommand::Help => DriveCommandView::Help,
            DriveCommand::Select(w) => DriveCommandView::Select(w@),
            DriveCommand::LogoutIndex(w) => DriveCommandView::LogoutIndex(w@),
            DriveCommand::SubCommandError => DriveCommandView::SubCommandError,
            DriveCommand::CommandError => DriveCommandView::CommandError,
        }
    }
}

/// What the words of a `/drive` command ask.
pub open spec fn drive_command_spec(w: Seq<Seq<char>>) -> DriveCommandView {
    if w.len() == 1 {
        DriveCommandView::Show
    } else if w.len() == 2 {
        if w[1] == "add"@ {
            DriveCommandView::Add
        } else if w[1] == "logout"@ {
            DriveCommandView::LogoutCurrent
        } else if w[1] == "help"@ {
            DriveCommandView::Help
        } else {
            DriveCommandView::Select(w[1])
        }
    } else if w.len() == 3 {
        if w[1] == "logout"@ {
            DriveCommandView::LogoutIndex(w[2])
        } else {
            DriveCommandView::SubCommandError
        }
    } else {
        DriveCommandView::CommandError
    }
}

/// Reads a `/drive` command from the text of its message.
pub fn drive_command(text: &str) -> (r: DriveCommand)
    ensures
        r@ == drive_command_spec(command_words(text@)),
{
    let cmd = command_words_of(text);
    if cmd.len() == 1 {
        DriveCommand::Show
    } else if cmd.len() == 2 {
        if word_is(&cmd, 1, "add") {
            DriveCommand::Add
        } else if word_is(&cmd, 1, "logout") {
            DriveCommand::LogoutCurrent
        } else if word_is(&cmd, 1, "help") {
            DriveCommand::Help
        } else {
            DriveCommand::Select(string_from_chars(chars_of(cmd[1].as_str())))
        }
    } else if cmd.len() == 3 {
        if word_is(&cmd, 1, "logout") {
            DriveCommand::LogoutIndex(string_from_chars(chars_of(cmd[2].as_str())))
        } else {
            DriveCommand::SubCommandError
        }
    } else {
        DriveCommand::CommandError
    }
}

/// Why a `/drive` command fails.
#[derive(Clone, Copy, Debug, PartialEq, Eq, Structural)]
pub enum DriveError {
    /// The number of the account is not an integer.
    IndexNotInteger,
    /// No account is logged in.
    NotLoggedIn,
    /// No account has that number.
    IndexOutOfRange,
}

/// The text of each drive error.
pub open spec fn drive_error_text(e: DriveError) -> Seq<char> {
    match e {
        DriveError::IndexNotInteger => "account index should be integer"@,
        DriveError::NotLoggedIn => "no onedrive account is logged in"@,
        DriveError::IndexOutOfRange => "account index out of range"@,
    }
}

impl DriveError {
    /// The text of the error.
    pub fn message(&self) -> (r: &'static str)
        ensures
            r@ == drive_error_text(*self),
    {
        match self {
            DriveError::IndexNotInteger => "account index should be integer",
            DriveError::NotLoggedIn => "no onedrive account is logged in",
            DriveError::IndexOutOfRange => "account index out of range",
        }
    }
}

/// The position of the account numbered `n` from 1; 0 wraps round to the largest `usize`,
/// which no account has.
pub open spec fn index_of_number(n: int) -> int {
    if n == 0 {
        usize::MAX as int
    } else {
        n - 1
    }
}

/// The position of the account whose number, from 1, is the word `word`.
pub fn account_index(word: &str) -> (r: Result<usize, DriveError>)
    ensures
        match parse_in_range(word@, false, 0, usize::MAX as int) {
            Some(n) => r == Ok::<usize, DriveError>(index_of_number(n) as usize),
            None => r == Err::<usize, DriveError>(DriveError::IndexNotInteger),
        },
{
    match parse_usize(&chars_of(word)) {
        Some(n) => Ok(n.wrapping_sub(1)),
        None => Err(DriveError::IndexNotInteger),
    }
}

/// The account at `index`, if there is one.
pub fn select_account(usernames: &Vec<String>, index: usize) -> (r: Result<String, DriveError>)
    ensures
        index < usernames@.len() ==> (r matches Ok(u) && u@ == usernames@[index as int]@),
        index >= usernames@.len() ==> r == Err::<String, DriveError>(DriveError::IndexOutOfRange),
{
    if index < usernames.len() {
        Ok(string_from_chars(chars_of(usernames[index].as_str())))
    } else {
        Err(DriveError::IndexOutOfRange)
    }
}

/// The account logged in, if there is one.
pub fn current_account(current_username: &Option<String>) -> (r: Result<String, DriveError>)
    ensures
        match current_username {
            Some(u) => r matches Ok(v) && v@ == u@,
            None => r == Err::<String, DriveError>(DriveError::NotLoggedIn),
        },
{
    match current_username {
        Some(u) => Ok(string_from_chars(chars_of(u.as_str()))),
        None => Err(DriveError::NotLoggedIn),
    }
}

/// The accounts numbered from 1, one per line.
pub open spec fn numbered_list(usernames: Seq<Seq<char>>) -> Seq<char>
    decreases usernames.len(),
{
    if usernames.len() == 0 {
        seq![]
    } else {
        numbered_list(usernames.drop_last()) + int_to_dec(usernames.len() as int) + ". "@
            + usernames.last() + "\n"@
    }
}

/// A text that occurs in `a` occurs in `a` followed by anything.
proof fn lemma_contains_in_prefix(a: Seq<char>, b: Seq<char>, p: Seq<char>)
    requires
        contains_seq(a, p),
    ensures
        contains_seq(a + b, p),
{
    let i = choose|i: int| occurs_at(a, p, i);
    assert((a + b).subrange(i, i + p.len()) =~= a.subrange(i, i + p.len()));
    assert(occurs_at(a + b, p, i));
}

/// The list holds the line of each account: its number from 1, `. `, its name, and a
/// line break.
proof fn lemma_numbered_list_line(usernames: Seq<Seq<char>>, k: int)
    requires
        0 <= k < usernames.len(),
    ensures
        contains_seq(numbered_list(usernames), int_to_dec(k + 1) + ". "@ + usernames[k] + "\n"@),
    decreases usernames.len(),
{
    let line = int_to_dec(k + 1) + ". "@ + usernames[k] + "\n"@;
    let d = usernames.drop_last();
    let before = numbered_list(d);
    if k == usernames.len() - 1 {
        let whole = numbered_list(usernames);
        assert(whole =~= before + line);
        assert(whole.subrange(before.len() as int, (before.len() + line.len()) as int) =~= line);
        assert(occurs_at(whole, line, before.len() as int));
    } else {
        assert(d[k] == usernames[k]);
        lemma_numbered_list_line(d, k);
        let rest = int_to_dec(usernames.len() as int) + ". "@ + usernames.last() + "\n"@;
        lemma_contains_in_prefix(before, rest, line);
        assert(numbered_list(usernames) =~= before + rest);
    }
}

/// With two accounts or more and one logged in, the answer to `/drive` lists every account
/// on a line of its own, numbered from 1 (the number `/drive $index` takes), before it
/// names the current account at the end.
pub proof fn lemma_all_accounts_listed(usernames: Seq<Seq<char>>, current: Seq<char>, k: int)
    requires
        usernames.len() >= 2,
        0 <= k < usernames.len(),
    ensures
        has_suffix(show_drive_text(usernames, Some(current)), "Current account is "@ + current),
        contains_seq(
            show_drive_text(usernames, Some(current)).take(
                show_drive_text(usernames, Some(current)).len() - ("Current account is "@
                    + current).len(),
            ),
            int_to_dec(k + 1) + ". "@ + usernames[k] + "\n"@,
        ),
{
    let tail = "Current account is "@ + current;
    let text = show_drive_text(usernames, Some(current));
    let head = numbered_list(usernames) + "\n"@;
    assert(text =~= head + tail);
    assert(text.skip(text.len() - tail.len()) =~= tail);
    assert(text.take(text.len() - tail.len()) =~= head);
    lemma_numbered_list_line(usernames, k);
    lemma_contains_in_prefix(numbered_list(usernames), "\n"@, int_to_dec(k + 1) + ". "@ + usernames[k] + "\n"@);
}

/// The answer to `/drive`: the accounts numbered from 1 when there are several, then the
/// current one; or that there is none.
pub open spec fn show_drive_text(usernames: Seq<Seq<char>>, current: Option<Seq<char>>) -> Seq<char> {
    match current {
        Some(c) => if usernames.len() == 0 {
            "No account found."@
        } else if usernames.len() > 1 {
            numbered_list(usernames) + "\n"@ + "Current account is "@ + c
        } else {
            "Current account is "@ + c
        },
        None => "No account found."@,
    }
}

/// The accounts, as plain values.
pub open spec fn usernames_view(v: Seq<String>) -> Seq<Seq<char>> {
    v.map_values(|s: String| s@)
}

/// The answer to `/drive` (see `show_drive_text`).
pub fn show_drive_response(usernames: &Vec<String>, current_username: &Option<String>) -> (r: String)
    requires
        usernames@.len() < usize::MAX,
    ensures
        r@ == show_drive_text(usernames_view(usernames@), match current_username {
            Some(c) => Some(c@),
            None => None,
        }),
{
    let ghost uv = usernames_view(usernames@);
    match current_username {
        Some(c) => {
            if usernames.len() == 0 {
                string_from_chars(chars_of("No account found."))
            } else {
                let mut v: Vec<char> = Vec::new();
                if usernames.len() > 1 {
                    let mut i: usize = 0;
                    while i < usernames.len()
                        invariant
                            i <= usernames.len(),
                            usernames@.len() < usize::MAX,
                            uv == usernames_view(usernames@),
                            v@ == numbered_list(uv.take(i as int)),
                        decreases usernames.len() - i,
                    {
                        append_chars(&mut v, &usize_to_dec(i + 1));
                        append_str(&mut v, ". ");
                        append_str(&mut v, usernames[i].as_str());
                        append_str(&mut v, "\n");
                        assert(uv.take(i + 1).drop_last() =~= uv.take(i as int));
                        assert(uv.take(i + 1).last() == usernames@[i as int]@);
                        i = i + 1;
                    }
                    assert(uv.take(i as int) =~= uv);
                    append_str(&mut v, "\n");
                }
                append_str(&mut v, "Current account is ");
                append_str(&mut v, c.as_str());
                string_from_chars(v)
            }
        },
        None => string_from_chars(chars_of("No account found.")),
    }
}

/// The answer to a logout: the account logged out, and the current one if any is left.
pub open spec fn logout_text(username: Seq<char>, current: Option<Seq<char>>) -> Seq<char> {
    "OneDrive account "@ + username + " logged out successfully."@ + match current {
        Some(c) => "\n\nCurrent account is "@ + c,
        None => seq![],
    }
}

/// The answer to a logout (see `logout_text`).
pub fn logout_response(username: &str, current_username: &Option<String>) -> (r: String)
    ensures
        r@ == logout_text(username@, match current_username {
            Some(c) => Some(c@),
            None => None,
        }),
{
    let mut v: Vec<char> = Vec::new();
    append_str(&mut v, "OneDrive account ");
    append_str(&mut v, username);
    append_str(&mut v, " logged out successfully.");
    match current_username {
        Some(c) => {
            append_str(&mut v, "\n\nCurrent account is ");
            append_str(&mut v, c.as_str());
        },
        None => {},
    }
    string_from_chars(v)
}

/// The answer to `/drive $index`: whether the account changed.
pub open spec fn set_drive_text(current: Seq<char>, selected: Seq<char>) -> Seq<char> {
    if current == selected {
        "Same account, nothing to change."@
    } else {
        "Changed account from\n"@ + current + "\nto\n"@ + selected
    }
}

/// The answer to `/drive $index` (see `set_drive_text`).
pub fn set_drive_response(current_username: &str, selected_username: &str) -> (r: String)
    ensures
        r@ == set_drive_text(current_username@, selected_username@),
{
    if str_eq(current_username, selected_username) {
        string_from_chars(chars_of("Same account, nothing to change."))
    } else {
        let mut v: Vec<char> = Vec::new();
        append_str(&mut v, "Changed account from\n");
        append_str(&mut v, current_username);
        append_str(&mut v, "\nto\n");
        append_str(&mut v, selected_username);
        string_from_chars(v)
    }
}

} // verus!
