//! `/dir`: showing, setting, resetting the OneDrive directory, and a temporary one.
use crate::handlers::{command_words, command_words_of, concat2, concat3, word_is};
use crate::text::{chars_of, string_from_chars};
use vstd::prelude::*;

verus! {

/// The command's name.
pub const PATTERN: &'static str = "/dir";

/// What a `/dir` command asks.
pub enum DirCommand {
    /// `/dir`: show the directory.
    Show,
    /// `/dir reset`: go back to the default directory.
    Reset,
    /// `/dir help`.
    Help,
    /// `/dir $path`: set the directory.
    SetPath(String),
    /// `/dir temp cancel`: drop the temporary directory.
    TempCancel,
    /// `/dir temp $path`: set a temporary directory.
    TempSet(String),
    /// Three words whose second is not `temp`.
    SubCommandError,
    /// Any other number of words.
    CommandError,
}

/// A `/dir` command as plain values.
pub enum DirCommandView {
    Show,
    Reset,
    Help,
    SetPath(Seq<char>),
    TempCancel,
    TempSet(Seq<char>),
    SubCommandError,
    CommandError,
}

impl View for DirCommand {
    type V = DirCommandView;

    open spec fn view(&self) -> DirCommandView {
        match self {
            DirCommand::Show => DirCommandView::Show,
            DirCommand::Reset => DirCommandView::Reset,
            DirCommand::Help => DirCommandView::Help,
            DirCommand::SetPath(p) => DirCommandView::SetPath(p@),
            DirCommand::TempCancel => DirCommandView::TempCancel,
            DirCommand::TempSet(p) => DirCommandView::TempSet(p@),
            DirCommand::SubCommandError => DirCommandView::SubCommandError,
            DirCommand::CommandError => DirCommandView::CommandError,
        }
    }
}

/// What the words of a `/dir` command ask.
pub open spec fn dir_command_spec(w: Seq<Seq<char>>) -> DirCommandView {
    if w.len() == 1 {
        DirCommandView::Show
    } else if w.len() == 2 {
        if w[1] == "reset"@ {
            DirCommandView::Reset
        } else if w[1] == "help"@ {
            DirCommandView::Help
        } else {
            DirCommandView::SetPath(w[1])
        }
    } else if w.len() == 3 {
        if w[1] == "temp"@ {
            if w[2] == "cancel"@ {
                DirCommandView::TempCancel
            } else {
                DirCommandView::TempSet(w[2])
            }
        } else {
            DirCommandView::SubCommandError
        }
    } else {
        DirCommandView::CommandError
    }
}

/// Reads a `/dir` command from the text of its message.
pub fn dir_command(text: &str) -> (r: DirCommand)
    ensures
        r@ == dir_command_spec(command_words(text@)),
{
    let cmd = command_words_of(text);
    if cmd.len() == 1 {
        DirCommand::Show
    } else if cmd.len() == 2 {
        if word_is(&cmd, 1, "reset") {
            DirCommand::Reset
        } else if word_is(&cmd, 1, "help") {
            DirCommand::Help
        } else {
            DirCommand::SetPath(string_from_chars(chars_of(cmd[1].as_str())))
        }
    } else if cmd.len() == 3 {
        if word_is(&cmd, 1, "temp") {
            if word_is(&cmd, 2, "cancel") {
                DirCommand::TempCancel
            } else {
                DirCommand::TempSet(string_from_chars(chars_of(cmd[2].as_str())))
            }
        } else {
            DirCommand::SubCommandError
        }
    } else {
        DirCommand::CommandError
    }
}

/// The answer to `/dir`: the directory, and whether it is temporary.
pub open spec fn show_dir_text(root_path: Seq<char>, is_temp: bool) -> Seq<char> {
    if is_temp {
        "Current directory is "@ + root_path + ", and it's temporary."@
    } else {
        "Current directory is "@ + root_path
    }
}

/// The answer to `/dir` (see `show_dir_text`).
pub fn show_dir_response(root_path: &str, is_temp: bool) -> (r: String)
    ensures
        r@ == show_dir_text(root_path@, is_temp),
{
    if is_temp {
        concat3("Current directory is ", root_path, ", and it's temporary.")
    } else {
        concat2("Current directory is ", root_path)
    }
}

/// The answer to `/dir reset`, with the default directory.
pub fn reset_dir_response(default_root_path: &str) -> (r: String)
    ensures
        r@ == "Directory reset to default "@ + default_root_path@,
{
    concat2("Directory reset to default ", default_root_path)
}

/// The answer to `/dir $path`.
pub fn set_dir_response(root_path: &str) -> (r: String)
    ensures
        r@ == "Directory set to "@ + root_path@,
{
    concat2("Directory set to ", root_path)
}

/// The answer to `/dir temp cancel`, with the directory in use again.
pub fn cancel_temp_dir_response(root_path: &str) -> (r: String)
    ensures
        r@ == "Temporary directory canceled.\nCurrent directory is "@ + root_path@,
{
    concat2("Temporary directory canceled.\nCurrent directory is ", root_path)
}

/// The answer to `/dir temp $path`.
pub fn set_temp_dir_response(temp_root_path: &str) -> (r: String)
    ensures
        r@ == "Temporary directory set to "@ + temp_root_path@,
{
    concat2("Temporary directory set to ", temp_root_path)
}

} // verus!
