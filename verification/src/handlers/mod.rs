//! The commands of the bot: how each is read from a message and the answers it gives.
pub mod dir;
pub mod drive;
pub mod links;
pub mod url;
pub mod misc;
pub mod file;

use crate::command::{cmd_parser, purified};
use crate::text::{append_str, str_eq, string_from_chars, words};
use vstd::prelude::*;

verus! {

/// The words of a command, as plain values.
pub open spec fn words_view(v: Seq<String>) -> Seq<Seq<char>> {
    v.map_values(|s: String| s@)
}

/// The words of the command in `text`.
pub open spec fn command_words(text: Seq<char>) -> Seq<Seq<char>> {
    words(purified(text))
}

/// The words of the command in `text`, purified of markup.
pub fn command_words_of(text: &str) -> (r: Vec<String>)
    ensures
        words_view(r@) == command_words(text@),
        forall|i: int| 0 <= i < r@.len() ==> #[trigger] r@[i]@ == command_words(text@)[i],
{
    let r = cmd_parser(text);
    assert forall|i: int| 0 <= i < r@.len() implies #[trigger] r@[i]@ == command_words(text@)[i] by {
        assert(words_view(r@)[i] == r@[i]@);
    }
    r
}

/// Whether word `i` of a command is `w`.
pub fn word_is(cmd: &Vec<String>, i: usize, w: &str) -> (r: bool)
    requires
        i < cmd@.len(),
    ensures
        r == (cmd@[i as int]@ == w@),
{
    str_eq(cmd[i].as_str(), w)
}

/// Two texts one after the other.
pub fn concat2(a: &str, b: &str) -> (r: String)
    ensures
        r@ == a@ + b@,
{
    let mut v: Vec<char> = Vec::new();
    append_str(&mut v, a);
    append_str(&mut v, b);
    string_from_chars(v)
}

/// Three texts one after the other.
pub fn concat3(a: &str, b: &str, c: &str) -> (r: String)
    ensures
        r@ == a@ + b@ + c@,
{
    let mut v: Vec<char> = Vec::new();
    append_str(&mut v, a);
    append_str(&mut v, b);
    append_str(&mut v, c);
    assert(v@ =~= a@ + b@ + c@);
    string_from_chars(v)
}

} // verus!
